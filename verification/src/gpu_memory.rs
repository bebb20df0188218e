//! Choosing device memory for the overlay's buffers: the first memory type
//! that the resource accepts and that has every wanted property, and whether
//! the allocation is mapped for the host.
use vstd::prelude::*;

verus! {

/// The property bit of memory local to the device.
pub const DEVICE_LOCAL: u32 = 1;

/// The memory types a device offers, each by its property flags.
#[derive(Debug)]
pub struct MemoryProperties {
    pub type_flags: Vec<u32>,
}

/// Memory type `i` is among those in `type_bits` and has every property in
/// `wanted`.
pub open spec fn type_suits(flags: Seq<u32>, type_bits: u32, wanted: u32, i: int) -> bool {
    &&& (1u32 << (i as u32)) & type_bits != 0
    &&& flags[i] & wanted == wanted
}

impl MemoryProperties {
    /// The index of the first memory type that suits, if any.
    pub fn mem_type(&self, type_bits: u32, wanted: u32) -> (res: Option<u32>)
        requires
            self.type_flags@.len() <= 32,
        ensures
            res matches Some(i) ==> i < self.type_flags@.len() && type_suits(self.type_flags@, type_bits, wanted, i as int)
                && forall|j: int| 0 <= j < i ==> !#[trigger] type_suits(self.type_flags@, type_bits, wanted, j),
            res is None ==> forall|j: int|
                0 <= j < self.type_flags@.len() ==> !#[trigger] type_suits(self.type_flags@, type_bits, wanted, j),
    {
        let mut i: usize = 0;
        while i < self.type_flags.len()
            invariant
                i <= self.type_flags@.len() <= 32,
                forall|j: int| 0 <= j < i ==> !#[trigger] type_suits(self.type_flags@, type_bits, wanted, j),
            decreases self.type_flags@.len() - i,
        {
            let shift: u32 = i as u32;
            if (1u32 << shift) & type_bits != 0 && self.type_flags[i] & wanted == wanted {
                return Some(shift);
            }
            i = i + 1;
        }
        None
    }
}

/// Memory that is not local to the device is mapped for the host.
pub fn is_mapped(wanted: u32) -> (res: bool)
    ensures
        res == (wanted & DEVICE_LOCAL != DEVICE_LOCAL),
{
    wanted & DEVICE_LOCAL != DEVICE_LOCAL
}

} // verus!
