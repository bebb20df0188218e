//! The engine's C++ standard-library string.
use vstd::prelude::*;
use vstd::string::StringSliceAdditionalSpecFns;
use crate::osiris::{bytes_before_nul, c_bytes, lex_lt, lex_lt_slices, str_from_utf8};

verus! {

/// A C++ `std::string`: a buffer holding the characters and a terminating
/// nul, with its length and capacity (buffers of capacity 15 are stored
/// inline).
#[derive(Debug)]
pub struct STDString {
    pub buf: Vec<u8>,
    pub size: u32,
    pub capacity: u32,
}

/// A `std::string` that owns its buffer.
#[derive(Debug)]
pub struct STDStringOwned {
    pub string: STDString,
}

impl STDStringOwned {
    /// A string holding `bytes`: inline (capacity 15, buffer padded with nuls
    /// to 16 bytes) when shorter than 16 bytes, otherwise with a buffer of the
    /// bytes and a nul and capacity equal to the length. Length and capacity
    /// are 32-bit fields and take the length's low 32 bits.
    pub fn from_bytes(bytes: &[u8]) -> (res: STDStringOwned)
        ensures
            res.string.size == bytes@.len() as u32,
            bytes@.len() < 16 ==> res.string.capacity == 15 && res.string.buf@ == bytes@ + Seq::new(
                (16 - bytes@.len()) as nat,
                |i: int| 0u8,
            ),
            bytes@.len() >= 16 ==> res.string.capacity == bytes@.len() as u32 && res.string.buf@
                == bytes@.push(0),
    {
        let mut buf: Vec<u8> = Vec::new();
        let mut i: usize = 0;
        while i < bytes.len()
            invariant
                i <= bytes@.len(),
                buf@ == bytes@.take(i as int),
            decreases bytes@.len() - i,
        {
            buf.push(bytes[i]);
            i = i + 1;
            assert(buf@ =~= bytes@.take(i as int));
        }
        assert(bytes@.take(bytes@.len() as int) =~= bytes@);
        let size = bytes.len() as u32;
        if bytes.len() < 16 {
            let ghost content = buf@;
            while buf.len() < 16
                invariant
                    content == bytes@,
                    bytes@.len() <= buf@.len() <= 16,
                    buf@ == content + Seq::new((buf@.len() - content.len()) as nat, |i: int| 0u8),
                decreases 16 - buf@.len(),
            {
                buf.push(0);
                assert(buf@ =~= content + Seq::new((buf@.len() - content.len()) as nat, |i: int| 0u8));
            }
            STDStringOwned { string: STDString { buf, size, capacity: 15 } }
        } else {
            buf.push(0);
            STDStringOwned { string: STDString { buf, size, capacity: size } }
        }
    }
}

impl STDString {
    /// Inline buffers have capacity 15; larger strings live on the heap.
    pub open spec fn spec_is_large_mode(&self) -> bool {
        self.capacity > 15
    }

    pub fn is_large_mode(&self) -> (res: bool)
        ensures
            res == self.spec_is_large_mode(),
    {
        self.capacity > 15
    }

    /// The string's bytes up to the terminating nul.
    pub fn c_str(&self) -> (res: &[u8])
        ensures
            res@ == c_bytes(self.buf@),
    {
        bytes_before_nul(self.buf.as_slice())
    }

    /// The string's first `size` bytes as text; they must be valid UTF-8.
    pub fn as_str(&self) -> (res: &str)
        requires
            self.size <= self.buf@.len(),
            vstd::utf8::valid_utf8(self.buf@.take(self.size as int)),
        ensures
            res.spec_bytes() == self.buf@.take(self.size as int),
    {
        let bytes = self.buf.as_slice().split_at(self.size as usize).0;
        assert(bytes@ =~= self.buf@.take(self.size as int));
        match str_from_utf8(bytes) {
            Some(s) => s,
            None => "",
        }
    }

    /// Whether two strings hold the same bytes before their nuls, as `==`
    /// compares them.
    pub fn same_c_str(&self, other: &STDString) -> (res: bool)
        ensures
            res == (c_bytes(self.buf@) == c_bytes(other.buf@)),
    {
        let a = self.c_str();
        let b = other.c_str();
        crate::text::bytes_eq(a, b)
    }

    /// Whether this string sorts before `other`, as `<` compares them: by
    /// their bytes before the nul, a proper prefix first.
    pub fn c_str_before(&self, other: &STDString) -> (res: bool)
        ensures
            res == lex_lt(c_bytes(self.buf@), c_bytes(other.buf@)),
    {
        lex_lt_slices(self.c_str(), other.c_str())
    }
}

} // verus!
