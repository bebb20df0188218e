//! Locating the Osiris engine's global tables by decoding the code of its
//! constructor.
use vstd::prelude::*;
use crate::mapper::le_i32_at;

verus! {

/// The addresses of the engine's global tables.
#[derive(Clone, Copy, Debug, PartialEq, Eq)]
pub struct OsirisStaticGlobals {
    pub variables: usize,
    pub types: usize,
    pub enums: usize,
    pub functions: usize,
    pub objects: usize,
    pub goals: usize,
    pub adapters: usize,
    pub databases: usize,
    pub nodes: usize,
}

/// The little-endian signed 32-bit value at `p`.
fn read_i32(code: &[u8], p: usize) -> (res: i64)
    requires
        p + 4 <= code@.len(),
    ensures
        res == le_i32_at(code@, p as int),
{
    let u: u64 = code[p] as u64 + 256 * (code[p + 1] as u64) + 65536 * (code[p + 2] as u64) + 16777216 * (
    code[p + 3] as u64);
    if u >= 0x8000_0000 {
        u as i64 - 0x1_0000_0000
    } else {
        u as i64
    }
}

/// A stub that checks a flag (`cmp qword ptr [rip+x], 0`) and then jumps
/// (`jmp rel32`) at `p`.
pub open spec fn is_checked_jump(code: Seq<u8>, p: int) -> bool {
    &&& code[p] == 0x48
    &&& code[p + 1] == 0x83
    &&& code[p + 2] == 0x3D
    &&& code[p + 6] == 0x00
    &&& code[p + 13] == 0xE9
}

/// The first offset `at + i`, for `i` from `i` below 64, where a checked jump
/// stands.
pub open spec fn first_checked_jump(code: Seq<u8>, at: int, i: int) -> Option<int>
    decreases 64 - i,
{
    if i >= 64 {
        None
    } else if is_checked_jump(code, at + i) {
        Some(at + i)
    } else {
        first_checked_jump(code, at, i + 1)
    }
}

/// Where the function at `at` really begins: the target of a `jmp rel32` that
/// stands at `at`, else the target of the jump of the first checked-jump stub
/// within 64 bytes, else `at` itself.
pub open spec fn real_function_offset(code: Seq<u8>, at: int) -> int {
    if code[at] == 0xE9 {
        at + 5 + le_i32_at(code, at + 1)
    } else {
        match first_checked_jump(code, at, 0) {
            Some(p) => p + 18 + le_i32_at(code, p + 14),
            None => at,
        }
    }
}

/// The address where the function at offset `at` of `code` really begins,
/// where `code` starts at address `base` and covers the bytes the stubs may
/// occupy.
pub fn resolve_real_function_address(code: &[u8], base: usize, at: usize) -> (res: usize)
    requires
        at + 81 <= code@.len(),
    ensures
        res == (base + real_function_offset(code@, at as int)) as usize,
{
    if code[at] == 0xE9 {
        let rel = read_i32(code, at + 1);
        let target: i128 = base as i128 + at as i128 + 5 + rel as i128;
        return #[verifier::truncate] (target as usize);
    }
    let n = code.len();
    let mut i: usize = 0;
    while i < 64
        invariant
            n == code@.len(),
            at + 81 <= code@.len(),
            code@[at as int] != 0xE9,
            i <= 64,
            first_checked_jump(code@, at as int, 0) == first_checked_jump(code@, at as int, i as int),
        decreases 64 - i,
    {
        let p = at + i;
        if code[p] == 0x48 && code[p + 1] == 0x83 && code[p + 2] == 0x3D && code[p + 6] == 0x00 && code[p
            + 13] == 0xE9 {
            let rel = read_i32(code, p + 14);
            let target: i128 = base as i128 + p as i128 + 18 + rel as i128;
            return #[verifier::truncate] (target as usize);
        }
        i = i + 1;
    }
    let target: i128 = base as i128 + at as i128;
    #[verifier::truncate] (target as usize)
}

/// A `mov reg, [rip+x]` followed by `mov [rip+y], reg` at `p`: the store of a
/// global's address into one of the engine's tables.
pub open spec fn is_global_store(code: Seq<u8>, p: int) -> bool {
    &&& (code[p] == 0x49 || code[p] == 0x48)
    &&& code[p + 1] == 0x8B
    &&& code[p + 3] == 0x48
    &&& code[p + 4] == 0x89
    &&& code[p + 5] & 0xC7 == 0x05
}

/// The address a global store at `p` writes to, where `code` starts at `addr`.
pub open spec fn global_store_target(code: Seq<u8>, addr: usize, p: int) -> usize {
    (addr + p + le_i32_at(code, p + 6) + 10) as usize
}

/// The targets of the global stores that start before offset `n`, in order.
pub open spec fn global_stores(code: Seq<u8>, addr: usize, n: int) -> Seq<usize>
    decreases n,
{
    if n <= 0 {
        Seq::empty()
    } else if is_global_store(code, n - 1) {
        global_stores(code, addr, n - 1).push(global_store_target(code, addr, n - 1))
    } else {
        global_stores(code, addr, n - 1)
    }
}

proof fn lemma_global_stores_prefix(code: Seq<u8>, addr: usize, n: int, m: int)
    requires
        0 <= n <= m,
    ensures
        global_stores(code, addr, n).len() <= global_stores(code, addr, m).len(),
        forall|k: int|
            0 <= k < global_stores(code, addr, n).len() ==> #[trigger] global_stores(code, addr, n)[k]
                == global_stores(code, addr, m)[k],
    decreases m - n,
{
    if n < m {
        lemma_global_stores_prefix(code, addr, n, m - 1);
    }
}

/// The number of bytes of the constructor that are searched for stores.
pub const GLOBAL_SCAN_LEN: usize = 0x500;

/// The engine's global tables, from the code of its constructor at address
/// `addr`: the targets of the first nine global stores within the first
/// `0x500` bytes, in the order variables, types, enums, functions, objects,
/// goals, adapters, databases, nodes; `None` when there are fewer than nine.
pub fn find_osiris_globals(code: &[u8], addr: usize) -> (res: Option<OsirisStaticGlobals>)
    requires
        GLOBAL_SCAN_LEN + 9 <= code@.len(),
    ensures
        ({
            let g = global_stores(code@, addr, GLOBAL_SCAN_LEN as int);
            if g.len() < 9 {
                res is None
            } else {
                res == Some(
                    OsirisStaticGlobals {
                        variables: g[0],
                        types: g[1],
                        enums: g[2],
                        functions: g[3],
                        objects: g[4],
                        goals: g[5],
                        adapters: g[6],
                        databases: g[7],
                        nodes: g[8],
                    },
                )
            }
        }),
{
    let mut found: Vec<usize> = Vec::new();
    let mut i: usize = 0;
    while i < GLOBAL_SCAN_LEN && found.len() < 9
        invariant
            GLOBAL_SCAN_LEN + 9 <= code@.len(),
            i <= GLOBAL_SCAN_LEN,
            found@ == global_stores(code@, addr, i as int),
            found@.len() <= 9,
        decreases GLOBAL_SCAN_LEN - i,
    {
        if (code[i] == 0x49 || code[i] == 0x48) && code[i + 1] == 0x8B && code[i + 3] == 0x48 && code[i + 4]
            == 0x89 && (code[i + 5] & 0xC7) == 0x05 {
            let rel = read_i32(code, i + 6);
            let target: i128 = addr as i128 + i as i128 + rel as i128 + 10;
            found.push(#[verifier::truncate] (target as usize));
        }
        i = i + 1;
    }
    proof {
        lemma_global_stores_prefix(code@, addr, i as int, GLOBAL_SCAN_LEN as int);
    }
    if found.len() < 9 {
        return None;
    }
    Some(
        OsirisStaticGlobals {
            variables: found[0],
            types: found[1],
            enums: found[2],
            functions: found[3],
            objects: found[4],
            goals: found[5],
            adapters: found[6],
            databases: found[7],
            nodes: found[8],
        },
    )
}

} // verus!
