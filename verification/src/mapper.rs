//! Binding engine symbols: scanning the game's code for the mappings' patterns
//! and decoding the instructions they point at.
use vstd::prelude::*;

use crate::mappings::{BinaryMappings, Mapping, MappingOrDllImport, Target, TargetType, TargetValue, TargetsOrPatch};
use crate::pattern::{is_first_match, scan_candidate, window_matches, PatternByte};
use crate::symbols::{bind_symbol, StaticSymbols};

verus! {

/// Where the game's main module and its code section lie in memory.
#[derive(Clone, Copy, Debug, PartialEq, Eq)]
pub struct ModuleInfo {
    pub start: usize,
    pub size: usize,
    pub text_start: usize,
    pub text_size: usize,
}

/// A section header of the module's image: its name, where the section lies
/// relative to the image's start, and its size in the file.
#[derive(Clone, Copy, Debug, PartialEq, Eq)]
pub struct SectionHeader {
    pub name: [u8; 8],
    pub virtual_address: u32,
    pub size_of_raw_data: u32,
}

/// The header's name begins with `.text`.
pub open spec fn is_text_section(h: SectionHeader) -> bool {
    h.name@.take(5) == seq![0x2Eu8, 0x74u8, 0x65u8, 0x78u8, 0x74u8]
}

impl ModuleInfo {
    /// The module of `size` bytes at `start`, with its code section taken from
    /// the section headers: when a header is named `.text`, the code section
    /// lies at the address and has the size that the first header gives;
    /// otherwise it is the whole image.
    pub fn from_sections(start: usize, size: usize, sections: &[SectionHeader]) -> (res: ModuleInfo)
        requires
            sections@.len() > 0 ==> start + sections@[0].virtual_address <= usize::MAX,
        ensures
            res.start == start,
            res.size == size,
            (exists|i: int| 0 <= i < sections@.len() && #[trigger] is_text_section(sections@[i])) ==> res.text_start
                == start + sections@[0].virtual_address && res.text_size == sections@[0].size_of_raw_data,
            !(exists|i: int| 0 <= i < sections@.len() && #[trigger] is_text_section(sections@[i])) ==> res.text_start
                == start && res.text_size == size,
    {
        let mut text_start = start;
        let mut text_size = size;
        let mut i: usize = 0;
        while i < sections.len()
            invariant
                i <= sections@.len(),
                sections@.len() > 0 ==> start + sections@[0].virtual_address <= usize::MAX,
                (exists|j: int| 0 <= j < i && #[trigger] is_text_section(sections@[j])) ==> text_start == start
                    + sections@[0].virtual_address && text_size == sections@[0].size_of_raw_data,
                !(exists|j: int| 0 <= j < i && #[trigger] is_text_section(sections@[j])) ==> text_start == start
                    && text_size == size,
            decreases sections@.len() - i,
        {
            let name = sections[i].name;
            let named_text = name[0] == 0x2E && name[1] == 0x74 && name[2] == 0x65 && name[3] == 0x78
                && name[4] == 0x74;
            proof {
                let t = seq![0x2Eu8, 0x74u8, 0x65u8, 0x78u8, 0x74u8];
                if named_text {
                    assert(name@.take(5) =~= t);
                } else if name@.take(5) == t {
                    assert(name@.take(5)[0] == name@[0]);
                    assert(name@.take(5)[1] == name@[1]);
                    assert(name@.take(5)[2] == name@[2]);
                    assert(name@.take(5)[3] == name@[3]);
                    assert(name@.take(5)[4] == name@[4]);
                }
                assert(named_text == is_text_section(sections@[i as int]));
            }
            if named_text {
                text_start = start + sections[0].virtual_address as usize;
                text_size = sections[0].size_of_raw_data as usize;
            }
            i = i + 1;
        }
        ModuleInfo { start, size, text_start, text_size }
    }
}

/// The signed 32-bit little-endian value stored at `p`.
pub open spec fn le_i32_at(mem: Seq<u8>, p: int) -> int {
    let u = mem[p] as int + 256 * (mem[p + 1] as int) + 65536 * (mem[p + 2] as int) + 16777216 * (
    mem[p + 3] as int);
    if u >= 0x8000_0000 {
        u - 0x1_0000_0000
    } else {
        u
    }
}

/// For an instruction that starts with bytes `b0 b1 b2`, the position of its
/// 32-bit relative operand and the instruction's length: calls and jumps, MOV,
/// LEA, MOVSXD, MOVZX, CMP, OR and MOV-immediate forms addressed relative to
/// the next instruction.
pub open spec fn operand_layout(b0: u8, b1: u8, b2: u8) -> Option<(int, int)> {
    if b0 == 0xE8 || b0 == 0xE9 {
        Some((1, 5))
    } else if b0 == 0x8B && b1 < 0x20 {
        Some((2, 6))
    } else if (b0 == 0x44 || b0 == 0x48 || b0 == 0x4C) && (b1 == 0x8D || b1 == 0x8B || b1 == 0x89) {
        Some((3, 7))
    } else if b0 == 0x48 && b1 == 0x63 {
        Some((3, 7))
    } else if b0 == 0x44 && b1 == 0x0F && b2 == 0xB7 {
        Some((4, 8))
    } else if b0 == 0x0F && b1 == 0xB7 {
        Some((3, 7))
    } else if b0 == 0x48 && b1 == 0x3B && b2 & 0x0F == 0x0D {
        Some((3, 7))
    } else if b0 == 0xC7 && b1 == 0x05 {
        Some((2, 10))
    } else if b0 == 0x66 && b1 == 0x0B {
        Some((3, 7))
    } else if b0 == 0x3B {
        Some((2, 6))
    } else {
        None
    }
}

/// The offset in `mem` that the instruction at `insn` refers to: the end of the
/// instruction plus its relative operand. None for an instruction of another
/// kind, or one whose bytes run past the end of `mem`.
pub open spec fn instruction_target(mem: Seq<u8>, insn: int) -> Option<int> {
    if insn < 0 || insn + 3 > mem.len() {
        None
    } else {
        match operand_layout(mem[insn], mem[insn + 1], mem[insn + 2]) {
            None => None,
            Some((pos, len)) => if insn + pos + 4 > mem.len() {
                None
            } else {
                Some(insn + le_i32_at(mem, insn + pos) + len)
            },
        }
    }
}

/// The target an instruction at `insn` resolves to when its 32-bit relative
/// operand stands `pos` bytes in and the instruction is `len` bytes long: the
/// instruction's end plus the operand, read as a signed little-endian number;
/// none when the operand runs past the end of `mem`.
pub open spec fn rip_relative(mem: Seq<u8>, insn: int, pos: int, len: int) -> Option<int> {
    if insn + pos + 4 > mem.len() {
        None
    } else {
        let p = insn + pos;
        let u = mem[p] + mem[p + 1] * 0x100 + mem[p + 2] * 0x1_0000 + mem[p + 3] * 0x100_0000;
        Some(insn + len + if u < 0x8000_0000 { u } else { u - 0x1_0000_0000 })
    }
}

/// The instructions that resolve, and where their operand stands: calls and
/// jumps (`E8`, `E9`) after one byte, 5 long; MOV to a 32-bit register (`8B`
/// with a ModRM below `20`) after two, 6 long; REX-prefixed (`44`, `48`,
/// `4C`) MOV and LEA (`8B`, `89`, `8D`) after three, 7 long; MOVSXD (`48 63`)
/// after three, 7 long; MOVZX (`44 0F B7`) after four, 8 long, and (`0F B7`)
/// after three, 7 long; CMP (`48 3B` with a ModRM ending in `D`) after three,
/// 7 long; MOV of an immediate to memory (`C7 05`) after two, 10 long; OR
/// (`66 0B`) after three, 7 long; CMP (`3B`) after two, 6 long. Nothing else
/// resolves, nor an instruction of fewer than three bytes.
pub proof fn lemma_instruction_targets(mem: Seq<u8>, insn: int)
    ensures
        insn < 0 || insn + 3 > mem.len() ==> instruction_target(mem, insn) is None,
        0 <= insn && insn + 3 <= mem.len() ==> {
            let (b0, b1, b2) = (mem[insn], mem[insn + 1], mem[insn + 2]);
            &&& (b0 == 0xE8 || b0 == 0xE9) ==> instruction_target(mem, insn) == rip_relative(mem, insn, 1, 5)
            &&& (b0 == 0x8B && b1 < 0x20) ==> instruction_target(mem, insn) == rip_relative(mem, insn, 2, 6)
            &&& ((b0 == 0x44 || b0 == 0x48 || b0 == 0x4C) && (b1 == 0x8D || b1 == 0x8B || b1 == 0x89))
                ==> instruction_target(mem, insn) == rip_relative(mem, insn, 3, 7)
            &&& (b0 == 0x48 && b1 == 0x63) ==> instruction_target(mem, insn) == rip_relative(mem, insn, 3, 7)
            &&& (b0 == 0x44 && b1 == 0x0F && b2 == 0xB7) ==> instruction_target(mem, insn) == rip_relative(
                mem,
                insn,
                4,
                8,
            )
            &&& (b0 == 0x0F && b1 == 0xB7) ==> instruction_target(mem, insn) == rip_relative(mem, insn, 3, 7)
            &&& (b0 == 0x48 && b1 == 0x3B && b2 % 16 == 0x0D) ==> instruction_target(mem, insn) == rip_relative(
                mem,
                insn,
                3,
                7,
            )
            &&& (b0 == 0xC7 && b1 == 0x05) ==> instruction_target(mem, insn) == rip_relative(mem, insn, 2, 10)
            &&& (b0 == 0x66 && b1 == 0x0B) ==> instruction_target(mem, insn) == rip_relative(mem, insn, 3, 7)
            &&& b0 == 0x3B ==> instruction_target(mem, insn) == rip_relative(mem, insn, 2, 6)
            &&& !((b0 == 0xE8 || b0 == 0xE9) || (b0 == 0x8B && b1 < 0x20) || ((b0 == 0x44 || b0 == 0x48 || b0
                == 0x4C) && (b1 == 0x8D || b1 == 0x8B || b1 == 0x89)) || (b0 == 0x48 && b1 == 0x63) || (b0
                == 0x44 && b1 == 0x0F && b2 == 0xB7) || (b0 == 0x0F && b1 == 0xB7) || (b0 == 0x48 && b1 == 0x3B
                && b2 % 16 == 0x0D) || (b0 == 0xC7 && b1 == 0x05) || (b0 == 0x66 && b1 == 0x0B) || b0 == 0x3B)
                ==> instruction_target(mem, insn) is None
        },
{
    if 0 <= insn && insn + 3 <= mem.len() {
        let b2 = mem[insn + 2];
        assert(b2 & 0x0F == b2 % 16) by (bit_vector);
    }
}

fn operand_layout_of(b0: u8, b1: u8, b2: u8) -> (res: Option<(usize, usize)>)
    ensures
        match res {
            Some((p, l)) => operand_layout(b0, b1, b2) == Some((p as int, l as int)) && 1 <= p <= 4,
            None => operand_layout(b0, b1, b2) is None,
        },
{
    if b0 == 0xE8 || b0 == 0xE9 {
        Some((1, 5))
    } else if b0 == 0x8B && b1 < 0x20 {
        Some((2, 6))
    } else if (b0 == 0x44 || b0 == 0x48 || b0 == 0x4C) && (b1 == 0x8D || b1 == 0x8B || b1 == 0x89) {
        Some((3, 7))
    } else if b0 == 0x48 && b1 == 0x63 {
        Some((3, 7))
    } else if b0 == 0x44 && b1 == 0x0F && b2 == 0xB7 {
        Some((4, 8))
    } else if b0 == 0x0F && b1 == 0xB7 {
        Some((3, 7))
    } else if b0 == 0x48 && b1 == 0x3B && b2 & 0x0F == 0x0D {
        Some((3, 7))
    } else if b0 == 0xC7 && b1 == 0x05 {
        Some((2, 10))
    } else if b0 == 0x66 && b1 == 0x0B {
        Some((3, 7))
    } else if b0 == 0x3B {
        Some((2, 6))
    } else {
        None
    }
}

/// The absolute address that the instruction at offset `insn` of `mem` refers
/// to, where `mem` starts at address `base`.
pub fn asm_resolve_instruction_ref(mem: &[u8], base: usize, insn: usize) -> (res: Option<usize>)
    ensures
        match instruction_target(mem@, insn as int) {
            Some(t) => res == Some((base + t) as usize),
            None => res is None,
        },
{
    let n = mem.len();
    if insn > n || n - insn < 3 {
        return None;
    }
    let layout = operand_layout_of(mem[insn], mem[insn + 1], mem[insn + 2]);
    match layout {
        None => None,
        Some((pos, len)) => {
            if n - insn < pos + 4 {
                return None;
            }
            let p = insn + pos;
            let u: u64 = mem[p] as u64 + 256 * (mem[p + 1] as u64) + 65536 * (mem[p + 2] as u64)
                + 16777216 * (mem[p + 3] as u64);
            let rel: i128 = if u >= 0x8000_0000 {
                u as i128 - 0x1_0000_0000
            } else {
                u as i128
            };
            let target: i128 = base as i128 + insn as i128 + rel + len as i128;
            Some(#[verifier::truncate] (target as usize))
        },
    }
}

/// The first offset from `w` on at which the whole pattern matches `mem`.
pub open spec fn first_match_from(bytes: Seq<PatternByte>, mem: Seq<u8>, w: int) -> Option<int>
    decreases mem.len() - w,
{
    if w < 0 || w + bytes.len() > mem.len() {
        None
    } else if window_matches(bytes, mem, w) {
        Some(w)
    } else {
        first_match_from(bytes, mem, w + 1)
    }
}

proof fn lemma_first_match_from(bytes: Seq<PatternByte>, mem: Seq<u8>, w0: int, r: Option<usize>)
    requires
        0 <= w0,
        is_first_match(bytes, mem, r),
        r matches Some(w) ==> w0 <= w,
    ensures
        first_match_from(bytes, mem, w0) == match r {
            Some(w) => Some(w as int),
            None => None::<int>,
        },
    decreases mem.len() - w0,
{
    if w0 + bytes.len() > mem.len() {
        if let Some(w) = r {
            assert(window_matches(bytes, mem, w as int));
        }
    } else if window_matches(bytes, mem, w0) {
        assert(scan_candidate(bytes, mem, w0, 0));
        if let Some(w) = r {
            if w0 < w {
                assert(!scan_candidate(bytes, mem, w0, 0));
            }
        }
    } else {
        if let Some(w) = r {
            if w0 == w {
                assert(scan_candidate(bytes, mem, w as int, 0));
            }
        }
        lemma_first_match_from(bytes, mem, w0 + 1, r);
    }
}

/// What one target of a matched mapping binds: an indirect symbol target binds
/// its symbol to the address that the instruction at the target's offset from
/// the match refers to.
pub open spec fn apply_target(
    slots: Seq<Option<usize>>,
    t: Target,
    mem: Seq<u8>,
    base: usize,
    w: int,
) -> Seq<Option<usize>> {
    match t.value {
        TargetValue::Symbol(s) => if t.ty == TargetType::Indirect {
            match instruction_target(mem, w + t.offset) {
                Some(tg) => bind_symbol(slots, s@, (base + tg) as usize),
                None => slots,
            }
        } else {
            slots
        },
        _ => slots,
    }
}

pub open spec fn apply_targets(
    slots: Seq<Option<usize>>,
    ts: Seq<Target>,
    mem: Seq<u8>,
    base: usize,
    w: int,
) -> Seq<Option<usize>>
    decreases ts.len(),
{
    if ts.len() == 0 {
        slots
    } else {
        apply_target(apply_targets(slots, ts.drop_last(), mem, base, w), ts.last(), mem, base, w)
    }
}

/// What a mapping binds: its targets, at the first place its pattern matches.
pub open spec fn apply_mapping(slots: Seq<Option<usize>>, m: Mapping, mem: Seq<u8>, base: usize) -> Seq<
    Option<usize>,
> {
    match m.targets_or_patch {
        TargetsOrPatch::Targets(ts) => match first_match_from(m.pattern.bytes@, mem, 0) {
            Some(w) => apply_targets(slots, ts@, mem, base, w),
            None => slots,
        },
        TargetsOrPatch::Patch(_) => slots,
    }
}

/// What the entries of a document bind, one after the other.
pub open spec fn apply_entries(
    slots: Seq<Option<usize>>,
    es: Seq<MappingOrDllImport>,
    mem: Seq<u8>,
    base: usize,
) -> Seq<Option<usize>>
    decreases es.len(),
{
    if es.len() == 0 {
        slots
    } else {
        let prev = apply_entries(slots, es.drop_last(), mem, base);
        match es.last() {
            MappingOrDllImport::Mapping(m) => apply_mapping(prev, m, mem, base),
            MappingOrDllImport::DllImport(_) => prev,
        }
    }
}

/// A pattern that can be scanned for.
pub open spec fn scannable(m: Mapping) -> bool {
    m.pattern.bytes@.len() >= 1 && m.pattern.bytes@[0].mask == 0xFF
}

pub open spec fn entries_scannable(es: Seq<MappingOrDllImport>) -> bool {
    forall|k: int|
        0 <= k < es.len() ==> (#[trigger] es[k] matches MappingOrDllImport::Mapping(m) ==> scannable(m))
}

/// Binds, and keeps bound.
pub open spec fn keeps_bound(old_slots: Seq<Option<usize>>, new_slots: Seq<Option<usize>>) -> bool {
    &&& new_slots.len() == old_slots.len()
    &&& forall|i: int| 0 <= i < old_slots.len() && (#[trigger] old_slots[i]) is Some ==> new_slots[i] == old_slots[i]
}

proof fn lemma_bind_keeps(slots: Seq<Option<usize>>, s: Seq<char>, v: usize)
    requires
        slots.len() == crate::symbols::NUM_STATIC_SYMBOLS,
    ensures
        keeps_bound(slots, bind_symbol(slots, s, v)),
{
    if let Some(n) = crate::symbols::symbol_named(s) {
        n.lemma_index_roundtrip();
    }
}

proof fn lemma_targets_keep(slots: Seq<Option<usize>>, ts: Seq<Target>, mem: Seq<u8>, base: usize, w: int)
    requires
        slots.len() == crate::symbols::NUM_STATIC_SYMBOLS,
    ensures
        keeps_bound(slots, apply_targets(slots, ts, mem, base, w)),
    decreases ts.len(),
{
    if ts.len() > 0 {
        lemma_targets_keep(slots, ts.drop_last(), mem, base, w);
        let prev = apply_targets(slots, ts.drop_last(), mem, base, w);
        let t = ts.last();
        if let TargetValue::Symbol(s) = t.value {
            if t.ty == TargetType::Indirect {
                if let Some(tg) = instruction_target(mem, w + t.offset) {
                    lemma_bind_keeps(prev, s@, (base + tg) as usize);
                }
            }
        }
    }
}

/// Applying mappings never changes an address that a symbol already holds.
pub proof fn lemma_apply_entries_keeps_bound(
    slots: Seq<Option<usize>>,
    es: Seq<MappingOrDllImport>,
    mem: Seq<u8>,
    base: usize,
)
    requires
        slots.len() == crate::symbols::NUM_STATIC_SYMBOLS,
    ensures
        keeps_bound(slots, apply_entries(slots, es, mem, base)),
    decreases es.len(),
{
    if es.len() > 0 {
        lemma_apply_entries_keeps_bound(slots, es.drop_last(), mem, base);
        let prev = apply_entries(slots, es.drop_last(), mem, base);
        if let MappingOrDllImport::Mapping(m) = es.last() {
            if let TargetsOrPatch::Targets(ts) = m.targets_or_patch {
                if let Some(w) = first_match_from(m.pattern.bytes@, mem, 0) {
                    lemma_targets_keep(prev, ts@, mem, base, w);
                }
            }
        }
    }
}

/// Binds symbols from the pattern mappings by scanning the module's code.
pub struct SymbolMapper {
    pub main_module: ModuleInfo,
    pub static_symbols: StaticSymbols,
}

impl SymbolMapper {
    /// A mapper for a module, with no symbol bound.
    pub fn new(main_module: ModuleInfo) -> (res: SymbolMapper)
        ensures
            res.main_module == main_module,
            res.static_symbols.view() == Seq::new(
                crate::symbols::NUM_STATIC_SYMBOLS as nat,
                |i: int| None::<usize>,
            ),
    {
        SymbolMapper { main_module, static_symbols: StaticSymbols::new() }
    }

    /// Applies every mapping of the document to the module's code `text`, which
    /// starts at the module's `text_start`. Imports from DLLs bind nothing.
    pub fn populate_mappings(&mut self, binary_mappings: BinaryMappings, text: &[u8])
        requires
            text@.len() == old(self).main_module.text_size,
            old(self).static_symbols.view().len() == crate::symbols::NUM_STATIC_SYMBOLS,
            entries_scannable(binary_mappings.data@),
        ensures
            final(self).main_module == old(self).main_module,
            final(self).static_symbols.view() == apply_entries(
                old(self).static_symbols.view(),
                binary_mappings.data@,
                text@,
                old(self).main_module.text_start,
            ),
            keeps_bound(old(self).static_symbols.view(), final(self).static_symbols.view()),
    {
        let ghost es = binary_mappings.data@;
        let ghost start = self.static_symbols.view();
        let base = self.main_module.text_start;
        proof {
            assert(es.take(0) =~= Seq::<MappingOrDllImport>::empty());
        }
        for mapping in it: binary_mappings.data.into_iter()
            invariant
                it.seq() == es,
                entries_scannable(es),
                base == self.main_module.text_start,
                self.main_module == old(self).main_module,
                start == old(self).static_symbols.view(),
                start.len() == crate::symbols::NUM_STATIC_SYMBOLS,
                self.static_symbols.view() == apply_entries(start, es.take(it.index() as int), text@, base),
        {
            let ghost k = it.index() as int;
            proof {
                assert(es.take(k + 1).drop_last() =~= es.take(k));
                lemma_apply_entries_keeps_bound(start, es.take(k), text@, base);
            }
            match mapping {
                MappingOrDllImport::DllImport(_) => {},
                MappingOrDllImport::Mapping(m) => {
                    proof {
                        assert(es[k] matches MappingOrDllImport::Mapping(mm) ==> scannable(mm));
                    }
                    self.add_mapping(&m, text);
                },
            }
        }
        proof {
            assert(es.take(es.len() as int) =~= es);
            lemma_apply_entries_keeps_bound(start, es, text@, base);
        }
    }

    fn add_mapping(&mut self, mapping: &Mapping, text: &[u8])
        requires
            scannable(*mapping),
            old(self).static_symbols.view().len() == crate::symbols::NUM_STATIC_SYMBOLS,
        ensures
            final(self).main_module == old(self).main_module,
            final(self).static_symbols.view() == apply_mapping(
                old(self).static_symbols.view(),
                *mapping,
                text@,
                old(self).main_module.text_start,
            ),
    {
        let base = self.main_module.text_start;
        match &mapping.targets_or_patch {
            TargetsOrPatch::Targets(targets) => {
                let take_first = |w: usize| -> (r: Option<()>)
                    ensures
                        r == Some(()),
                    { Some(()) };
                let scanned = mapping.pattern.scan(text, take_first);
                let found: Option<usize> = match scanned {
                    Some((w, _)) => Some(w),
                    None => None,
                };
                proof {
                    let bytes = mapping.pattern.bytes@;
                    match scanned {
                        Some((w, _)) => {
                            assert forall|w2: int| 0 <= w2 < w implies !scan_candidate(bytes, text@, w2, 0) by {
                                if scan_candidate(bytes, text@, w2, 0) {
                                    assert(call_ensures(take_first, (w2 as usize,), None));
                                }
                            }
                        },
                        None => {
                            assert forall|w2: int| !scan_candidate(bytes, text@, w2, 0) by {
                                if scan_candidate(bytes, text@, w2, 0) {
                                    assert(call_ensures(take_first, (w2 as usize,), None));
                                }
                            }
                        },
                    }
                    assert(is_first_match(bytes, text@, found));
                    lemma_first_match_from(mapping.pattern.bytes@, text@, 0, found);
                }
                if let Some(w) = found {
                    let ghost start = self.static_symbols.view();
                    let mut k: usize = 0;
                    while k < targets.len()
                        invariant
                            k <= targets@.len(),
                            base == self.main_module.text_start,
                            self.main_module == old(self).main_module,
                            start == old(self).static_symbols.view(),
                            start.len() == crate::symbols::NUM_STATIC_SYMBOLS,
                            self.static_symbols.view() == apply_targets(
                                start,
                                targets@.take(k as int),
                                text@,
                                base,
                                w as int,
                            ),
                        decreases targets@.len() - k,
                    {
                        let t = &targets[k];
                        proof {
                            assert(targets@.take(k + 1).drop_last() =~= targets@.take(k as int));
                            assert(targets@.take(k + 1).last() == *t);
                        }
                        match &t.value {
                            TargetValue::Symbol(s) => {
                                match t.ty {
                                    TargetType::Absolute => {},
                                    TargetType::Indirect => {
                                        let at: i128 = w as i128 + t.offset as i128;
                                        if 0 <= at && at <= text.len() as i128 {
                                            let insn = at as usize;
                                            if let Some(addr) = asm_resolve_instruction_ref(
                                                text,
                                                base,
                                                insn,
                                            ) {
                                                let _ = self.static_symbols.set(s.as_str(), addr);
                                            }
                                        } else {
                                            assert(instruction_target(text@, w + t.offset) is None);
                                        }
                                    },
                                }
                            },
                            TargetValue::NextSymbol { .. } => {},
                            TargetValue::EngineCallback(_) => {},
                        }
                        k = k + 1;
                    }
                    proof {
                        assert(targets@.take(targets@.len() as int) =~= targets@);
                    }
                }
            },
            TargetsOrPatch::Patch(_) => {},
        }
    }
}

} // verus!
