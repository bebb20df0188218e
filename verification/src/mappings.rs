//! The binary mappings: what the XML document describes, checked and resolved.
use vstd::prelude::*;

use crate::pattern::{anchors_view, parse_pattern, AnchorsView, Pattern, PatternByte, PatternError};
use crate::symbols::{StaticSymbolName, SymbolError};
use crate::text::chars_of;
use crate::xml;

verus! {

/// Why a mapping document was refused.
#[derive(Debug)]
pub enum MappingError {
    /// A pattern's text is malformed.
    Pattern(PatternError),
    /// The mapping with this name has no pattern.
    NoPattern(String),
    /// The mapping with this name has both targets and a patch, or neither.
    TargetsOrPatch(String),
    /// No anchor of the pattern has this name.
    AnchorNotFound(String),
    /// This offset is neither an anchor name nor a decimal number.
    BadOffset(String),
    /// A target names none or several of symbol, next symbol and engine callback.
    UnexpectedTarget,
    /// A DLL import names an unknown symbol.
    Symbol(SymbolError),
}

#[derive(Debug)]
pub struct BinaryMappings {
    pub version: String,
    pub default: bool,
    pub data: Vec<MappingOrDllImport>,
}

#[derive(Debug)]
pub enum MappingOrDllImport {
    DllImport(DllImport),
    Mapping(Mapping),
}

#[derive(Debug)]
pub struct DllImport {
    pub module: String,
    pub proc: String,
    pub symbol: StaticSymbolName,
}

#[derive(Debug)]
pub struct Mapping {
    pub name: String,
    pub critical: bool,
    pub allow_fail: bool,
    pub scope: MappingScope,
    pub pattern: Pattern,
    pub condition: Option<Condition>,
    pub targets_or_patch: TargetsOrPatch,
}

#[derive(Clone, Copy, Debug, PartialEq, Eq)]
pub enum MappingScope {
    Text,
    Custom,
}

#[derive(Debug)]
pub struct Condition {
    pub offset: isize,
    pub value: ConditionValue,
}

#[derive(Debug)]
pub enum ConditionValue {
    String(String),
    FixedString(String),
    FixedStringIndirect(String),
}

#[derive(Debug)]
pub enum TargetsOrPatch {
    Targets(Vec<Target>),
    Patch(Patch),
}

#[derive(Debug)]
pub struct Target {
    pub ty: TargetType,
    pub offset: isize,
    pub value: TargetValue,
}

#[derive(Clone, Copy, Debug, PartialEq, Eq)]
pub enum TargetType {
    Absolute,
    Indirect,
}

#[derive(Debug)]
pub enum TargetValue {
    Symbol(String),
    NextSymbol { value: String, offset: isize },
    EngineCallback(String),
}

#[derive(Debug)]
pub struct Patch {
    pub offset: isize,
    pub text: String,
}

/// `s` with every leading `0x` removed (`str::trim_start_matches("0x")`).
pub open spec fn trim_hex_prefix(s: Seq<char>) -> Seq<char>
    decreases s.len(),
{
    if s.len() >= 2 && s[0] == '0' && s[1] == 'x' {
        trim_hex_prefix(s.subrange(2, s.len() as int))
    } else {
        s
    }
}

pub open spec fn is_decimal_digit(c: char) -> bool {
    '0' <= c <= '9'
}

/// The value of a string of decimal digits.
pub open spec fn decimal_value(d: Seq<char>) -> int
    decreases d.len(),
{
    if d.len() == 0 {
        0
    } else {
        10 * decimal_value(d.drop_last()) + (d.last() as u32 - '0' as u32)
    }
}

pub open spec fn all_decimal_digits(d: Seq<char>) -> bool {
    forall|k: int| 0 <= k < d.len() ==> is_decimal_digit(#[trigger] d[k])
}

/// `s` without its leading sign, if it has one.
pub open spec fn unsigned_part(s: Seq<char>) -> Seq<char> {
    if s.len() > 0 && (s[0] == '-' || s[0] == '+') {
        s.drop_first()
    } else {
        s
    }
}

/// The value of a decimal integer text as `isize` parsing reads it: an optional
/// `+` or `-`, then at least one decimal digit, and a value that fits.
pub open spec fn parse_isize_spec(s: Seq<char>) -> Option<isize> {
    if s.len() == 0 {
        None
    } else {
        let neg = s[0] == '-';
        let body = unsigned_part(s);
        if body.len() == 0 || !all_decimal_digits(body) {
            None
        } else {
            let v = if neg {
                -decimal_value(body)
            } else {
                decimal_value(body)
            };
            if isize::MIN <= v <= isize::MAX {
                Some(v as isize)
            } else {
                None
            }
        }
    }
}

/// The offset of the first anchor with the given name.
pub open spec fn first_anchor_offset(anchors: AnchorsView, name: Seq<char>) -> Option<usize>
    decreases anchors.len(),
{
    if anchors.len() == 0 {
        None
    } else if anchors[0].0 == name {
        Some(anchors[0].1)
    } else {
        first_anchor_offset(anchors.drop_first(), name)
    }
}

/// What an offset text denotes for a pattern: the offset of the anchor it
/// names when it starts with `@`, otherwise the decimal number that remains
/// after leading `0x` are removed.
pub open spec fn offset_value(s: Seq<char>, anchors: AnchorsView) -> Option<isize> {
    if s.len() > 0 && s[0] == '@' {
        match first_anchor_offset(anchors, s) {
            Some(o) => Some(o as isize),
            None => None,
        }
    } else {
        parse_isize_spec(trim_hex_prefix(s))
    }
}

proof fn lemma_decimal_value_nonneg(d: Seq<char>)
    requires
        forall|k: int| 0 <= k < d.len() ==> is_decimal_digit(#[trigger] d[k]),
    ensures
        decimal_value(d) >= 0,
    decreases d.len(),
{
    if d.len() > 0 {
        lemma_decimal_value_nonneg(d.drop_last());
    }
}

/// A longer run of digits is worth at least as much as its prefix.
proof fn lemma_decimal_value_prefix(d: Seq<char>, k: int)
    requires
        0 <= k <= d.len(),
        forall|j: int| 0 <= j < d.len() ==> is_decimal_digit(#[trigger] d[j]),
    ensures
        0 <= decimal_value(d.take(k)) <= decimal_value(d),
    decreases d.len() - k,
{
    if k == d.len() {
        assert(d.take(k) =~= d);
        lemma_decimal_value_nonneg(d);
    } else {
        lemma_decimal_value_prefix(d, k + 1);
        assert(d.take(k + 1).drop_last() =~= d.take(k));
        lemma_decimal_value_nonneg(d.take(k));
    }
}

/// Reads a decimal `isize` the way `str::parse::<isize>` does.
fn parse_isize(s: &[char]) -> (res: Option<isize>)
    ensures
        res == parse_isize_spec(s@),
{
    let n = s.len();
    if n == 0 {
        return None;
    }
    let neg = s[0] == '-';
    let start: usize = if s[0] == '-' || s[0] == '+' {
        1
    } else {
        0
    };
    let ghost body = unsigned_part(s@);
    assert(body =~= s@.subrange(start as int, n as int));
    if start == n {
        return None;
    }
    let mut acc: isize = 0;
    let mut i: usize = start;
    let mut overflow = false;
    while i < n
        invariant
            start <= i <= n,
            n == s@.len(),
            body == s@.subrange(start as int, n as int),
            n > 0,
            body == unsigned_part(s@),
            neg == (s@[0] == '-'),
            forall|k: int| start <= k < i ==> is_decimal_digit(#[trigger] s@[k]),
            !overflow ==> acc == (if neg {
                -decimal_value(body.take(i - start))
            } else {
                decimal_value(body.take(i - start))
            }),
            overflow ==> !(isize::MIN <= (if neg {
                -decimal_value(body.take(i - start))
            } else {
                decimal_value(body.take(i - start))
            }) <= isize::MAX),
        decreases n - i,
    {
        let c = s[i];
        if !('0' <= c && c <= '9') {
            assert(body[i - start] == c);
            assert(!is_decimal_digit(body[i - start]));
            assert(!all_decimal_digits(body));
            assert(body.len() > 0);
            return None;
        }
        let d = (c as u32 - '0' as u32) as isize;
        let ghost prev = body.take(i - start);
        let ghost next = body.take(i + 1 - start);
        assert(next.drop_last() =~= prev);
        assert(next.last() == c);
        proof {
            assert forall|k: int| 0 <= k < prev.len() implies is_decimal_digit(#[trigger] prev[k]) by {
                assert(prev[k] == s@[start + k]);
            }
            lemma_decimal_value_nonneg(prev);
        }
        if !overflow {
            let m = acc.checked_mul(10);
            match m {
                None => {
                    overflow = true;
                },
                Some(m) => {
                    let r = if neg {
                        m.checked_sub(d)
                    } else {
                        m.checked_add(d)
                    };
                    match r {
                        None => {
                            overflow = true;
                        },
                        Some(r) => {
                            acc = r;
                        },
                    }
                },
            }
        }
        i = i + 1;
    }
    proof {
        assert(body.take(n - start) =~= body);
    }
    if overflow {
        None
    } else {
        Some(acc)
    }
}

proof fn lemma_first_anchor_offset(anchors: AnchorsView, name: Seq<char>, k: int)
    requires
        0 <= k < anchors.len(),
        anchors[k].0 == name,
        forall|l: int| 0 <= l < k ==> (#[trigger] anchors[l]).0 != name,
    ensures
        first_anchor_offset(anchors, name) == Some(anchors[k].1),
    decreases k,
{
    if k > 0 {
        assert(anchors[0].0 != name);
        let rest = anchors.drop_first();
        assert forall|l: int| 0 <= l < k - 1 implies (#[trigger] rest[l]).0 != name by {
            assert(rest[l] == anchors[l + 1]);
        }
        lemma_first_anchor_offset(rest, name, k - 1);
    }
}

proof fn lemma_no_anchor_offset(anchors: AnchorsView, name: Seq<char>)
    requires
        forall|l: int| 0 <= l < anchors.len() ==> (#[trigger] anchors[l]).0 != name,
    ensures
        first_anchor_offset(anchors, name) is None,
    decreases anchors.len(),
{
    if anchors.len() > 0 {
        assert(anchors[0].0 != name);
        let rest = anchors.drop_first();
        assert forall|l: int| 0 <= l < rest.len() implies (#[trigger] rest[l]).0 != name by {
            assert(rest[l] == anchors[l + 1]);
        }
        lemma_no_anchor_offset(rest, name);
    }
}

/// The offset that an offset text denotes for a pattern.
pub fn calculate_offset(offset: &str, pattern: &Pattern) -> (res: Result<isize, MappingError>)
    ensures
        match res {
            Ok(o) => offset_value(offset@, anchors_view(pattern.anchors@)) == Some(o),
            Err(e) => offset_value(offset@, anchors_view(pattern.anchors@)) is None && (if offset@.len()
                > 0 && offset@[0] == '@' {
                e matches MappingError::AnchorNotFound(s) && s@ == offset@
            } else {
                e matches MappingError::BadOffset(s) && s@ == offset@
            }),
        },
{
    let s = chars_of(offset);
    let ghost av = anchors_view(pattern.anchors@);
    if s.len() > 0 && s[0] == '@' {
        match pattern.find_anchor(offset) {
            Some(a) => {
                proof {
                    let k = choose|k: int|
                        0 <= k < pattern.anchors@.len() && pattern.anchors@[k] == *a && a.0@
                            == offset@ && forall|l: int|
                            0 <= l < k ==> (#[trigger] pattern.anchors@[l]).0@ != offset@;
                    assert forall|l: int| 0 <= l < k implies (#[trigger] av[l]).0 != offset@ by {
                        assert(av[l].0 == pattern.anchors@[l].0@);
                    }
                    lemma_first_anchor_offset(av, offset@, k);
                }
                Ok(#[verifier::truncate] (a.1 as isize))
            },
            None => {
                proof {
                    assert forall|l: int| 0 <= l < av.len() implies (#[trigger] av[l]).0 != offset@ by {
                        assert(av[l].0 == pattern.anchors@[l].0@);
                    }
                    lemma_no_anchor_offset(av, offset@);
                }
                Err(MappingError::AnchorNotFound(offset.to_owned()))
            },
        }
    } else {
        let mut start: usize = 0;
        let n = s.len();
        assert(s@.subrange(0, n as int) =~= s@);
        while n - start >= 2 && s[start] == '0' && s[start + 1] == 'x'
            invariant
                start <= n,
                n == s@.len(),
                trim_hex_prefix(s@) == trim_hex_prefix(s@.subrange(start as int, n as int)),
            decreases n - start,
        {
            assert(s@.subrange(start as int, n as int).subrange(2, (n - start) as int) =~= s@.subrange(
                start + 2,
                n as int,
            ));
            start = start + 2;
        }
        assert(trim_hex_prefix(s@.subrange(start as int, n as int)) == s@.subrange(
            start as int,
            n as int,
        ));
        let rest = s.as_slice().split_at(start).1;
        assert(rest@ =~= s@.subrange(start as int, n as int));
        match parse_isize(rest) {
            Some(v) => Ok(v),
            None => Err(MappingError::BadOffset(offset.to_owned())),
        }
    }
}

impl Condition {
    /// The condition that a mapping's condition entry describes, at its offset
    /// within the pattern. Every condition type keeps its value as a `String`
    /// condition.
    pub fn from_parsed(value: xml::Condition, pattern: &Pattern) -> (res: Result<Condition, MappingError>)
        ensures
            match res {
                Ok(c) => offset_value(value.offset@, anchors_view(pattern.anchors@)) == Some(c.offset)
                    && (c.value matches ConditionValue::String(v) && v@ == value.value@),
                Err(e) => offset_value(value.offset@, anchors_view(pattern.anchors@)) is None,
            },
    {
        let offset = calculate_offset(value.offset.as_str(), pattern)?;
        let v = match value.ty {
            xml::ConditionType::String => ConditionValue::String(value.value),
            xml::ConditionType::FixedString => ConditionValue::String(value.value),
            xml::ConditionType::FixedStringIndirect => ConditionValue::String(value.value),
        };
        Ok(Condition { offset, value: v })
    }
}

pub open spec fn target_type_of(t: xml::TargetType) -> TargetType {
    match t {
        xml::TargetType::Absolute => TargetType::Absolute,
        xml::TargetType::Indirect => TargetType::Indirect,
    }
}

pub open spec fn opt_view(o: Option<String>) -> Option<Seq<char>> {
    match o {
        Some(s) => Some(s@),
        None => None,
    }
}

/// Whether `t` is the target that `value` describes for the given anchors:
/// exactly one of symbol, next symbol (with its seek size) or engine callback.
pub open spec fn target_describes(t: Target, value: xml::Target, anchors: AnchorsView) -> bool {
    &&& t.ty == target_type_of(value.ty)
    &&& offset_value(value.offset@, anchors) == Some(t.offset)
    &&& match (value.symbol, value.next_symbol, value.next_symbol_seek_size, value.engine_callback) {
        (Some(s), None, None, None) => t.value matches TargetValue::Symbol(v) && v@ == s@,
        (None, Some(ns), Some(seek), None) => t.value matches TargetValue::NextSymbol { value: v, offset: o }
            && v@ == ns@ && offset_value(seek@, anchors) == Some(o),
        (None, None, None, Some(ec)) => t.value matches TargetValue::EngineCallback(v) && v@ == ec@,
        _ => false,
    }
}

/// Whether a target entry can be read for the given anchors.
pub open spec fn target_readable(value: xml::Target, anchors: AnchorsView) -> bool {
    &&& offset_value(value.offset@, anchors) is Some
    &&& match (value.symbol, value.next_symbol, value.next_symbol_seek_size, value.engine_callback) {
        (Some(_), None, None, None) => true,
        (None, Some(_), Some(seek), None) => offset_value(seek@, anchors) is Some,
        (None, None, None, Some(_)) => true,
        _ => false,
    }
}

impl Target {
    /// The target that a mapping's target entry describes.
    pub fn from_parsed(value: xml::Target, pattern: &Pattern) -> (res: Result<Target, MappingError>)
        ensures
            res is Ok <==> target_readable(value, anchors_view(pattern.anchors@)),
            res matches Ok(t) ==> target_describes(t, value, anchors_view(pattern.anchors@)),
            res matches Err(MappingError::UnexpectedTarget) ==> offset_value(
                value.offset@,
                anchors_view(pattern.anchors@),
            ) is Some,
    {
        let ghost anchors = anchors_view(pattern.anchors@);
        let offset = calculate_offset(value.offset.as_str(), pattern)?;
        let ty = match value.ty {
            xml::TargetType::Absolute => TargetType::Absolute,
            xml::TargetType::Indirect => TargetType::Indirect,
        };
        let tv = match (value.symbol, value.next_symbol, value.next_symbol_seek_size, value.engine_callback) {
            (Some(s), None, None, None) => TargetValue::Symbol(s),
            (None, Some(v), Some(seek), None) => {
                let o = calculate_offset(seek.as_str(), pattern)?;
                TargetValue::NextSymbol { value: v, offset: o }
            },
            (None, None, None, Some(ec)) => TargetValue::EngineCallback(ec),
            _ => {
                return Err(MappingError::UnexpectedTarget);
            },
        };
        Ok(Target { ty, offset, value: tv })
    }
}

impl Patch {
    /// The patch that a mapping's patch entry describes.
    pub fn from_parsed(value: xml::Patch, pattern: &Pattern) -> (res: Result<Patch, MappingError>)
        ensures
            match res {
                Ok(p) => offset_value(value.offset@, anchors_view(pattern.anchors@)) == Some(p.offset)
                    && p.text@ == value.text@,
                Err(_) => offset_value(value.offset@, anchors_view(pattern.anchors@)) is None,
            },
    {
        let offset = calculate_offset(value.offset.as_str(), pattern)?;
        Ok(Patch { offset, text: value.text })
    }
}


/// The text of the last pattern entry among a mapping's entries.
pub open spec fn last_pattern(props: Seq<xml::MappingProperty>) -> Option<Seq<char>>
    decreases props.len(),
{
    if props.len() == 0 {
        None
    } else {
        match props.last() {
            xml::MappingProperty::Pattern(p) => Some(p@),
            _ => last_pattern(props.drop_last()),
        }
    }
}

/// The last patch entry among a mapping's entries.
pub open spec fn last_patch(props: Seq<xml::MappingProperty>) -> Option<xml::Patch>
    decreases props.len(),
{
    if props.len() == 0 {
        None
    } else {
        match props.last() {
            xml::MappingProperty::Patch(p) => Some(p),
            _ => last_patch(props.drop_last()),
        }
    }
}

/// The last condition entry among a mapping's entries.
pub open spec fn last_condition(props: Seq<xml::MappingProperty>) -> Option<xml::Condition>
    decreases props.len(),
{
    if props.len() == 0 {
        None
    } else {
        match props.last() {
            xml::MappingProperty::Condition(c) => Some(c),
            _ => last_condition(props.drop_last()),
        }
    }
}

/// The target entries among a mapping's entries, in order.
pub open spec fn all_targets(props: Seq<xml::MappingProperty>) -> Seq<xml::Target>
    decreases props.len(),
{
    if props.len() == 0 {
        Seq::empty()
    } else {
        match props.last() {
            xml::MappingProperty::Target(t) => all_targets(props.drop_last()).push(t),
            _ => all_targets(props.drop_last()),
        }
    }
}

pub open spec fn scope_of(s: xml::MappingScope) -> MappingScope {
    match s {
        xml::MappingScope::Text => MappingScope::Text,
        xml::MappingScope::Custom => MappingScope::Custom,
    }
}

/// Whether the targets or patch of a mapping describe its target or patch
/// entries for the given anchors.
pub open spec fn targets_or_patch_describes(
    tp: TargetsOrPatch,
    props: Seq<xml::MappingProperty>,
    anchors: AnchorsView,
) -> bool {
    match tp {
        TargetsOrPatch::Targets(ts) => all_targets(props).len() > 0 && last_patch(props) is None
            && ts@.len() == all_targets(props).len() && forall|k: int|
            0 <= k < ts@.len() ==> target_describes(#[trigger] ts@[k], all_targets(props)[k], anchors),
        TargetsOrPatch::Patch(p) => all_targets(props).len() == 0 && (last_patch(props) matches Some(
            xp,
        ) && offset_value(xp.offset@, anchors) == Some(p.offset) && p.text@ == xp.text@),
    }
}

/// Whether a mapping's entries, with a pattern of the given anchors, convert:
/// targets and no patch, or a patch and no targets, all with readable offsets,
/// and a readable condition offset if there is a condition.
pub open spec fn entries_convert(props: Seq<xml::MappingProperty>, anchors: AnchorsView) -> bool {
    &&& if all_targets(props).len() > 0 && last_patch(props) is None {
        forall|k: int|
            0 <= k < all_targets(props).len() ==> target_readable(
                #[trigger] all_targets(props)[k],
                anchors,
            )
    } else if all_targets(props).len() == 0 && last_patch(props) is Some {
        offset_value(last_patch(props)->0.offset@, anchors) is Some
    } else {
        false
    }
    &&& last_condition(props) matches Some(c) ==> offset_value(c.offset@, anchors) is Some
}

proof fn lemma_selectors_step(props: Seq<xml::MappingProperty>, k: int)
    requires
        0 <= k < props.len(),
    ensures
        props.take(k + 1).drop_last() == props.take(k),
        props.take(k + 1).last() == props[k],
{
    assert(props.take(k + 1).drop_last() =~= props.take(k));
}

impl Mapping {
    /// The mapping that a mapping entry describes.
    pub fn try_from(value: xml::Mapping) -> (res: Result<Mapping, MappingError>)
        ensures
            match last_pattern(value.props@) {
                None => res matches Err(MappingError::NoPattern(n)) && n@ == value.name@,
                Some(text) => match parse_pattern(text) {
                    Err(pe) => res matches Err(MappingError::Pattern(e)) && e == pe,
                    Ok((bytes, anchors)) => {
                        &&& res is Ok <==> entries_convert(value.props@, anchors)
                        &&& !(all_targets(value.props@).len() > 0 && last_patch(value.props@) is None)
                            && !(all_targets(value.props@).len() == 0 && last_patch(value.props@) is Some)
                            ==> (res matches Err(MappingError::TargetsOrPatch(n)) && n@ == value.name@)
                        &&& res matches Ok(m) ==> {
                            &&& m.name@ == value.name@
                            &&& m.critical == value.critical
                            &&& m.allow_fail == value.allow_fail
                            &&& m.scope == scope_of(value.scope)
                            &&& m.pattern.bytes@ == bytes
                            &&& anchors_view(m.pattern.anchors@) == anchors
                            &&& targets_or_patch_describes(m.targets_or_patch, value.props@, anchors)
                            &&& match last_condition(value.props@) {
                                None => m.condition is None,
                                Some(c) => m.condition matches Some(mc) && offset_value(c.offset@, anchors)
                                    == Some(mc.offset) && (mc.value matches ConditionValue::String(v) && v@
                                    == c.value@),
                            }
                        }
                    },
                },
            },
    {
        let ghost props = value.props@;
        let mut condition: Option<xml::Condition> = None;
        let mut pattern: Option<String> = None;
        let mut targets: Vec<xml::Target> = Vec::new();
        let mut patch: Option<xml::Patch> = None;
        let name = value.name;
        for prop in it: value.props.into_iter()
            invariant
                it.seq() == props,
                it.index() <= props.len(),
                condition == last_condition(props.take(it.index() as int)),
                opt_view(pattern) == last_pattern(props.take(it.index() as int)),
                patch == last_patch(props.take(it.index() as int)),
                targets@ == all_targets(props.take(it.index() as int)),
        {
            proof {
                lemma_selectors_step(props, it.index() as int);
            }
            match prop {
                xml::MappingProperty::Patch(x) => patch = Some(x),
                xml::MappingProperty::Target(x) => targets.push(x),
                xml::MappingProperty::Condition(x) => condition = Some(x),
                xml::MappingProperty::Pattern(x) => pattern = Some(x),
            }
        }
        proof {
            assert(props.take(props.len() as int) =~= props);
        }
        let pattern_text = match pattern {
            None => {
                return Err(MappingError::NoPattern(name));
            },
            Some(p) => p,
        };
        let pattern = match Pattern::try_from(pattern_text.as_str()) {
            Ok(p) => p,
            Err(e) => {
                return Err(MappingError::Pattern(e));
            },
        };
        let ghost anchors = anchors_view(pattern.anchors@);
        let targets_or_patch = if targets.len() > 0 && patch.is_none() {
            let mut converted: Vec<Target> = Vec::new();
            let ghost xts = targets@;
            for t in it: targets.into_iter()
                invariant
                    it.seq() == xts,
                    xts == all_targets(props),
                    props == value.props@,
                    xts.len() > 0,
                    last_patch(props) is None,
                    last_pattern(props) == Some(pattern_text@),
                    parse_pattern(pattern_text@) == Ok::<(Seq<PatternByte>, AnchorsView), PatternError>((pattern.bytes@, anchors)),
                    anchors == anchors_view(pattern.anchors@),
                    converted@.len() == it.index(),
                    forall|k: int| 0 <= k < it.index() ==> target_readable(#[trigger] xts[k], anchors),
                    forall|k: int|
                        0 <= k < it.index() ==> target_describes(#[trigger] converted@[k], xts[k], anchors),
            {
                let ghost k = it.index() as int;
                let c = Target::from_parsed(t, &pattern)?;
                converted.push(c);
                proof {
                    assert(converted@[k] == c);
                }
            }
            TargetsOrPatch::Targets(converted)
        } else if targets.len() == 0 && patch.is_some() {
            match patch {
                Some(p) => TargetsOrPatch::Patch(Patch::from_parsed(p, &pattern)?),
                None => {
                    return Err(MappingError::TargetsOrPatch(name));
                },
            }
        } else {
            return Err(MappingError::TargetsOrPatch(name));
        };
        let scope = match value.scope {
            xml::MappingScope::Text => MappingScope::Text,
            xml::MappingScope::Custom => MappingScope::Custom,
        };
        let condition = match condition {
            None => None,
            Some(c) => Some(Condition::from_parsed(c, &pattern)?),
        };
        Ok(
            Mapping {
                name,
                critical: value.critical,
                allow_fail: value.allow_fail,
                scope,
                pattern,
                condition,
                targets_or_patch,
            },
        )
    }
}

impl DllImport {
    /// The DLL import that an import entry describes.
    pub fn try_from(value: xml::DllImport) -> (res: Result<DllImport, MappingError>)
        ensures
            match res {
                Ok(d) => d.module@ == value.module@ && d.proc@ == value.proc@
                    && d.symbol.spec_name()@ == value.symbol@,
                Err(e) => e matches MappingError::Symbol(SymbolError::Unknown(s)) && s@ == value.symbol@
                    && forall|n: StaticSymbolName| (#[trigger] n.spec_name())@ != value.symbol@,
            },
    {
        let symbol = match StaticSymbolName::from_str(value.symbol.as_str()) {
            Ok(n) => n,
            Err(e) => {
                return Err(MappingError::Symbol(e));
            },
        };
        Ok(DllImport { module: value.module, proc: value.proc, symbol })
    }
}

/// Whether an entry of the document converts.
pub open spec fn entry_converts(e: xml::MappingOrDllImport) -> bool {
    match e {
        xml::MappingOrDllImport::DllImport(d) => exists|n: StaticSymbolName| (#[trigger] n.spec_name())@
            == d.symbol@,
        xml::MappingOrDllImport::Mapping(m) => match last_pattern(m.props@) {
            None => false,
            Some(text) => match parse_pattern(text) {
                Err(_) => false,
                Ok((bytes, anchors)) => entries_convert(m.props@, anchors),
            },
        },
    }
}

impl MappingOrDllImport {
    pub fn try_from(value: xml::MappingOrDllImport) -> (res: Result<MappingOrDllImport, MappingError>)
        ensures
            res is Ok <==> entry_converts(value),
            match value {
                xml::MappingOrDllImport::DllImport(_) => res is Err || res matches Ok(
                    MappingOrDllImport::DllImport(_),
                ),
                xml::MappingOrDllImport::Mapping(_) => res is Err || res matches Ok(
                    MappingOrDllImport::Mapping(_),
                ),
            },
    {
        match value {
            xml::MappingOrDllImport::DllImport(x) => {
                let d = DllImport::try_from(x);
                match d {
                    Ok(d) => Ok(MappingOrDllImport::DllImport(d)),
                    Err(e) => Err(e),
                }
            },
            xml::MappingOrDllImport::Mapping(x) => {
                let m = Mapping::try_from(x);
                match m {
                    Ok(m) => Ok(MappingOrDllImport::Mapping(m)),
                    Err(e) => Err(e),
                }
            },
        }
    }
}

impl BinaryMappings {
    /// The mappings that a whole document describes; refused at the first entry
    /// that does not convert.
    pub fn try_from(value: xml::BinaryMappings) -> (res: Result<BinaryMappings, MappingError>)
        ensures
            res is Ok <==> forall|k: int|
                0 <= k < value.mappings.inner@.len() ==> entry_converts(#[trigger] value.mappings.inner@[k]),
            res matches Ok(b) ==> b.version@ == value.mappings.version@ && b.default
                == value.mappings.default && b.data@.len() == value.mappings.inner@.len(),
    {
        let ghost entries = value.mappings.inner@;
        let mut data: Vec<MappingOrDllImport> = Vec::new();
        for e in it: value.mappings.inner.into_iter()
            invariant
                it.seq() == entries,
                data@.len() == it.index(),
                forall|k: int| 0 <= k < it.index() ==> entry_converts(#[trigger] entries[k]),
        {
            let ghost k = it.index() as int;
            let c = MappingOrDllImport::try_from(e)?;
            data.push(c);
        }
        Ok(BinaryMappings { version: value.mappings.version, default: value.mappings.default, data })
    }
}

} // verus!
