//! Byte patterns of the binary mappings: their text form, matching and scanning.
use vstd::prelude::*;

use crate::text::{chars_eq, chars_of, push_char, string_from_chars};
use crate::hex_dump::hex_digit_exec;

verus! {

/// Whether `c` is alphanumeric in the sense of `char::is_alphanumeric`.
pub uninterp spec fn char_is_alphanumeric(c: char) -> bool;

/// `char::is_alphanumeric` (the Unicode `Alphabetic` or `Numeric` property).
/// Its result is named by `char_is_alphanumeric`; among ASCII characters the
/// letters and the digits have it. The Unicode tables for other characters are
/// not restated here.
#[verifier::external_body]
fn is_alphanumeric(c: char) -> (res: bool)
    ensures
        res == char_is_alphanumeric(c),
        (c as u32) < 128 ==> (res <==> (('a' <= c && c <= 'z') || ('A' <= c && c <= 'Z') || ('0' <= c && c
            <= '9'))),
{
    c.is_alphanumeric()
}

/// A character that may continue a word of the pattern text (an anchor's
/// name, or a token to skip): an ASCII letter or digit, or a character beyond
/// ASCII that is alphanumeric.
pub open spec fn is_word_char(c: char) -> bool {
    if (c as u32) < 128 {
        ('a' <= c && c <= 'z') || ('A' <= c && c <= 'Z') || ('0' <= c && c <= '9')
    } else {
        char_is_alphanumeric(c)
    }
}

fn word_char(c: char) -> (res: bool)
    ensures
        res == is_word_char(c),
{
    is_alphanumeric(c)
}

/// One byte of a pattern: a memory byte `m` matches when `m & mask == value`.
#[derive(Clone, Copy, Debug, PartialEq, Eq)]
pub struct PatternByte {
    pub value: u8,
    pub mask: u8,
}

impl PatternByte {
    pub fn new(value: u8, mask: u8) -> (res: Self)
        ensures
            res == (PatternByte { value, mask }),
    {
        PatternByte { value, mask }
    }

    /// The byte as a pattern writes it: two upper-case hex digits, `?` for
    /// a half that matches anything, and `??` where the mask is neither a
    /// whole byte nor a half.
    pub open spec fn spec_text(&self) -> Seq<char> {
        if self.mask == 0xFF {
            seq![crate::hex_dump::hex_digit(self.value / 16), crate::hex_dump::hex_digit(self.value % 16)]
        } else if self.mask == 0xF0 {
            seq![crate::hex_dump::hex_digit(self.value / 16), '?']
        } else if self.mask == 0x0F {
            seq!['?', crate::hex_dump::hex_digit(self.value % 16)]
        } else {
            seq!['?', '?']
        }
    }

    pub fn text(&self) -> (res: String)
        ensures
            res@ == self.spec_text(),
    {
        let mut s = String::new();
        if self.mask == 0xFF {
            push_char(&mut s, hex_digit_exec(self.value / 16));
            push_char(&mut s, hex_digit_exec(self.value % 16));
        } else if self.mask == 0xF0 {
            push_char(&mut s, hex_digit_exec(self.value / 16));
            push_char(&mut s, '?');
        } else if self.mask == 0x0F {
            push_char(&mut s, '?');
            push_char(&mut s, hex_digit_exec(self.value % 16));
        } else {
            push_char(&mut s, '?');
            push_char(&mut s, '?');
        }
        s
    }
}

proof fn lemma_hex_digit_reads_back(d: u8)
    requires
        d < 16,
    ensures
        hex_digit_value(crate::hex_dump::hex_digit(d)) == Some(d),
{
}

/// A whole byte's text reads back as that byte, and a byte that matches
/// anything is written `??`, the text that a pattern reads as such a byte.
pub proof fn lemma_byte_text_reads_back(b: PatternByte)
    ensures
        b.mask == 0xFF ==> hex_pair_value(b.spec_text()[0], b.spec_text()[1]) == Some(b.value),
        b.mask == 0 ==> b.spec_text() == seq!['?', '?'],
{
    if b.mask == 0xFF {
        lemma_hex_digit_reads_back(b.value / 16);
        lemma_hex_digit_reads_back(b.value % 16);
        assert((b.value / 16) * 16 + b.value % 16 == b.value);
    }
}

/// Why a pattern's text was refused.
#[derive(Clone, Copy, Debug, PartialEq, Eq)]
pub enum PatternError {
    /// A byte token has only one character.
    ByteTooShort,
    /// The character after a byte token is alphanumeric.
    BytesNotSeparated,
    /// A byte token is neither `??` nor two hexadecimal digits.
    InvalidHex(char, char),
    /// The pattern holds no byte.
    Empty,
    /// The first byte is not an exact match.
    FirstByteNotExact,
}

/// A byte pattern with named anchors (offsets into the pattern).
#[derive(Clone, Debug)]
pub struct Pattern {
    pub bytes: Vec<PatternByte>,
    pub anchors: Vec<(String, usize)>,
}

/// The value of a hexadecimal digit (`char::to_digit(16)`).
pub open spec fn hex_digit_value(c: char) -> Option<u8> {
    let u = c as u32;
    if 0x30 <= u <= 0x39 {
        Some((u - 0x30) as u8)
    } else if 0x61 <= u <= 0x66 {
        Some((u - 0x61 + 10) as u8)
    } else if 0x41 <= u <= 0x46 {
        Some((u - 0x41 + 10) as u8)
    } else {
        None
    }
}

/// The byte that two hexadecimal digits spell, high digit first.
pub open spec fn hex_pair_value(c1: char, c2: char) -> Option<u8> {
    match (hex_digit_value(c1), hex_digit_value(c2)) {
        (Some(d1), Some(d2)) => Some((d1 * 16 + d2) as u8),
        _ => None,
    }
}

fn hex_digit(c: char) -> (res: Option<u8>)
    ensures
        res == hex_digit_value(c),
{
    let u = c as u32;
    if 0x30 <= u && u <= 0x39 {
        Some((u - 0x30) as u8)
    } else if 0x61 <= u && u <= 0x66 {
        Some((u - 0x61 + 10) as u8)
    } else if 0x41 <= u && u <= 0x46 {
        Some((u - 0x41 + 10) as u8)
    } else {
        None
    }
}

/// Two hexadecimal digits as one byte, high digit first.
pub fn hex_to_u8(c1: char, c2: char) -> (res: Option<u8>)
    ensures
        res == hex_pair_value(c1, c2),
{
    let d1 = hex_digit(c1)?;
    let d2 = hex_digit(c2)?;
    Some(d1 * 16 + d2)
}

/// Characters that separate tokens.
pub open spec fn is_blank(c: char) -> bool {
    c == ' ' || c == '\t' || c == '\r' || c == '\n'
}

/// The position just after the line break that ends a comment whose body starts
/// at `j` (or the end of the text).
pub open spec fn comment_end(s: Seq<char>, j: int) -> int
    decreases s.len() - j,
{
    if j >= s.len() {
        s.len() as int
    } else if s[j] == '\r' || s[j] == '\n' {
        j + 1
    } else {
        comment_end(s, j + 1)
    }
}

/// The end of the run of alphanumeric characters that starts at `j`.
pub open spec fn alnum_run_end(s: Seq<char>, j: int) -> int
    decreases s.len() - j,
{
    if j >= s.len() {
        s.len() as int
    } else if is_word_char(s[j]) {
        alnum_run_end(s, j + 1)
    } else {
        j
    }
}

/// A comment ends within the text, after where it starts.
pub proof fn lemma_comment_end_bounds(s: Seq<char>, j: int)
    requires
        0 <= j <= s.len(),
    ensures
        j <= comment_end(s, j) <= s.len(),
        j < s.len() ==> j < comment_end(s, j),
    decreases s.len() - j,
{
    if j < s.len() && !(s[j] == '\r' || s[j] == '\n') {
        lemma_comment_end_bounds(s, j + 1);
    }
}

/// A run of alphanumeric characters ends within the text, holds only such
/// characters, and stops before one that is not.
pub proof fn lemma_alnum_run_end_bounds(s: Seq<char>, j: int)
    requires
        0 <= j <= s.len(),
    ensures
        j <= alnum_run_end(s, j) <= s.len(),
        forall|k: int| j <= k < alnum_run_end(s, j) ==> is_word_char(#[trigger] s[k]),
        alnum_run_end(s, j) < s.len() ==> !is_word_char(s[alnum_run_end(s, j)]),
    decreases s.len() - j,
{
    if j < s.len() && is_word_char(s[j]) {
        lemma_alnum_run_end_bounds(s, j + 1);
    }
}

/// Anchors as plain values: name characters and byte offset.
pub type AnchorsView = Seq<(Seq<char>, usize)>;

pub open spec fn anchors_view(anchors: Seq<(String, usize)>) -> AnchorsView {
    anchors.map_values(|a: (String, usize)| (a.0@, a.1))
}

pub open spec fn min_int(a: int, b: int) -> int {
    if a < b {
        a
    } else {
        b
    }
}

/// The outcome of reading a pattern's text once all tokens are read.
pub open spec fn finish_pattern(bytes: Seq<PatternByte>, anchors: AnchorsView) -> Result<
    (Seq<PatternByte>, AnchorsView),
    PatternError,
> {
    if bytes.len() == 0 {
        Err(PatternError::Empty)
    } else if bytes[0].mask != 0xFF {
        Err(PatternError::FirstByteNotExact)
    } else {
        Ok((bytes, anchors))
    }
}

/// Reading a pattern's text from position `i`, with the bytes and anchors read
/// so far. Tokens: blanks are skipped; `/` starts a comment up to and including
/// the next line break; `@name` records an anchor at the current byte offset
/// (the character that ends the name is consumed); any other character starts a
/// two-character byte token (`??` or two hex digits) whose following character
/// is consumed and must not be alphanumeric.
pub open spec fn parse_pattern_from(
    s: Seq<char>,
    i: int,
    bytes: Seq<PatternByte>,
    anchors: AnchorsView,
) -> Result<(Seq<PatternByte>, AnchorsView), PatternError>
    decreases s.len() - i,
{
    if i < 0 || i >= s.len() {
        finish_pattern(bytes, anchors)
    } else {
        let c = s[i];
        if is_blank(c) {
            parse_pattern_from(s, i + 1, bytes, anchors)
        } else if c == '/' {
            proof {
                lemma_comment_end_bounds(s, i + 1);
            }
            parse_pattern_from(s, comment_end(s, i + 1), bytes, anchors)
        } else if c == '@' {
            proof {
                lemma_alnum_run_end_bounds(s, i + 1);
            }
            let k = alnum_run_end(s, i + 1);
            let name = seq!['@'] + s.subrange(i + 1, k);
            let next = if k < s.len() {
                k + 1
            } else {
                s.len() as int
            };
            parse_pattern_from(s, next, bytes, anchors.push((name, bytes.len() as usize)))
        } else if i + 1 >= s.len() {
            Err(PatternError::ByteTooShort)
        } else if i + 2 < s.len() && is_word_char(s[i + 2]) {
            Err(PatternError::BytesNotSeparated)
        } else if c == '?' && s[i + 1] == '?' {
            parse_pattern_from(
                s,
                min_int(i + 3, s.len() as int),
                bytes.push(PatternByte { value: 0, mask: 0 }),
                anchors,
            )
        } else {
            match hex_pair_value(c, s[i + 1]) {
                None => Err(PatternError::InvalidHex(c, s[i + 1])),
                Some(v) => parse_pattern_from(
                    s,
                    min_int(i + 3, s.len() as int),
                    bytes.push(PatternByte { value: v, mask: 0xFF }),
                    anchors,
                ),
            }
        }
    }
}

/// The pattern that a text spells, or why it spells none.
pub open spec fn parse_pattern(s: Seq<char>) -> Result<(Seq<PatternByte>, AnchorsView), PatternError> {
    parse_pattern_from(s, 0, Seq::empty(), Seq::empty())
}

/// Every byte is an exact byte or a full wildcard `??`.
pub open spec fn bytes_exact_or_wildcard(bytes: Seq<PatternByte>) -> bool {
    forall|k: int|
        0 <= k < bytes.len() ==> (#[trigger] bytes[k] == PatternByte { value: 0, mask: 0 }
            || bytes[k].mask == 0xFF)
}

/// Every anchor name starts with `@`, and every anchor offset is at most
/// `limit`, in nondecreasing order.
pub open spec fn anchors_well_placed(anchors: AnchorsView, limit: int) -> bool {
    &&& forall|k: int|
        0 <= k < anchors.len() ==> (#[trigger] anchors[k]).0.len() >= 1 && anchors[k].0[0] == '@'
            && anchors[k].1 <= limit
    &&& forall|k: int, l: int| 0 <= k < l < anchors.len() ==> anchors[k].1 <= anchors[l].1
}

/// Whatever a text parses to has its first byte exact, only exact or wildcard
/// bytes, and anchors named `@...` at nondecreasing offsets within the pattern.
pub proof fn lemma_parse_pattern_from_shape(
    s: Seq<char>,
    i: int,
    bytes: Seq<PatternByte>,
    anchors: AnchorsView,
)
    requires
        bytes_exact_or_wildcard(bytes),
        anchors_well_placed(anchors, bytes.len() as int),
        s.len() <= usize::MAX,
        0 <= i,
        bytes.len() <= i,
    ensures
        parse_pattern_from(s, i, bytes, anchors) matches Ok((b, a)) ==> {
            &&& b.len() >= 1
            &&& b[0].mask == 0xFF
            &&& bytes_exact_or_wildcard(b)
            &&& anchors_well_placed(a, b.len() as int)
            &&& b.len() >= bytes.len()
        },
    decreases s.len() - i,
{
    if i < 0 || i >= s.len() {
    } else {
        let c = s[i];
        if is_blank(c) {
            lemma_parse_pattern_from_shape(s, i + 1, bytes, anchors);
        } else if c == '/' {
            lemma_comment_end_bounds(s, i + 1);
            lemma_parse_pattern_from_shape(s, comment_end(s, i + 1), bytes, anchors);
        } else if c == '@' {
            lemma_alnum_run_end_bounds(s, i + 1);
            let k = alnum_run_end(s, i + 1);
            let name = seq!['@'] + s.subrange(i + 1, k);
            let next = if k < s.len() {
                k + 1
            } else {
                s.len() as int
            };
            let a2 = anchors.push((name, bytes.len() as usize));
            assert(anchors_well_placed(a2, bytes.len() as int)) by {
                assert forall|k2: int| 0 <= k2 < a2.len() implies (#[trigger] a2[k2]).0.len() >= 1
                    && a2[k2].0[0] == '@' && a2[k2].1 <= bytes.len() by {
                    if k2 < anchors.len() {
                        assert(a2[k2] == anchors[k2]);
                    } else {
                        assert(a2[k2].0 == name);
                    }
                }
                assert forall|k2: int, l2: int| 0 <= k2 < l2 < a2.len() implies a2[k2].1
                    <= a2[l2].1 by {
                    if l2 < anchors.len() {
                        assert(a2[l2] == anchors[l2]);
                        assert(a2[k2] == anchors[k2]);
                    } else {
                        assert(a2[k2] == anchors[k2]);
                    }
                }
            }
            lemma_parse_pattern_from_shape(s, next, bytes, a2);
        } else if i + 1 >= s.len() {
        } else if i + 2 < s.len() && is_word_char(s[i + 2]) {
        } else {
            let wild = c == '?' && s[i + 1] == '?';
            if wild || hex_pair_value(c, s[i + 1]) is Some {
                let nb = if wild {
                    PatternByte { value: 0, mask: 0 }
                } else {
                    PatternByte { value: hex_pair_value(c, s[i + 1])->0, mask: 0xFF }
                };
                let b2 = bytes.push(nb);
                assert(bytes_exact_or_wildcard(b2)) by {
                    assert forall|k2: int| 0 <= k2 < b2.len() implies (#[trigger] b2[k2]
                        == PatternByte { value: 0, mask: 0 } || b2[k2].mask == 0xFF) by {
                        if k2 < bytes.len() {
                            assert(b2[k2] == bytes[k2]);
                        }
                    }
                }
                assert(anchors_well_placed(anchors, b2.len() as int));
                lemma_parse_pattern_from_shape(s, min_int(i + 3, s.len() as int), b2, anchors);
                if parse_pattern_from(s, i, bytes, anchors) is Ok && bytes.len() > 0 {
                    assert(b2[0] == bytes[0]);
                }
            }
        }
    }
}

/// Whether a memory byte matches a pattern byte.
pub open spec fn byte_matches(b: PatternByte, m: u8) -> bool {
    m & b.mask == b.value
}

/// Whether the pattern matches the start of `mem`; only as many bytes as both
/// hold are compared.
pub open spec fn prefix_matches(bytes: Seq<PatternByte>, mem: Seq<u8>) -> bool {
    forall|i: int|
        0 <= i < bytes.len() && i < mem.len() ==> byte_matches(#[trigger] bytes[i], mem[i])
}

/// Whether the whole pattern matches `mem` at offset `w`.
pub open spec fn window_matches(bytes: Seq<PatternByte>, mem: Seq<u8>, w: int) -> bool {
    &&& 0 <= w
    &&& w + bytes.len() <= mem.len()
    &&& forall|i: int| 0 <= i < bytes.len() ==> byte_matches(#[trigger] bytes[i], mem[w + i])
}

/// A window that a scan keyed on the first `k` bytes accepts: those bytes equal
/// the pattern's values, and the whole pattern matches.
pub open spec fn scan_candidate(bytes: Seq<PatternByte>, mem: Seq<u8>, w: int, k: int) -> bool {
    &&& window_matches(bytes, mem, w)
    &&& forall|j: int| 0 <= j < k ==> mem[w + j] == (#[trigger] bytes[j]).value
}

/// `res` is the first window that `scan_candidate` accepts, if there is one.
pub open spec fn is_first_candidate(
    bytes: Seq<PatternByte>,
    mem: Seq<u8>,
    k: int,
    res: Option<usize>,
) -> bool {
    match res {
        Some(w) => scan_candidate(bytes, mem, w as int, k) && forall|w2: int|
            0 <= w2 < w ==> !scan_candidate(bytes, mem, w2, k),
        None => forall|w2: int| !scan_candidate(bytes, mem, w2, k),
    }
}

/// `res` is the first offset at which the whole pattern matches, if any.
pub open spec fn is_first_match(bytes: Seq<PatternByte>, mem: Seq<u8>, res: Option<usize>) -> bool {
    is_first_candidate(bytes, mem, 0, res)
}

/// `res` is what a scan that offers `cb` the windows `scan_candidate` accepts
/// (keyed on `k` bytes), in address order until an answer `Some`, returns:
/// that window and answer, every earlier accepted window having been answered
/// `None`; or nothing, every accepted window having been answered `None`.
pub open spec fn offers_in_order<R, F: Fn(usize) -> Option<R>>(
    bytes: Seq<PatternByte>,
    mem: Seq<u8>,
    k: int,
    cb: F,
    res: Option<(usize, R)>,
) -> bool {
    match res {
        Some((w, r)) => {
            &&& scan_candidate(bytes, mem, w as int, k)
            &&& call_ensures(cb, (w,), Some(r))
            &&& forall|v: int|
                0 <= v < w && #[trigger] scan_candidate(bytes, mem, v, k) ==> call_ensures(cb, (v as usize,), None)
        },
        None => forall|v: int| #[trigger] scan_candidate(bytes, mem, v, k) ==> call_ensures(cb, (v as usize,), None),
    }
}

proof fn lemma_offers_same<R, F: Fn(usize) -> Option<R>>(
    bytes: Seq<PatternByte>,
    mem: Seq<u8>,
    k: int,
    cb: F,
    res: Option<(usize, R)>,
)
    requires
        offers_in_order(bytes, mem, k, cb, res),
        forall|w: int| scan_candidate(bytes, mem, w, k) == scan_candidate(bytes, mem, w, 0),
    ensures
        offers_in_order(bytes, mem, 0, cb, res),
{
    match res {
        Some((w, r)) => {
            assert(scan_candidate(bytes, mem, w as int, k));
            assert forall|v: int| 0 <= v < w && #[trigger] scan_candidate(bytes, mem, v, 0) implies call_ensures(
                cb,
                (v as usize,),
                None,
            ) by {
                assert(scan_candidate(bytes, mem, v, k));
            }
        },
        None => {
            assert forall|v: int| #[trigger] scan_candidate(bytes, mem, v, 0) implies call_ensures(
                cb,
                (v as usize,),
                None,
            ) by {
                assert(scan_candidate(bytes, mem, v, k));
            }
        },
    }
}

proof fn lemma_exact_byte(m: u8, v: u8)
    ensures
        (m & 0xFFu8 == v) == (m == v),
{
    assert(m & 0xFFu8 == m) by (bit_vector);
}

/// A scan keyed on `k` leading bytes whose masks are all exact accepts
/// exactly the windows that the whole pattern matches.
pub proof fn lemma_candidate_keyed_on_exact(bytes: Seq<PatternByte>, mem: Seq<u8>, k: int)
    requires
        0 <= k <= bytes.len(),
        forall|j: int| 0 <= j < k ==> (#[trigger] bytes[j]).mask == 0xFF,
    ensures
        forall|w: int| scan_candidate(bytes, mem, w, k) == scan_candidate(bytes, mem, w, 0),
{
    assert forall|w: int| scan_candidate(bytes, mem, w, k) == scan_candidate(bytes, mem, w, 0) by {
        if window_matches(bytes, mem, w) {
            assert forall|j: int| 0 <= j < k implies mem[w + j] == (#[trigger] bytes[j]).value by {
                assert(byte_matches(bytes[j], mem[w + j]));
                lemma_exact_byte(mem[w + j], bytes[j].value);
            }
        }
    }
}

impl Pattern {
    /// Reads a pattern from its text form.
    pub fn try_from(value: &str) -> (res: Result<Pattern, PatternError>)
        ensures
            match res {
                Ok(p) => parse_pattern(value@) == Ok::<(Seq<PatternByte>, AnchorsView), PatternError>((p.bytes@, anchors_view(p.anchors@))),
                Err(e) => parse_pattern(value@) == Err::<(Seq<PatternByte>, AnchorsView), PatternError>(e),
            },
            res matches Ok(p) ==> {
                &&& p.bytes@.len() >= 1
                &&& p.bytes@[0].mask == 0xFF
                &&& bytes_exact_or_wildcard(p.bytes@)
                &&& anchors_well_placed(anchors_view(p.anchors@), p.bytes@.len() as int)
            },
    {
        let s = chars_of(value);
        let n = s.len();
        let ghost sv = s@;
        let mut bytes: Vec<PatternByte> = Vec::new();
        let mut anchors: Vec<(String, usize)> = Vec::new();
        let mut i: usize = 0;
        proof {
            assert(anchors_view(anchors@) =~= Seq::<(Seq<char>, usize)>::empty());
            lemma_parse_pattern_from_shape(sv, 0, Seq::empty(), Seq::empty());
        }
        while i < n
            invariant
                n == sv.len(),
                sv == s@,
                sv == value@,
                i <= n,
                bytes@.len() <= i,
                parse_pattern(sv) == parse_pattern_from(
                    sv,
                    i as int,
                    bytes@,
                    anchors_view(anchors@),
                ),
            decreases n - i,
        {
            let c = s[i];
            if c == ' ' || c == '\t' || c == '\r' || c == '\n' {
                i = i + 1;
            } else if c == '/' {
                let mut j = i + 1;
                while j < n && s[j] != '\r' && s[j] != '\n'
                    invariant
                        n == sv.len(),
                        sv == s@,
                        i < j <= n,
                        comment_end(sv, i + 1) == comment_end(sv, j as int),
                    decreases n - j,
                {
                    j = j + 1;
                }
                i = if j < n {
                    j + 1
                } else {
                    n
                };
            } else if c == '@' {
                let mut name: Vec<char> = Vec::new();
                name.push('@');
                let mut j = i + 1;
                proof {
                    lemma_alnum_run_end_bounds(sv, i + 1);
                }
                while j < n && word_char(s[j])
                    invariant
                        n == sv.len(),
                        sv == s@,
                        i < j <= n,
                        alnum_run_end(sv, i + 1) == alnum_run_end(sv, j as int),
                        name@ == seq!['@'] + sv.subrange(i + 1, j as int),
                    decreases n - j,
                {
                    name.push(s[j]);
                    j = j + 1;
                    assert(name@ =~= seq!['@'] + sv.subrange(i + 1, j as int));
                }
                let ghost old_anchors = anchors@;
                let name_str = string_from_chars(name.as_slice());
                anchors.push((name_str, bytes.len()));
                proof {
                    assert(anchors_view(anchors@) =~= anchors_view(old_anchors).push(
                        (name@, bytes@.len() as usize),
                    ));
                }
                i = if j < n {
                    j + 1
                } else {
                    n
                };
            } else if i + 1 >= n {
                return Err(PatternError::ByteTooShort);
            } else if i + 2 < n && word_char(s[i + 2]) {
                return Err(PatternError::BytesNotSeparated);
            } else {
                let c2 = s[i + 1];
                if c == '?' && c2 == '?' {
                    bytes.push(PatternByte::new(0, 0));
                } else {
                    match hex_to_u8(c, c2) {
                        None => {
                            return Err(PatternError::InvalidHex(c, c2));
                        },
                        Some(v) => {
                            bytes.push(PatternByte::new(v, 0xFF));
                        },
                    }
                }
                i = if n - i > 3 {
                    i + 3
                } else {
                    n
                };
            }
        }
        if bytes.len() == 0 {
            return Err(PatternError::Empty);
        }
        if bytes[0].mask != 0xFF {
            return Err(PatternError::FirstByteNotExact);
        }
        Ok(Pattern { bytes, anchors })
    }

    /// Whether the pattern matches the start of `mem` (comparing as many bytes as
    /// both hold).
    pub fn match_pattern(&self, mem: &[u8]) -> (res: bool)
        ensures
            res == prefix_matches(self.bytes@, mem@),
    {
        let mut i: usize = 0;
        while i < self.bytes.len() && i < mem.len()
            invariant
                i <= self.bytes@.len(),
                forall|j: int|
                    0 <= j < i && j < mem@.len() ==> byte_matches(#[trigger] self.bytes@[j], mem@[j]),
            decreases self.bytes@.len() - i,
        {
            let b = self.bytes[i];
            if mem[i] & b.mask != b.value {
                return false;
            }
            i = i + 1;
        }
        true
    }

    /// Whether the whole pattern matches `mem` at offset `w`.
    fn matches_at(&self, mem: &[u8], w: usize) -> (res: bool)
        requires
            w + self.bytes@.len() <= mem@.len(),
        ensures
            res == window_matches(self.bytes@, mem@, w as int),
    {
        let n = self.bytes.len();
        let ml = mem.len();
        let mut i: usize = 0;
        while i < n
            invariant
                n == self.bytes@.len(),
                w + n <= mem@.len(),
                ml == mem@.len(),
                i <= n,
                forall|j: int| 0 <= j < i ==> byte_matches(#[trigger] self.bytes@[j], mem@[w + j]),
            decreases n - i,
        {
            let b = self.bytes[i];
            if mem[w + i] & b.mask != b.value {
                return false;
            }
            i = i + 1;
        }
        true
    }

    /// Offers `cb` each window whose first `k` bytes equal the pattern's values
    /// and that the whole pattern matches, in address order, until `cb`
    /// answers `Some`.
    fn scan_keyed_with<R, F: Fn(usize) -> Option<R>>(&self, mem: &[u8], k: usize, cb: F) -> (res: Option<(usize, R)>)
        requires
            1 <= k <= self.bytes@.len(),
            forall|w: usize| #[trigger] call_requires(cb, (w,)),
        ensures
            offers_in_order(self.bytes@, mem@, k as int, cb, res),
    {
        let n = self.bytes.len();
        if mem.len() < n {
            proof {
                assert forall|v: int| #[trigger] scan_candidate(self.bytes@, mem@, v, k as int) implies call_ensures(
                    cb,
                    (v as usize,),
                    None,
                ) by {
                    assert(!window_matches(self.bytes@, mem@, v));
                }
            }
            return None;
        }
        let last = mem.len() - n;
        let mut w: usize = 0;
        let ml = mem.len();
        while w <= last
            invariant
                n == self.bytes@.len(),
                1 <= k <= n,
                last + n == mem@.len(),
                ml == mem@.len(),
                forall|x: usize| #[trigger] call_requires(cb, (x,)),
                forall|v: int|
                    0 <= v < w && #[trigger] scan_candidate(self.bytes@, mem@, v, k as int) ==> call_ensures(
                        cb,
                        (v as usize,),
                        None,
                    ),
            decreases last + 1 - w,
        {
            let mut j: usize = 0;
            let mut keyed = true;
            while j < k
                invariant
                    n == self.bytes@.len(),
                    k <= n,
                    w <= last,
                    last + n == mem@.len(),
                    ml == mem@.len(),
                    j <= k,
                    keyed == forall|l: int| 0 <= l < j ==> mem@[w + l] == (#[trigger] self.bytes@[l]).value,
                decreases k - j,
            {
                if mem[w + j] != self.bytes[j].value {
                    keyed = false;
                }
                j = j + 1;
            }
            if keyed && self.matches_at(mem, w) {
                match cb(w) {
                    Some(r) => {
                        return Some((w, r));
                    },
                    None => {},
                }
            }
            w = w + 1;
        }
        proof {
            assert forall|v: int| #[trigger] scan_candidate(self.bytes@, mem@, v, k as int) implies call_ensures(
                cb,
                (v as usize,),
                None,
            ) by {
                if v > last {
                    assert(!window_matches(self.bytes@, mem@, v));
                }
            }
        }
        None
    }

    /// Every window where the whole pattern matches, in address order: the
    /// offsets that a scan offers its callback one after another.
    pub fn scan_all(&self, mem: &[u8]) -> (res: Vec<usize>)
        ensures
            forall|i: int| 0 <= i < res@.len() ==> window_matches(self.bytes@, mem@, #[trigger] res@[i] as int),
            forall|i: int, j: int| 0 <= i < j < res@.len() ==> #[trigger] res@[i] < #[trigger] res@[j],
            forall|w: int| #[trigger] window_matches(self.bytes@, mem@, w) ==> res@.contains(w as usize),
    {
        let n = self.bytes.len();
        let mut res: Vec<usize> = Vec::new();
        if mem.len() < n {
            return res;
        }
        let last = mem.len() - n;
        let mut w: usize = 0;
        while w <= last
            invariant_except_break
                forall|i: int| 0 <= i < res@.len() ==> #[trigger] res@[i] < w,
                forall|v: int| 0 <= v < w && #[trigger] window_matches(self.bytes@, mem@, v) ==> res@.contains(
                    v as usize,
                ),
            invariant
                n == self.bytes@.len(),
                last + n == mem@.len(),
                w <= last,
                forall|i: int| 0 <= i < res@.len() ==> window_matches(self.bytes@, mem@, #[trigger] res@[i] as int),
                forall|i: int, j: int| 0 <= i < j < res@.len() ==> #[trigger] res@[i] < #[trigger] res@[j],
            ensures
                forall|i: int| 0 <= i < res@.len() ==> window_matches(self.bytes@, mem@, #[trigger] res@[i] as int),
                forall|i: int, j: int| 0 <= i < j < res@.len() ==> #[trigger] res@[i] < #[trigger] res@[j],
                forall|v: int| 0 <= v <= last && #[trigger] window_matches(self.bytes@, mem@, v) ==> res@.contains(
                    v as usize,
                ),
            decreases last + 1 - w,
        {
            let ghost before = res@;
            let m = self.matches_at(mem, w);
            if m {
                res.push(w);
            }
            proof {
                assert forall|v: int| 0 <= v < w + 1 && #[trigger] window_matches(self.bytes@, mem@, v) implies res@.contains(
                    v as usize,
                ) by {
                    if v < w {
                        let k = choose|k: int| 0 <= k < before.len() && before[k] == v as usize;
                        assert(res@[k] == v as usize);
                    } else {
                        assert(res@[before.len() as int] == w);
                    }
                }
            }
            if w == last {
                break;
            }
            w = w + 1;
        }
        proof {
            assert forall|v: int| #[trigger] window_matches(self.bytes@, mem@, v) implies res@.contains(v as usize) by {
                assert(v <= last);
            }
        }
        res
    }

    /// Offers each window where the whole pattern matches to `cb`, in address
    /// order, until `cb` answers `Some`: returns that window and the answer.
    /// Every matching window before it was offered and answered `None`; where
    /// `cb` answers `None` throughout, every matching window was offered.
    pub fn scan_with<R, F: Fn(usize) -> Option<R>>(&self, mem: &[u8], cb: F) -> (res: Option<(usize, R)>)
        requires
            forall|w: usize| #[trigger] call_requires(cb, (w,)),
        ensures
            res matches Some((w, r)) ==> window_matches(self.bytes@, mem@, w as int) && call_ensures(
                cb,
                (w,),
                Some(r),
            ) && forall|v: int|
                0 <= v < w && #[trigger] window_matches(self.bytes@, mem@, v) ==> call_ensures(
                    cb,
                    (v as usize,),
                    None,
                ),
            res is None ==> forall|v: int| #[trigger] window_matches(self.bytes@, mem@, v) ==> call_ensures(
                cb,
                (v as usize,),
                None,
            ),
    {
        let n = self.bytes.len();
        if mem.len() < n {
            return None;
        }
        let last = mem.len() - n;
        let mut w: usize = 0;
        while w <= last
            invariant_except_break
                forall|v: int| 0 <= v < w && #[trigger] window_matches(self.bytes@, mem@, v) ==> call_ensures(
                    cb,
                    (v as usize,),
                    None,
                ),
            invariant
                n == self.bytes@.len(),
                last + n == mem@.len(),
                w <= last,
                forall|x: usize| #[trigger] call_requires(cb, (x,)),
            ensures
                forall|v: int| 0 <= v <= last && #[trigger] window_matches(self.bytes@, mem@, v) ==> call_ensures(
                    cb,
                    (v as usize,),
                    None,
                ),
            decreases last + 1 - w,
        {
            if self.matches_at(mem, w) {
                match cb(w) {
                    Some(r) => {
                        return Some((w, r));
                    },
                    None => {},
                }
            }
            if w == last {
                break;
            }
            w = w + 1;
        }
        proof {
            assert forall|v: int| #[trigger] window_matches(self.bytes@, mem@, v) implies call_ensures(
                cb,
                (v as usize,),
                None,
            ) by {
                assert(v <= last);
            }
        }
        None
    }

    /// Offers `cb` each window whose first byte equals the pattern's first value
    /// and that the whole pattern matches, in address order, until `cb` answers
    /// `Some`; returns that window and the answer.
    pub fn scan_prefix_1<R, F: Fn(usize) -> Option<R>>(&self, mem: &[u8], cb: F) -> (res: Option<(usize, R)>)
        requires
            self.bytes@.len() >= 1,
            forall|w: usize| #[trigger] call_requires(cb, (w,)),
        ensures
            offers_in_order(self.bytes@, mem@, 1, cb, res),
    {
        self.scan_keyed_with(mem, 1, cb)
    }

    /// As `scan_prefix_1`, keyed on the first two bytes.
    pub fn scan_prefix_2<R, F: Fn(usize) -> Option<R>>(&self, mem: &[u8], cb: F) -> (res: Option<(usize, R)>)
        requires
            self.bytes@.len() >= 2,
            forall|w: usize| #[trigger] call_requires(cb, (w,)),
        ensures
            offers_in_order(self.bytes@, mem@, 2, cb, res),
    {
        self.scan_keyed_with(mem, 2, cb)
    }

    /// As `scan_prefix_1`, keyed on the first four bytes.
    pub fn scan_prefix_4<R, F: Fn(usize) -> Option<R>>(&self, mem: &[u8], cb: F) -> (res: Option<(usize, R)>)
        requires
            self.bytes@.len() >= 4,
            forall|w: usize| #[trigger] call_requires(cb, (w,)),
        ensures
            offers_in_order(self.bytes@, mem@, 4, cb, res),
    {
        self.scan_keyed_with(mem, 4, cb)
    }

    /// Offers `cb` each window where the whole pattern matches, in address
    /// order, until `cb` answers `Some`; returns that window and the answer.
    /// The scan is keyed on as many exact leading bytes as the pattern has
    /// (four, two or one), which changes neither the windows offered nor their
    /// order.
    pub fn scan<R, F: Fn(usize) -> Option<R>>(&self, mem: &[u8], cb: F) -> (res: Option<(usize, R)>)
        requires
            self.bytes@.len() >= 1,
            self.bytes@[0].mask == 0xFF,
            forall|w: usize| #[trigger] call_requires(cb, (w,)),
        ensures
            offers_in_order(self.bytes@, mem@, 0, cb, res),
    {
        let n = self.bytes.len();
        let mut prefix_len: usize = 0;
        let mut i: usize = 0;
        let mut found = false;
        while i < n && !found
            invariant
                n == self.bytes@.len(),
                self.bytes@[0].mask == 0xFF,
                i <= n,
                !found ==> prefix_len == 0,
                !found ==> forall|j: int| 0 <= j < i ==> (#[trigger] self.bytes@[j]).mask == 0xFF,
                found ==> 1 <= prefix_len < n && self.bytes@[prefix_len as int].mask != 0xFF
                    && forall|j: int| 0 <= j < prefix_len ==> (#[trigger] self.bytes@[j]).mask == 0xFF,
            decreases n - i + (if found { 0int } else { 1int }),
        {
            if self.bytes[i].mask != 0xFF {
                prefix_len = i;
                found = true;
            } else {
                i = i + 1;
            }
        }
        proof {
            if found {
                assert(prefix_len >= 1);
            }
        }
        if prefix_len >= 4 {
            let res = self.scan_prefix_4(mem, cb);
            proof {
                lemma_candidate_keyed_on_exact(self.bytes@, mem@, 4);
                lemma_offers_same(self.bytes@, mem@, 4, cb, res);
            }
            res
        } else if prefix_len >= 2 {
            let res = self.scan_prefix_2(mem, cb);
            proof {
                lemma_candidate_keyed_on_exact(self.bytes@, mem@, 2);
                lemma_offers_same(self.bytes@, mem@, 2, cb, res);
            }
            res
        } else {
            let res = self.scan_prefix_1(mem, cb);
            proof {
                lemma_candidate_keyed_on_exact(self.bytes@, mem@, 1);
                lemma_offers_same(self.bytes@, mem@, 1, cb, res);
            }
            res
        }
    }

    /// The first anchor with the given name.
    pub fn find_anchor(&self, name: &str) -> (res: Option<&(String, usize)>)
        ensures
            match res {
                Some(a) => exists|k: int|
                    0 <= k < self.anchors@.len() && self.anchors@[k] == *a && a.0@ == name@
                        && forall|l: int| 0 <= l < k ==> (#[trigger] self.anchors@[l]).0@ != name@,
                None => forall|k: int|
                    0 <= k < self.anchors@.len() ==> (#[trigger] self.anchors@[k]).0@ != name@,
            },
    {
        let wanted = chars_of(name);
        let mut k: usize = 0;
        while k < self.anchors.len()
            invariant
                wanted@ == name@,
                k <= self.anchors@.len(),
                forall|l: int| 0 <= l < k ==> (#[trigger] self.anchors@[l]).0@ != name@,
            decreases self.anchors@.len() - k,
        {
            let a = &self.anchors[k];
            let have = chars_of(a.0.as_str());
            if chars_eq(have.as_slice(), wanted.as_slice()) {
                return Some(a);
            }
            k = k + 1;
        }
        None
    }
}

} // verus!
