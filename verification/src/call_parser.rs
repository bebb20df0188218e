//! The console's function-call syntax: `Name(value, ...)`, where a value is
//! an integer, a floating-point number, a string or `None`, written as Rust
//! literals.
//!
//! Literals of other kinds (characters, byte strings, booleans) are refused.
use vstd::prelude::*;
use crate::text::{chars_of, is_white_space, push_text, string_from_chars, white_space};
use crate::input::char_from_u32;

verus! {

/// A value written in a call.
#[derive(Debug)]
pub enum ParsedValue {
    /// `None`.
    Nil,
    Int(i64),
    /// A floating-point literal, by its digits as `f32` parsing reads them
    /// (underscores and suffix removed, exponent marker in lower case).
    Float(String),
    /// A string literal, escapes resolved.
    Text(String),
}

/// A call written at the console.
#[derive(Debug)]
pub struct ParsedCall {
    pub ident: String,
    pub args: Vec<ParsedValue>,
}

/// A value as the grammar reads it.
pub enum ValueSpec {
    Nil,
    Int(int),
    Float(Seq<char>),
    Text(Seq<char>),
}

/// `v` is the value `w`.
pub open spec fn value_is(v: ParsedValue, w: ValueSpec) -> bool {
    match w {
        ValueSpec::Nil => v is Nil,
        ValueSpec::Int(n) => v matches ParsedValue::Int(x) && x == n,
        ValueSpec::Float(t) => v matches ParsedValue::Float(x) && x@ == t,
        ValueSpec::Text(t) => v matches ParsedValue::Text(x) && x@ == t,
    }
}

/// White space between tokens: Unicode white space and the two directional
/// marks.
pub open spec fn is_ws(c: char) -> bool {
    is_white_space(c) || c == '\u{200E}' || c == '\u{200F}'
}

/// Whether `lit` stands at position `i` of `s`.
pub open spec fn starts(s: Seq<char>, i: int, lit: Seq<char>) -> bool {
    0 <= i && i + lit.len() <= s.len() && s.subrange(i, i + lit.len()) == lit
}

/// The position of the first line feed from `j` on, or the end.
pub open spec fn line_end(s: Seq<char>, j: int) -> int
    decreases s.len() - j,
{
    if 0 <= j < s.len() && s[j] != '\n' {
        line_end(s, j + 1)
    } else {
        j
    }
}

/// The end of the block comment whose `/*` opened `depth` levels before
/// position `i`: comments nest.
pub open spec fn block_end(s: Seq<char>, i: int, depth: nat) -> Option<int>
    decreases s.len() - i,
{
    if !(0 <= i && i + 1 < s.len()) {
        None
    } else if s[i] == '/' && s[i + 1] == '*' {
        block_end(s, i + 2, depth + 1)
    } else if s[i] == '*' && s[i + 1] == '/' {
        if depth <= 1 {
            Some(i + 2)
        } else {
            block_end(s, i + 2, (depth - 1) as nat)
        }
    } else {
        block_end(s, i + 1, depth)
    }
}

/// The end of the comment that starts at `i`, if one does: `//` to the end of
/// the line and `/* */` blocks, but not documentation comments (`///`, `//!`,
/// `/**`, `/*!`), which are not white space.
pub open spec fn comment_end(s: Seq<char>, i: int) -> Option<int> {
    if starts(s, i, "//"@) && (!starts(s, i, "///"@) || starts(s, i, "////"@)) && !starts(s, i, "//!"@) {
        Some(line_end(s, i + 2))
    } else if starts(s, i, "/**/"@) {
        Some(i + 4)
    } else if starts(s, i, "/*"@) && (!starts(s, i, "/**"@) || starts(s, i, "/***"@)) && !starts(
        s,
        i,
        "/*!"@,
    ) {
        block_end(s, i, 0)
    } else {
        None
    }
}

/// The first position from `i` on that is neither white space nor in a
/// comment.
pub open spec fn skip_ws(s: Seq<char>, i: int) -> int
    decreases s.len() - i,
{
    if 0 <= i < s.len() && is_ws(s[i]) {
        skip_ws(s, i + 1)
    } else {
        match comment_end(s, i) {
            Some(e) => if i < e <= s.len() {
                skip_ws(s, e)
            } else {
                i
            },
            None => i,
        }
    }
}

/// Whether a character has the Unicode property XID_Start, as
/// `unicode_ident::is_xid_start` reads it.
pub uninterp spec fn xid_start(c: char) -> bool;

/// Whether a character has the Unicode property XID_Continue, as
/// `unicode_ident::is_xid_continue` reads it.
pub uninterp spec fn xid_continue(c: char) -> bool;

/// `unicode_ident::is_xid_start`: whether the character has the Unicode
/// property XID_Start. Its result is named by `xid_start`; among ASCII
/// characters the letters have it.
#[verifier::external_body]
fn is_xid_start(c: char) -> (res: bool)
    ensures
        res == xid_start(c),
        (c as u32) < 128 ==> (res <==> (('a' <= c && c <= 'z') || ('A' <= c && c <= 'Z'))),
{
    unicode_ident::is_xid_start(c)
}

/// `unicode_ident::is_xid_continue`: whether the character has the Unicode
/// property XID_Continue. Its result is named by `xid_continue`; among ASCII
/// characters the letters, the digits and `_` have it.
#[verifier::external_body]
fn is_xid_continue(c: char) -> (res: bool)
    ensures
        res == xid_continue(c),
        (c as u32) < 128 ==> (res <==> (('a' <= c && c <= 'z') || ('A' <= c && c <= 'Z') || ('0' <= c && c
            <= '9') || c == '_')),
{
    unicode_ident::is_xid_continue(c)
}

/// An identifier starts with `_` or a character with XID_Start.
pub open spec fn is_ident_start(c: char) -> bool {
    c == '_' || xid_start(c)
}

/// An identifier goes on with characters with XID_Continue.
pub open spec fn is_ident_continue(c: char) -> bool {
    xid_continue(c)
}

/// The end of the run of identifier characters from `i`.
pub open spec fn ident_end(s: Seq<char>, i: int) -> int
    decreases s.len() - i,
{
    if 0 <= i < s.len() && is_ident_continue(s[i]) {
        ident_end(s, i + 1)
    } else {
        i
    }
}

/// The words that cannot name a function: `_` and Rust's keywords.
pub open spec fn is_reserved(w: Seq<char>) -> bool {
    ||| w == "_"@ || w == "abstract"@ || w == "as"@ || w == "async"@ || w == "await"@
    ||| w == "become"@ || w == "box"@ || w == "break"@ || w == "const"@ || w == "continue"@
    ||| w == "crate"@ || w == "do"@ || w == "dyn"@ || w == "else"@ || w == "enum"@
    ||| w == seq!['e', 'x', 't', 'e', 'r', 'n'] || w == "false"@ || w == "final"@ || w == "fn"@
    ||| w == "for"@ || w == "if"@ || w == "impl"@ || w == "in"@ || w == "let"@ || w == "loop"@
    ||| w == "macro"@ || w == "match"@ || w == "mod"@ || w == "move"@ || w == "mut"@
    ||| w == "override"@ || w == "priv"@ || w == "pub"@ || w == "ref"@ || w == "return"@
    ||| w == "Self"@ || w == "self"@ || w == "static"@ || w == "struct"@ || w == "super"@
    ||| w == "trait"@ || w == "true"@ || w == "try"@ || w == "type"@ || w == "typeof"@
    ||| w == "unsafe"@ || w == "unsized"@ || w == "use"@ || w == "virtual"@ || w == "where"@
    ||| w == "while"@ || w == "yield"@
}

/// The value of a digit in the given radix.
pub open spec fn digit_value(c: char, radix: int) -> Option<int> {
    let v = if '0' <= c && c <= '9' {
        c as int - 48
    } else if 'a' <= c && c <= 'f' {
        c as int - 87
    } else if 'A' <= c && c <= 'F' {
        c as int - 55
    } else {
        99
    };
    if v < radix {
        Some(v)
    } else {
        None
    }
}

/// The end of the run of digits of the radix and underscores from `i`.
pub open spec fn run_end(s: Seq<char>, i: int, radix: int) -> int
    decreases s.len() - i,
{
    if 0 <= i < s.len() && (s[i] == '_' || digit_value(s[i], radix) is Some) {
        run_end(s, i + 1, radix)
    } else {
        i
    }
}

/// The number that the digits of `s[i..j]` spell, underscores ignored.
pub open spec fn run_value(s: Seq<char>, i: int, j: int, radix: int) -> int
    decreases j - i,
{
    if j <= i {
        0
    } else if s[j - 1] == '_' {
        run_value(s, i, j - 1, radix)
    } else {
        run_value(s, i, j - 1, radix) * radix + digit_value(s[j - 1], radix)->0
    }
}

/// Whether `s[i..j]` holds a digit.
pub open spec fn run_has_digit(s: Seq<char>, i: int, j: int) -> bool {
    exists|k: int| i <= k < j && s[k] != '_'
}

/// The characters of `s[i..j]` without underscores.
pub open spec fn without_underscores(s: Seq<char>, i: int, j: int) -> Seq<char>
    decreases j - i,
{
    if j <= i {
        Seq::empty()
    } else if s[j - 1] == '_' {
        without_underscores(s, i, j - 1)
    } else {
        without_underscores(s, i, j - 1).push(s[j - 1])
    }
}

/// The end of a literal's suffix (an identifier) starting at `p`.
pub open spec fn suffix_end(s: Seq<char>, p: int) -> int {
    if 0 <= p < s.len() && is_ident_start(s[p]) {
        ident_end(s, p)
    } else {
        p
    }
}

/// Whether an exponent (`e` or `E`, an optional sign, digits with underscores)
/// starts at `p`; its end.
pub open spec fn exponent_end(s: Seq<char>, p: int) -> Option<int> {
    if 0 <= p < s.len() && (s[p] == 'e' || s[p] == 'E') {
        let q = if p + 1 < s.len() && (s[p + 1] == '+' || s[p + 1] == '-') {
            p + 2
        } else {
            p + 1
        };
        let r = run_end(s, q, 10);
        if run_has_digit(s, q, r) {
            Some(r)
        } else {
            None
        }
    } else {
        None
    }
}

/// The digits of a floating-point literal `s[i..j]` as `f32` parsing reads
/// them: underscores and an exponent's plus sign dropped, the exponent marker
/// in lower case.
pub open spec fn float_text(s: Seq<char>, i: int, j: int) -> Seq<char>
    decreases j - i,
{
    if j <= i {
        Seq::empty()
    } else if s[j - 1] == '_' || s[j - 1] == '+' {
        float_text(s, i, j - 1)
    } else if s[j - 1] == 'E' {
        float_text(s, i, j - 1).push('e')
    } else {
        float_text(s, i, j - 1).push(s[j - 1])
    }
}

/// The radix a number literal at `i` is written in: 16, 8 or 2 after a `0x`,
/// `0o` or `0b` prefix, otherwise 10.
pub open spec fn radix_at(s: Seq<char>, i: int) -> int {
    if i + 1 < s.len() && s[i] == '0' && s[i + 1] == 'x' {
        16
    } else if i + 1 < s.len() && s[i] == '0' && s[i + 1] == 'o' {
        8
    } else if i + 1 < s.len() && s[i] == '0' && s[i + 1] == 'b' {
        2
    } else {
        10
    }
}

/// The largest magnitude that an integer value can have: `i64::MAX`, or
/// `2^63` after a minus sign.
pub open spec fn magnitude_limit(negative: bool) -> int {
    if negative {
        0x8000_0000_0000_0000
    } else {
        i64::MAX as int
    }
}

/// `v` with the sign.
pub open spec fn signed(v: int, negative: bool) -> int {
    if negative {
        -v
    } else {
        v
    }
}

/// The text `t` with the sign.
pub open spec fn signed_text(t: Seq<char>, negative: bool) -> Seq<char> {
    if negative {
        seq!['-'] + t
    } else {
        t
    }
}

/// An integer with a radix prefix at `i`, negated after a minus sign: at
/// least one digit after the prefix, a magnitude within the limit, an
/// optional suffix.
pub open spec fn prefixed_number(s: Seq<char>, i: int, radix: int, negative: bool) -> Option<(ValueSpec, int)> {
    let r = run_end(s, i + 2, radix);
    let v = run_value(s, i + 2, r, radix);
    if run_has_digit(s, i + 2, r) && v <= magnitude_limit(negative) {
        Some((ValueSpec::Int(signed(v, negative)), suffix_end(s, r)))
    } else {
        None
    }
}

/// A decimal number at `i`, negated after a minus sign: a floating-point
/// number when its digits are followed by a `.` (not before another `.` or an
/// identifier) or by an exponent, otherwise an integer with a magnitude within
/// the limit; an optional suffix.
pub open spec fn decimal_number(s: Seq<char>, i: int, negative: bool) -> Option<(ValueSpec, int)> {
    let d = run_end(s, i, 10);
    let dot_float = d < s.len() && s[d] == '.' && !(d + 1 < s.len() && (s[d + 1] == '.' || is_ident_start(
        s[d + 1],
    )));
    if dot_float {
        let f = run_end(s, d + 1, 10);
        let e = match exponent_end(s, f) {
            Some(x) => x,
            None => f,
        };
        Some((ValueSpec::Float(signed_text(float_text(s, i, e), negative)), suffix_end(s, e)))
    } else if exponent_end(s, d) is Some {
        let e = exponent_end(s, d)->0;
        Some((ValueSpec::Float(signed_text(float_text(s, i, e), negative)), suffix_end(s, e)))
    } else {
        let v = run_value(s, i, d, 10);
        if v <= magnitude_limit(negative) {
            Some((ValueSpec::Int(signed(v, negative)), suffix_end(s, d)))
        } else {
            None
        }
    }
}

/// A number literal at `i` (which holds a digit), negated after a minus
/// sign.
pub open spec fn number_at(s: Seq<char>, i: int, negative: bool) -> Option<(ValueSpec, int)> {
    let radix = radix_at(s, i);
    if radix != 10 {
        prefixed_number(s, i, radix, negative)
    } else {
        decimal_number(s, i, negative)
    }
}

/// The value of a hexadecimal digit.
pub open spec fn hex_value(c: char) -> Option<int> {
    digit_value(c, 16)
}

/// The rest of a `\u{...}` escape from `i`, with the digits so far giving
/// `value` and counting `len`: up to six hexadecimal digits, underscores after
/// the first, then `}`; the code must be a character's.
pub open spec fn unicode_escape(s: Seq<char>, i: int, value: int, len: int) -> Option<(char, int)>
    decreases s.len() - i,
{
    if !(0 <= i < s.len()) {
        None
    } else if s[i] == '}' && len > 0 {
        if (0 <= value < 0xD800) || (0xE000 <= value <= 0x10FFFF) {
            Some((value as char, i + 1))
        } else {
            None
        }
    } else if s[i] == '_' && len > 0 {
        unicode_escape(s, i + 1, value, len)
    } else if hex_value(s[i]) is Some && len < 6 {
        unicode_escape(s, i + 1, value * 16 + hex_value(s[i])->0, len + 1)
    } else {
        None
    }
}

/// The end of the white space (spaces, tabs, line breaks) from `i`.
pub open spec fn continuation_end(s: Seq<char>, i: int) -> int
    decreases s.len() - i,
{
    if 0 <= i < s.len() && (s[i] == ' ' || s[i] == '\t' || s[i] == '\n' || s[i] == '\r') {
        continuation_end(s, i + 1)
    } else {
        i
    }
}

/// The rest of a string literal from `i`, the text so far being `acc`: escapes
/// `\n \r \t \\ \' \" \0`, `\x` with two hexadecimal digits up to `7F`,
/// `\u{...}`, and a backslash before a line break skipping the white space
/// that follows; a carriage return must be followed by a line feed, and the
/// pair reads as a line feed. Then the literal's end and optional suffix.
pub open spec fn string_rest(s: Seq<char>, i: int, acc: Seq<char>) -> Option<(Seq<char>, int)>
    decreases s.len() - i,
{
    if !(0 <= i < s.len()) {
        None
    } else if s[i] == '"' {
        Some((acc, suffix_end(s, i + 1)))
    } else if s[i] == '\r' {
        if i + 1 < s.len() && s[i + 1] == '\n' {
            string_rest(s, i + 2, acc.push('\n'))
        } else {
            None
        }
    } else if s[i] == '\\' {
        if i + 1 >= s.len() {
            None
        } else {
            let e = s[i + 1];
            if e == 'n' {
                string_rest(s, i + 2, acc.push('\n'))
            } else if e == 'r' {
                string_rest(s, i + 2, acc.push('\r'))
            } else if e == 't' {
                string_rest(s, i + 2, acc.push('\t'))
            } else if e == '\\' || e == '\'' || e == '"' {
                string_rest(s, i + 2, acc.push(e))
            } else if e == '0' {
                string_rest(s, i + 2, acc.push('\0'))
            } else if e == 'x' {
                if i + 3 < s.len() && '0' <= s[i + 2] && s[i + 2] <= '7' && hex_value(s[i + 3]) is Some {
                    let v = (s[i + 2] as int - 48) * 16 + hex_value(s[i + 3])->0;
                    string_rest(s, i + 4, acc.push(v as char))
                } else {
                    None
                }
            } else if e == 'u' {
                if i + 2 < s.len() && s[i + 2] == '{' {
                    match unicode_escape(s, i + 3, 0, 0) {
                        Some((c, j)) => if i < j <= s.len() {
                            string_rest(s, j, acc.push(c))
                        } else {
                            None
                        },
                        None => None,
                    }
                } else {
                    None
                }
            } else if e == '\n' {
                let c = continuation_end(s, i + 2);
                if i < c <= s.len() {
                    string_rest(s, c, acc)
                } else {
                    None
                }
            } else if e == '\r' {
                let c = continuation_end(s, i + 3);
                if i + 2 < s.len() && s[i + 2] == '\n' && i < c <= s.len() {
                    string_rest(s, c, acc)
                } else {
                    None
                }
            } else {
                None
            }
        }
    } else {
        string_rest(s, i + 1, acc.push(s[i]))
    }
}

/// The end of the run of `#` from `j`.
pub open spec fn hash_end(s: Seq<char>, j: int) -> int
    decreases s.len() - j,
{
    if 0 <= j < s.len() && s[j] == '#' {
        hash_end(s, j + 1)
    } else {
        j
    }
}

/// Whether `h` `#` stand at `j`.
pub open spec fn hashes_at(s: Seq<char>, j: int, h: int) -> bool {
    0 <= j && j + h <= s.len() && forall|k: int| j <= k < j + h ==> s[k] == '#'
}

/// The position of the `"` that closes a raw string whose content starts at
/// or before `i`: the first `"` followed by `h` `#`; a carriage return must be
/// followed by a line feed.
pub open spec fn raw_close(s: Seq<char>, i: int, h: int) -> Option<int>
    decreases s.len() - i,
{
    if !(0 <= i < s.len()) {
        None
    } else if s[i] == '"' && hashes_at(s, i + 1, h) {
        Some(i)
    } else if s[i] == '\r' {
        if i + 1 < s.len() && s[i + 1] == '\n' {
            raw_close(s, i + 2, h)
        } else {
            None
        }
    } else {
        raw_close(s, i + 1, h)
    }
}

/// A raw string at `i` (which holds `r`): `r`, up to 255 `#`, `"`, the
/// content taken as it stands, `"`, as many `#`, an optional suffix.
pub open spec fn raw_string_at(s: Seq<char>, i: int) -> Option<(Seq<char>, int)> {
    let d = hash_end(s, i + 1);
    let h = d - (i + 1);
    if d < s.len() && s[d] == '"' && h <= 255 {
        match raw_close(s, d + 1, h) {
            Some(q) => Some((s.subrange(d + 1, q), suffix_end(s, q + 1 + h))),
            None => None,
        }
    } else {
        None
    }
}

/// The value written at `i` and where it ends.
pub open spec fn value_at(s: Seq<char>, i: int) -> Option<(ValueSpec, int)> {
    if !(0 <= i < s.len()) {
        None
    } else if s[i] == 'r' {
        match raw_string_at(s, i) {
            Some((t, j)) => if t.contains('\0') {
                None
            } else {
                Some((ValueSpec::Text(t), j))
            },
            None => None,
        }
    } else if is_ident_start(s[i]) {
        let j = ident_end(s, i);
        if s.subrange(i, j) == "None"@ {
            Some((ValueSpec::Nil, j))
        } else {
            None
        }
    } else if '0' <= s[i] && s[i] <= '9' {
        number_at(s, i, false)
    } else if s[i] == '-' {
        let k = skip_ws(s, i + 1);
        if 0 <= k < s.len() && '0' <= s[k] && s[k] <= '9' {
            number_at(s, k, true)
        } else {
            None
        }
    } else if s[i] == '"' {
        match string_rest(s, i + 1, Seq::empty()) {
            Some((t, j)) => if t.contains('\0') {
                None
            } else {
                Some((ValueSpec::Text(t), j))
            },
            None => None,
        }
    } else {
        None
    }
}

/// The arguments from `i` on, after `acc`: values separated by commas, an
/// optional trailing comma, up to the closing parenthesis (whose position is
/// given).
pub open spec fn args_from(s: Seq<char>, i: int, acc: Seq<ValueSpec>) -> Option<(Seq<ValueSpec>, int)>
    decreases s.len() - i,
{
    let k = skip_ws(s, i);
    if k < s.len() && k >= 0 && s[k] == ')' {
        Some((acc, k))
    } else {
        match value_at(s, k) {
            None => None,
            Some((v, j)) => {
                let m = skip_ws(s, j);
                if m < i || m >= s.len() {
                    None
                } else if s[m] == ',' {
                    args_from(s, m + 1, acc.push(v))
                } else if s[m] == ')' {
                    Some((acc.push(v), m))
                } else {
                    None
                }
            },
        }
    }
}

/// The words that a raw identifier (`r#` and a word) cannot be.
pub open spec fn is_raw_refused(w: Seq<char>) -> bool {
    w == "_"@ || w == "super"@ || w == "self"@ || w == "Self"@ || w == "crate"@
}

/// Whether a raw identifier starts at `i`: `r#` and an identifier's first
/// character.
pub open spec fn raw_ident_at(s: Seq<char>, i: int) -> bool {
    starts(s, i, "r#"@) && i + 2 < s.len() && is_ident_start(s[i + 2])
}

/// A call: a name (a word that is not reserved, or a raw identifier, which is
/// kept with its `r#`), `(`, the arguments, `)`, with white space around the
/// tokens.
pub open spec fn call_spec(s: Seq<char>) -> Option<(Seq<char>, Seq<ValueSpec>)> {
    let i = skip_ws(s, 0);
    if !(i < s.len() && is_ident_start(s[i])) {
        None
    } else {
        let raw = raw_ident_at(s, i);
        let j = if raw {
            ident_end(s, i + 2)
        } else {
            ident_end(s, i)
        };
        let name = s.subrange(i, j);
        let refused = if raw {
            is_raw_refused(s.subrange(i + 2, j))
        } else {
            is_reserved(name)
        };
        let k = skip_ws(s, j);
        if refused || !(k < s.len() && s[k] == '(') || starts(s, k, "(/*ERROR*/)"@) {
            None
        } else {
            match args_from(s, k + 1, Seq::empty()) {
                None => None,
                Some((args, m)) => if skip_ws(s, m + 1) == s.len() {
                    Some((name, args))
                } else {
                    None
                },
            }
        }
    }
}

/// Why a console line is not a call, as values.
pub enum SyntaxReason {
    /// A word that is not `None` stands where a value should.
    UnknownArgumentType(Seq<char>),
    /// A literal of a kind that calls do not take, by its description.
    UnexpectedLiteral(Seq<char>),
    /// An integer above `i64::MAX`.
    NumberTooLarge,
    /// An integer below `i64::MIN`.
    NumberTooSmall,
    /// Anything else that does not follow the call syntax.
    Malformed,
}

/// The message the console shows for a line that is not a call.
pub open spec fn reason_text(r: SyntaxReason) -> Seq<char> {
    match r {
        SyntaxReason::UnknownArgumentType(w) => "unknown Osiris argument type '"@ + w + "'"@,
        SyntaxReason::UnexpectedLiteral(d) => "unexpected literal '"@ + d + "'"@,
        SyntaxReason::NumberTooLarge => "number too large to fit in target type"@,
        SyntaxReason::NumberTooSmall => "number too small to fit in target type"@,
        SyntaxReason::Malformed => "expected a function call: Name(value, ...)"@,
    }
}

/// Where a quoted literal whose body starts at `j` ends (just past its closing
/// quote `q`), a backslash taking the next character with it.
pub open spec fn quoted_end(s: Seq<char>, j: int, q: char) -> Option<int>
    decreases s.len() - j,
{
    if !(0 <= j < s.len()) {
        None
    } else if s[j] == '\\' {
        if j + 1 >= s.len() {
            None
        } else {
            quoted_end(s, j + 2, q)
        }
    } else if s[j] == q {
        Some(j + 1)
    } else {
        quoted_end(s, j + 1, q)
    }
}

/// How a literal of the given kind and source text is described.
pub open spec fn lit_description(kind: Seq<char>, token: Seq<char>) -> Seq<char> {
    "Lit::"@ + kind + " { token: "@ + token + " }"@
}

/// A quoted literal of a kind that calls refuse, written from `i` with its
/// opening quote at `q_at`: a character or byte literal holds one character
/// or an escape.
pub open spec fn refused_quoted(s: Seq<char>, i: int, q_at: int, kind: Seq<char>) -> SyntaxReason {
    match quoted_end(s, q_at + 1, s[q_at]) {
        Some(e) => if s[q_at] == '\'' && !(e == q_at + 3 || s[q_at + 1] == '\\') {
            SyntaxReason::Malformed
        } else {
            SyntaxReason::UnexpectedLiteral(lit_description(kind, s.subrange(i, e)))
        },
        None => SyntaxReason::Malformed,
    }
}

/// Why the number literal at `i` is refused: beyond the integer range, unless
/// a radix prefix has no digit after it.
pub open spec fn number_refusal(s: Seq<char>, i: int, negative: bool) -> SyntaxReason {
    let radix = radix_at(s, i);
    if radix != 10 && !run_has_digit(s, i + 2, run_end(s, i + 2, radix)) {
        SyntaxReason::Malformed
    } else if negative {
        SyntaxReason::NumberTooSmall
    } else {
        SyntaxReason::NumberTooLarge
    }
}

/// Why no value can be read at `i`.
pub open spec fn value_refusal(s: Seq<char>, i: int) -> SyntaxReason {
    if !(0 <= i < s.len()) {
        SyntaxReason::Malformed
    } else if s[i] == 'r' && (starts(s, i, "r\""@) || starts(s, i, "r#"@)) && !raw_ident_at(s, i) {
        SyntaxReason::Malformed
    } else if raw_ident_at(s, i) {
        let j = ident_end(s, i + 2);
        if is_raw_refused(s.subrange(i + 2, j)) {
            SyntaxReason::Malformed
        } else {
            SyntaxReason::UnknownArgumentType(s.subrange(i, j))
        }
    } else if is_ident_start(s[i]) {
        let j = ident_end(s, i);
        let w = s.subrange(i, j);
        if w == "true"@ {
            SyntaxReason::UnexpectedLiteral("Lit::Bool { value: true }"@)
        } else if w == "false"@ {
            SyntaxReason::UnexpectedLiteral("Lit::Bool { value: false }"@)
        } else if j < s.len() && w == "b"@ && s[j] == '\'' {
            refused_quoted(s, i, j, "Byte"@)
        } else if j < s.len() && w == "b"@ && s[j] == '"' {
            refused_quoted(s, i, j, "ByteStr"@)
        } else if j < s.len() && w == "c"@ && s[j] == '"' {
            refused_quoted(s, i, j, "CStr"@)
        } else if j < s.len() && (w == "br"@ || w == "cr"@) && (s[j] == '"' || s[j] == '#') {
            SyntaxReason::Malformed
        } else if is_reserved(w) {
            SyntaxReason::Malformed
        } else {
            SyntaxReason::UnknownArgumentType(w)
        }
    } else if s[i] == '\'' {
        refused_quoted(s, i, i, "Char"@)
    } else if '0' <= s[i] && s[i] <= '9' {
        number_refusal(s, i, false)
    } else if s[i] == '-' {
        let k = skip_ws(s, i + 1);
        if 0 <= k < s.len() && '0' <= s[k] && s[k] <= '9' {
            number_refusal(s, k, true)
        } else {
            SyntaxReason::Malformed
        }
    } else {
        SyntaxReason::Malformed
    }
}

/// Why the arguments from `i` on cannot be read: the reason of the first value
/// that cannot be read, or a malformed list.
pub open spec fn args_refusal(s: Seq<char>, i: int) -> SyntaxReason
    decreases s.len() - i,
{
    let k = skip_ws(s, i);
    if k < s.len() && k >= 0 && s[k] == ')' {
        SyntaxReason::Malformed
    } else {
        match value_at(s, k) {
            None => value_refusal(s, k),
            Some((v, j)) => {
                let m = skip_ws(s, j);
                if m < i || m >= s.len() {
                    SyntaxReason::Malformed
                } else if s[m] == ',' {
                    args_refusal(s, m + 1)
                } else {
                    SyntaxReason::Malformed
                }
            },
        }
    }
}

/// Why a line is not a call: where its name and opening parenthesis are in
/// place, the reason its arguments cannot be read; otherwise malformed.
pub open spec fn call_refusal(s: Seq<char>) -> SyntaxReason {
    let i = skip_ws(s, 0);
    if !(i < s.len() && is_ident_start(s[i])) {
        SyntaxReason::Malformed
    } else {
        let raw = raw_ident_at(s, i);
        let j = if raw {
            ident_end(s, i + 2)
        } else {
            ident_end(s, i)
        };
        let refused = if raw {
            is_raw_refused(s.subrange(i + 2, j))
        } else {
            is_reserved(s.subrange(i, j))
        };
        let k = skip_ws(s, j);
        if refused || !(k < s.len() && s[k] == '(') || starts(s, k, "(/*ERROR*/)"@) {
            SyntaxReason::Malformed
        } else if args_from(s, k + 1, Seq::empty()) is None {
            args_refusal(s, k + 1)
        } else {
            SyntaxReason::Malformed
        }
    }
}

fn starts_exec(s: &[char], i: usize, lit: &str) -> (res: bool)
    requires
        i <= s@.len(),
    ensures
        res == starts(s@, i as int, lit@),
{
    let l = chars_of(lit);
    if s.len() - i < l.len() {
        return false;
    }
    let window = s.split_at(i).1.split_at(l.len()).0;
    assert(window@ =~= s@.subrange(i as int, i + l@.len()));
    crate::text::chars_eq(window, l.as_slice())
}

fn line_end_exec(s: &[char], j: usize) -> (res: usize)
    requires
        j <= s@.len(),
    ensures
        res == line_end(s@, j as int),
        j <= res <= s@.len(),
{
    let mut k = j;
    while k < s.len() && s[k] != '\n'
        invariant
            j <= k <= s@.len(),
            line_end(s@, j as int) == line_end(s@, k as int),
        decreases s@.len() - k,
    {
        k = k + 1;
    }
    k
}

fn block_end_exec(s: &[char], i: usize) -> (res: Option<usize>)
    requires
        i <= s@.len(),
    ensures
        res is Some <==> block_end(s@, i as int, 0) is Some,
        res matches Some(e) ==> block_end(s@, i as int, 0) == Some(e as int) && i < e <= s@.len(),
{
    let n = s.len();
    let mut k = i;
    let mut depth: usize = 0;
    loop
        invariant
            n == s@.len(),
            i <= k <= n,
            depth <= k,
            block_end(s@, i as int, 0) == block_end(s@, k as int, depth as nat),
        decreases n - k,
    {
        if n - k < 2 {
            return None;
        }
        if s[k] == '/' && s[k + 1] == '*' {
            depth = depth + 1;
            k = k + 2;
        } else if s[k] == '*' && s[k + 1] == '/' {
            if depth <= 1 {
                return Some(k + 2);
            }
            depth = depth - 1;
            k = k + 2;
        } else {
            k = k + 1;
        }
    }
}

fn comment_end_exec(s: &[char], i: usize) -> (res: Option<usize>)
    requires
        i <= s@.len(),
    ensures
        res is Some <==> comment_end(s@, i as int) is Some,
        res matches Some(e) ==> comment_end(s@, i as int) == Some(e as int) && e <= s@.len(),
{
    proof {
        reveal_strlit("//");
        reveal_strlit("///");
        reveal_strlit("////");
        reveal_strlit("//!");
        reveal_strlit("/**/");
        reveal_strlit("/*");
        reveal_strlit("/**");
        reveal_strlit("/***");
        reveal_strlit("/*!");
    }
    if starts_exec(s, i, "//") && (!starts_exec(s, i, "///") || starts_exec(s, i, "////")) && !starts_exec(
        s,
        i,
        "//!",
    ) {
        assert(i + 2 <= s.len());
        Some(line_end_exec(s, i + 2))
    } else if starts_exec(s, i, "/**/") {
        assert(i + 4 <= s.len());
        Some(i + 4)
    } else if starts_exec(s, i, "/*") && (!starts_exec(s, i, "/**") || starts_exec(s, i, "/***"))
        && !starts_exec(s, i, "/*!") {
        block_end_exec(s, i)
    } else {
        None
    }
}

fn skip_ws_exec(s: &[char], i: usize) -> (res: usize)
    requires
        i <= s@.len(),
    ensures
        res == skip_ws(s@, i as int),
        i <= res <= s@.len(),
{
    let mut k = i;
    loop
        invariant
            i <= k <= s@.len(),
            skip_ws(s@, i as int) == skip_ws(s@, k as int),
        decreases s@.len() - k,
    {
        if k < s.len() && (white_space(s[k]) || s[k] == '\u{200E}' || s[k] == '\u{200F}') {
            k = k + 1;
        } else {
            match comment_end_exec(s, k) {
                Some(e) => {
                    if k < e {
                        k = e;
                    } else {
                        return k;
                    }
                },
                None => {
                    return k;
                },
            }
        }
    }
}

fn ident_start(c: char) -> (res: bool)
    ensures
        res == is_ident_start(c),
{
    c == '_' || is_xid_start(c)
}

fn ident_continue(c: char) -> (res: bool)
    ensures
        res == is_ident_continue(c),
{
    is_xid_continue(c)
}

fn ident_end_exec(s: &[char], i: usize) -> (res: usize)
    requires
        i <= s@.len(),
    ensures
        res == ident_end(s@, i as int),
        i <= res <= s@.len(),
{
    let mut k = i;
    while k < s.len() && ident_continue(s[k])
        invariant
            i <= k <= s@.len(),
            ident_end(s@, i as int) == ident_end(s@, k as int),
        decreases s@.len() - k,
    {
        k = k + 1;
    }
    k
}

fn suffix_end_exec(s: &[char], p: usize) -> (res: usize)
    requires
        p <= s@.len(),
    ensures
        res == suffix_end(s@, p as int),
        p <= res <= s@.len(),
{
    if p < s.len() && ident_start(s[p]) {
        ident_end_exec(s, p)
    } else {
        p
    }
}

fn digit_value_exec(c: char, radix: u32) -> (res: Option<u32>)
    requires
        radix <= 16,
    ensures
        match digit_value(c, radix as int) {
            Some(v) => res == Some(v as u32),
            None => res is None,
        },
{
    let v: u32 = if '0' <= c && c <= '9' {
        c as u32 - 48
    } else if 'a' <= c && c <= 'f' {
        c as u32 - 87
    } else if 'A' <= c && c <= 'F' {
        c as u32 - 55
    } else {
        99
    };
    if v < radix {
        Some(v)
    } else {
        None
    }
}

fn run_end_exec(s: &[char], i: usize, radix: u32) -> (res: usize)
    requires
        i <= s@.len(),
        radix <= 16,
    ensures
        res == run_end(s@, i as int, radix as int),
        i <= res <= s@.len(),
{
    let mut k = i;
    while k < s.len() && (s[k] == '_' || digit_value_exec(s[k], radix).is_some())
        invariant
            i <= k <= s@.len(),
            radix <= 16,
            run_end(s@, i as int, radix as int) == run_end(s@, k as int, radix as int),
        decreases s@.len() - k,
    {
        k = k + 1;
    }
    k
}

proof fn lemma_run_value_grows(s: Seq<char>, i: int, j: int, radix: int)
    requires
        2 <= radix <= 16,
        i <= j,
        forall|k: int| i <= k < j ==> s[k] == '_' || digit_value(s[k], radix) is Some,
    ensures
        run_value(s, i, j, radix) >= 0,
    decreases j - i,
{
    if j > i {
        lemma_run_value_grows(s, i, j - 1, radix);
        if s[j - 1] != '_' {
            assert(run_value(s, i, j - 1, radix) * radix >= 0) by (nonlinear_arith)
                requires
                    run_value(s, i, j - 1, radix) >= 0,
                    radix >= 2,
            ;
        }
    }
}

/// The value of the digits of `s[i..j]`, or `None` when it exceeds `u64::MAX`.
fn run_value_exec(s: &[char], i: usize, j: usize, radix: u32) -> (res: Option<u64>)
    requires
        i <= j <= s@.len(),
        2 <= radix <= 16,
        forall|k: int| i <= k < j ==> s@[k] == '_' || digit_value(s@[k], radix as int) is Some,
    ensures
        run_value(s@, i as int, j as int, radix as int) <= u64::MAX ==> res == Some(
            run_value(s@, i as int, j as int, radix as int) as u64,
        ),
        run_value(s@, i as int, j as int, radix as int) > u64::MAX ==> res is None,
        run_value(s@, i as int, j as int, radix as int) >= 0,
{
    proof {
        lemma_run_value_grows(s@, i as int, j as int, radix as int);
    }
    let mut acc: u64 = 0;
    let mut k = i;
    let mut over = false;
    while k < j
        invariant
            i <= k <= j <= s@.len(),
            2 <= radix <= 16,
            forall|q: int| i <= q < j ==> s@[q] == '_' || digit_value(s@[q], radix as int) is Some,
            !over ==> acc == run_value(s@, i as int, k as int, radix as int),
            over ==> run_value(s@, i as int, k as int, radix as int) > u64::MAX,
            acc >= 0,
        decreases j - k,
    {
        proof {
            lemma_run_value_grows(s@, i as int, k as int, radix as int);
        }
        if s[k] != '_' {
            let d = match digit_value_exec(s[k], radix) {
                Some(d) => d,
                None => 0,
            };
            let ghost prev = run_value(s@, i as int, k as int, radix as int);
            proof {
                assert(run_value(s@, i as int, k + 1, radix as int) == prev * radix + d);
                assert(prev * radix >= prev) by (nonlinear_arith)
                    requires
                        prev >= 0,
                        radix >= 2,
                ;
            }
            if !over {
                match acc.checked_mul(radix as u64) {
                    Some(m) => match m.checked_add(d as u64) {
                        Some(v) => {
                            acc = v;
                        },
                        None => {
                            over = true;
                        },
                    },
                    None => {
                        over = true;
                    },
                }
            }
        } else {
            assert(run_value(s@, i as int, k + 1, radix as int) == run_value(s@, i as int, k as int, radix as int));
        }
        k = k + 1;
    }
    if over {
        None
    } else {
        Some(acc)
    }
}

/// The integer of magnitude `v` with the sign, where the magnitude is within
/// the limit.
fn signed_int(v: u64, negative: bool) -> (res: Option<i64>)
    ensures
        v <= magnitude_limit(negative) ==> res == Some(signed(v as int, negative) as i64),
        v > magnitude_limit(negative) ==> res is None,
{
    if negative {
        if v <= 0x7fff_ffff_ffff_ffff {
            Some(-(v as i64))
        } else if v == 0x8000_0000_0000_0000 {
            Some(i64::MIN)
        } else {
            None
        }
    } else if v <= 0x7fff_ffff_ffff_ffff {
        Some(v as i64)
    } else {
        None
    }
}

fn has_digit_exec(s: &[char], i: usize, j: usize) -> (res: bool)
    requires
        i <= j <= s@.len(),
    ensures
        res == run_has_digit(s@, i as int, j as int),
{
    let mut k = i;
    while k < j
        invariant
            i <= k <= j <= s@.len(),
            forall|q: int| i <= q < k ==> s@[q] == '_',
        decreases j - k,
    {
        if s[k] != '_' {
            return true;
        }
        k = k + 1;
    }
    false
}

fn exponent_end_exec(s: &[char], p: usize) -> (res: Option<usize>)
    requires
        p <= s@.len(),
    ensures
        res is Some <==> exponent_end(s@, p as int) is Some,
        res matches Some(e) ==> exponent_end(s@, p as int) == Some(e as int) && p < e <= s@.len(),
{
    if p < s.len() && (s[p] == 'e' || s[p] == 'E') {
        let q = if p + 1 < s.len() && (s[p + 1] == '+' || s[p + 1] == '-') {
            p + 2
        } else {
            p + 1
        };
        let r = run_end_exec(s, q, 10);
        if has_digit_exec(s, q, r) {
            Some(r)
        } else {
            None
        }
    } else {
        None
    }
}

fn float_text_exec(s: &[char], i: usize, j: usize, negative: bool) -> (res: String)
    requires
        i <= j <= s@.len(),
    ensures
        res@ == signed_text(float_text(s@, i as int, j as int), negative),
{
    let mut out: Vec<char> = Vec::new();
    if negative {
        out.push('-');
    }
    proof {
        assert(out@ =~= signed_text(float_text(s@, i as int, i as int), negative));
    }
    let mut k = i;
    while k < j
        invariant
            i <= k <= j <= s@.len(),
            out@ == signed_text(float_text(s@, i as int, k as int), negative),
        decreases j - k,
    {
        let ghost before = float_text(s@, i as int, k as int);
        if s[k] == 'E' {
            out.push('e');
            assert(signed_text(before.push('e'), negative) =~= signed_text(before, negative).push('e'));
        } else if s[k] != '_' && s[k] != '+' {
            out.push(s[k]);
            assert(signed_text(before.push(s@[k as int]), negative) =~= signed_text(before, negative).push(
                s@[k as int],
            ));
        }
        k = k + 1;
    }
    string_from_chars(out.as_slice())
}

proof fn lemma_run_end_digits(s: Seq<char>, i: int, radix: int)
    requires
        0 <= i,
    ensures
        forall|k: int| i <= k < run_end(s, i, radix) ==> s[k] == '_' || digit_value(s[k], radix) is Some,
        i <= run_end(s, i, radix),
        i < s.len() && (s[i] == '_' || digit_value(s[i], radix) is Some) ==> i < run_end(s, i, radix),
    decreases s.len() - i,
{
    if 0 <= i < s.len() && (s[i] == '_' || digit_value(s[i], radix) is Some) {
        lemma_run_end_digits(s, i + 1, radix);
    }
}

fn prefixed_exec(s: &[char], i: usize, radix: u32, negative: bool) -> (res: Option<(ParsedValue, usize)>)
    requires
        i + 2 <= s@.len(),
        2 <= radix <= 16,
    ensures
        match prefixed_number(s@, i as int, radix as int, negative) {
            Some((w, e)) => res matches Some((v, e2)) && value_is(v, w) && e2 == e,
            None => res is None,
        },
        res matches Some((_, e)) ==> i < e <= s@.len(),
{
    let n = s.len();
    let r = run_end_exec(s, i + 2, radix);
    proof {
        lemma_run_end_digits(s@, i + 2, radix as int);
    }
    if !has_digit_exec(s, i + 2, r) {
        return None;
    }
    match run_value_exec(s, i + 2, r, radix) {
        Some(v) => match signed_int(v, negative) {
            Some(x) => Some((ParsedValue::Int(x), suffix_end_exec(s, r))),
            None => None,
        },
        None => None,
    }
}

fn decimal_exec(s: &[char], i: usize, negative: bool) -> (res: Option<(ParsedValue, usize)>)
    requires
        i < s@.len(),
        '0' <= s@[i as int] <= '9',
    ensures
        match decimal_number(s@, i as int, negative) {
            Some((w, e)) => res matches Some((v, e2)) && value_is(v, w) && e2 == e,
            None => res is None,
        },
        res matches Some((_, e)) ==> i < e <= s@.len(),
{
    let n = s.len();
    let d = run_end_exec(s, i, 10);
    proof {
        lemma_run_end_digits(s@, i as int, 10);
        assert(digit_value(s@[i as int], 10) is Some);
    }
    let dot_float = d < n && s[d] == '.' && !(d + 1 < n && (s[d + 1] == '.' || ident_start(s[d + 1])));
    if dot_float {
        let f = run_end_exec(s, d + 1, 10);
        let e = match exponent_end_exec(s, f) {
            Some(x) => x,
            None => f,
        };
        let t = float_text_exec(s, i, e, negative);
        Some((ParsedValue::Float(t), suffix_end_exec(s, e)))
    } else {
        match exponent_end_exec(s, d) {
            Some(e) => {
                let t = float_text_exec(s, i, e, negative);
                Some((ParsedValue::Float(t), suffix_end_exec(s, e)))
            },
            None => match run_value_exec(s, i, d, 10) {
                Some(v) => match signed_int(v, negative) {
                    Some(x) => Some((ParsedValue::Int(x), suffix_end_exec(s, d))),
                    None => None,
                },
                None => None,
            },
        }
    }
}

fn number_exec(s: &[char], i: usize, negative: bool) -> (res: Option<(ParsedValue, usize)>)
    requires
        i < s@.len(),
        '0' <= s@[i as int] <= '9',
    ensures
        match number_at(s@, i as int, negative) {
            Some((w, e)) => res matches Some((v, e2)) && value_is(v, w) && e2 == e,
            None => res is None,
        },
        res matches Some((_, e)) ==> i < e <= s@.len(),
{
    let n = s.len();
    let radix: u32 = if i + 1 < n && s[i] == '0' && s[i + 1] == 'x' {
        16
    } else if i + 1 < n && s[i] == '0' && s[i + 1] == 'o' {
        8
    } else if i + 1 < n && s[i] == '0' && s[i + 1] == 'b' {
        2
    } else {
        10
    };
    assert(radix as int == radix_at(s@, i as int));
    if radix != 10 {
        prefixed_exec(s, i, radix, negative)
    } else {
        decimal_exec(s, i, negative)
    }
}

fn hex_value_exec(c: char) -> (res: Option<u32>)
    ensures
        match hex_value(c) {
            Some(v) => res == Some(v as u32),
            None => res is None,
        },
{
    digit_value_exec(c, 16)
}

fn unicode_escape_exec(s: &[char], i: usize) -> (res: Option<(char, usize)>)
    requires
        i <= s@.len(),
    ensures
        res is Some <==> unicode_escape(s@, i as int, 0, 0) is Some,
        res matches Some((c, j)) ==> unicode_escape(s@, i as int, 0, 0) == Some((c, j as int)) && i < j <= s@.len(),
{
    let mut k = i;
    let mut value: u32 = 0;
    let mut len: u32 = 0;
    loop
        invariant
            i <= k <= s@.len(),
            len <= 6,
            len <= 0 ==> value < 1,
            len <= 1 ==> value < 0x10,
            len <= 2 ==> value < 0x100,
            len <= 3 ==> value < 0x1000,
            len <= 4 ==> value < 0x10000,
            len <= 5 ==> value < 0x100000,
            value < 0x100_0000,
            len == 0 ==> k == i && value == 0,
            unicode_escape(s@, i as int, 0, 0) == unicode_escape(s@, k as int, value as int, len as int),
        decreases s@.len() - k,
    {
        if k >= s.len() {
            return None;
        }
        let c = s[k];
        if c == '}' && len > 0 {
            if value < 0xD800 || (0xE000 <= value && value <= 0x10FFFF) {
                let ch = char_of(value);
                return Some((ch, k + 1));
            }
            return None;
        } else if c == '_' && len > 0 {
            k = k + 1;
        } else {
            match hex_value_exec(c) {
                Some(d) => {
                    if len < 6 {
                        value = value * 16 + d;
                        len = len + 1;
                        k = k + 1;
                    } else {
                        return None;
                    }
                },
                None => {
                    return None;
                },
            }
        }
    }
}

/// The character with a code that is a character's.
fn char_of(u: u32) -> (res: char)
    requires
        u < 0xD800 || (0xE000 <= u && u <= 0x10FFFF),
    ensures
        res == (u as int) as char,
{
    match char_from_u32(u) {
        Some(c) => c,
        None => vstd::pervasive::unreached(),
    }
}

fn continuation_end_exec(s: &[char], i: usize) -> (res: usize)
    requires
        i <= s@.len(),
    ensures
        res == continuation_end(s@, i as int),
        i <= res <= s@.len(),
{
    let mut k = i;
    while k < s.len() && (s[k] == ' ' || s[k] == '\t' || s[k] == '\n' || s[k] == '\r')
        invariant
            i <= k <= s@.len(),
            continuation_end(s@, i as int) == continuation_end(s@, k as int),
        decreases s@.len() - k,
    {
        k = k + 1;
    }
    k
}

fn string_exec(s: &[char], i: usize) -> (res: Option<(Vec<char>, usize)>)
    requires
        i <= s@.len(),
    ensures
        match string_rest(s@, i as int, Seq::empty()) {
            Some((t, e)) => res matches Some((v, e2)) && v@ == t && e2 == e,
            None => res is None,
        },
        res matches Some((_, e)) ==> i < e <= s@.len(),
{
    let n = s.len();
    let mut acc: Vec<char> = Vec::new();
    let mut k = i;
    loop
        invariant
            n == s@.len(),
            i <= k <= s@.len(),
            string_rest(s@, i as int, Seq::empty()) == string_rest(s@, k as int, acc@),
        decreases s@.len() - k,
    {
        if k >= s.len() {
            return None;
        }
        let c = s[k];
        if c == '"' {
            let e = suffix_end_exec(s, k + 1);
            return Some((acc, e));
        } else if c == '\r' {
            if k + 1 < s.len() && s[k + 1] == '\n' {
                acc.push('\n');
                k = k + 2;
            } else {
                return None;
            }
        } else if c == '\\' {
            if k + 1 >= s.len() {
                return None;
            }
            let e = s[k + 1];
            if e == 'n' {
                acc.push('\n');
                k = k + 2;
            } else if e == 'r' {
                acc.push('\r');
                k = k + 2;
            } else if e == 't' {
                acc.push('\t');
                k = k + 2;
            } else if e == '\\' || e == '\'' || e == '"' {
                acc.push(e);
                k = k + 2;
            } else if e == '0' {
                acc.push('\0');
                k = k + 2;
            } else if e == 'x' {
                if n - k > 3 && '0' <= s[k + 2] && s[k + 2] <= '7' {
                    match hex_value_exec(s[k + 3]) {
                        Some(h) => {
                            let v: u32 = (s[k + 2] as u32 - 48) * 16 + h;
                            acc.push(char_of(v));
                            k = k + 4;
                        },
                        None => {
                            return None;
                        },
                    }
                } else {
                    return None;
                }
            } else if e == 'u' {
                if k + 2 < s.len() && s[k + 2] == '{' {
                    match unicode_escape_exec(s, k + 3) {
                        Some((ch, j)) => {
                            acc.push(ch);
                            k = j;
                        },
                        None => {
                            return None;
                        },
                    }
                } else {
                    return None;
                }
            } else if e == '\n' {
                k = continuation_end_exec(s, k + 2);
            } else if e == '\r' {
                if k + 2 < s.len() && s[k + 2] == '\n' {
                    k = continuation_end_exec(s, k + 3);
                } else {
                    return None;
                }
            } else {
                return None;
            }
        } else {
            acc.push(c);
            k = k + 1;
        }
    }
}

fn hash_end_exec(s: &[char], j: usize) -> (res: usize)
    requires
        j <= s@.len(),
    ensures
        res == hash_end(s@, j as int),
        j <= res <= s@.len(),
        forall|k: int| j <= k < res ==> s@[k] == '#',
{
    let mut k = j;
    while k < s.len() && s[k] == '#'
        invariant
            j <= k <= s@.len(),
            hash_end(s@, j as int) == hash_end(s@, k as int),
            forall|q: int| j <= q < k ==> s@[q] == '#',
        decreases s@.len() - k,
    {
        k = k + 1;
    }
    k
}

fn hashes_at_exec(s: &[char], j: usize, h: usize) -> (res: bool)
    requires
        j <= s@.len(),
    ensures
        res == hashes_at(s@, j as int, h as int),
{
    let n = s.len();
    if n - j < h {
        return false;
    }
    let mut k: usize = 0;
    while k < h
        invariant
            n == s@.len(),
            j + h <= n,
            k <= h,
            forall|q: int| j <= q < j + k ==> s@[q] == '#',
        decreases h - k,
    {
        if s[j + k] != '#' {
            return false;
        }
        k = k + 1;
    }
    true
}

fn raw_close_exec(s: &[char], i: usize, h: usize) -> (res: Option<usize>)
    requires
        i <= s@.len(),
    ensures
        match raw_close(s@, i as int, h as int) {
            Some(q) => res matches Some(r) && r == q,
            None => res is None,
        },
        res matches Some(q) ==> i <= q < s@.len() && q + 1 + h <= s@.len(),
{
    let n = s.len();
    let mut k = i;
    loop
        invariant
            n == s@.len(),
            i <= k <= n,
            raw_close(s@, i as int, h as int) == raw_close(s@, k as int, h as int),
        decreases n - k,
    {
        if k >= n {
            return None;
        }
        if s[k] == '"' && hashes_at_exec(s, k + 1, h) {
            return Some(k);
        } else if s[k] == '\r' {
            if n - k > 1 && s[k + 1] == '\n' {
                k = k + 2;
            } else {
                return None;
            }
        } else {
            k = k + 1;
        }
    }
}

fn raw_string_exec(s: &[char], i: usize) -> (res: Option<(Vec<char>, usize)>)
    requires
        i < s@.len(),
    ensures
        match raw_string_at(s@, i as int) {
            Some((t, e)) => res matches Some((v, e2)) && v@ == t && e2 == e,
            None => res is None,
        },
        res matches Some((_, e)) ==> i < e <= s@.len(),
{
    let n = s.len();
    let d = hash_end_exec(s, i + 1);
    let h = d - (i + 1);
    if d < n && s[d] == '"' && h <= 255 {
        match raw_close_exec(s, d + 1, h) {
            Some(q) => {
                let content = s.split_at(q).0.split_at(d + 1).1;
                assert(content@ =~= s@.subrange(d + 1, q as int));
                let mut v: Vec<char> = Vec::new();
                let mut k: usize = 0;
                while k < content.len()
                    invariant
                        k <= content@.len(),
                        v@ == content@.take(k as int),
                    decreases content@.len() - k,
                {
                    v.push(content[k]);
                    k = k + 1;
                    assert(v@ =~= content@.take(k as int));
                }
                assert(content@.take(content@.len() as int) =~= content@);
                let e = suffix_end_exec(s, q + 1 + h);
                Some((v, e))
            },
            None => None,
        }
    } else {
        None
    }
}

fn holds_nul(t: &[char]) -> (res: bool)
    ensures
        res == t@.contains('\0'),
{
    let mut k: usize = 0;
    while k < t.len()
        invariant
            k <= t@.len(),
            forall|q: int| 0 <= q < k ==> t@[q] != '\0',
        decreases t@.len() - k,
    {
        if t[k] == '\0' {
            return true;
        }
        k = k + 1;
    }
    false
}

fn value_exec(s: &[char], i: usize) -> (res: Option<(ParsedValue, usize)>)
    requires
        i <= s@.len(),
    ensures
        match value_at(s@, i as int) {
            Some((w, e)) => res matches Some((v, e2)) && value_is(v, w) && e2 == e,
            None => res is None,
        },
        res matches Some((_, e)) ==> i < e <= s@.len(),
{
    if i >= s.len() {
        return None;
    }
    let c = s[i];
    if c == 'r' {
        match raw_string_exec(s, i) {
            Some((t, j)) => {
                if holds_nul(t.as_slice()) {
                    None
                } else {
                    Some((ParsedValue::Text(string_from_chars(t.as_slice())), j))
                }
            },
            None => None,
        }
    } else if ident_start(c) {
        let j = ident_end_exec(s, i);
        let word = s.split_at(j).0.split_at(i).1;
        assert(word@ =~= s@.subrange(i as int, j as int));
        if word.len() == 4 && word[0] == 'N' && word[1] == 'o' && word[2] == 'n' && word[3] == 'e' {
            proof {
                reveal_strlit("None");
                assert(word@ =~= "None"@);
            }
            Some((ParsedValue::Nil, j))
        } else {
            proof {
                reveal_strlit("None");
                if word@ == "None"@ {
                    assert(word@[0] == 'N' && word@[1] == 'o' && word@[2] == 'n' && word@[3] == 'e');
                }
            }
            None
        }
    } else if '0' <= c && c <= '9' {
        number_exec(s, i, false)
    } else if c == '-' {
        let k = skip_ws_exec(s, i + 1);
        if k < s.len() && '0' <= s[k] && s[k] <= '9' {
            number_exec(s, k, true)
        } else {
            None
        }
    } else if c == '"' {
        match string_exec(s, i + 1) {
            Some((t, j)) => {
                if holds_nul(t.as_slice()) {
                    None
                } else {
                    Some((ParsedValue::Text(string_from_chars(t.as_slice())), j))
                }
            },
            None => None,
        }
    } else {
        None
    }
}

/// The values are the ones the grammar reads.
pub open spec fn values_are(v: Seq<ParsedValue>, w: Seq<ValueSpec>) -> bool {
    &&& v.len() == w.len()
    &&& forall|k: int| 0 <= k < v.len() ==> #[trigger] value_is(v[k], w[k])
}

fn args_exec(s: &[char], i: usize) -> (res: Result<(Vec<ParsedValue>, usize), CallSyntaxError>)
    requires
        i <= s@.len(),
    ensures
        match args_from(s@, i as int, Seq::empty()) {
            Some((w, m)) => res matches Ok((v, m2)) && values_are(v@, w) && m2 == m,
            None => res matches Err(e) && e.reason() == args_refusal(s@, i as int),
        },
        res matches Ok((_, m)) ==> m < s@.len(),
{
    let n = s.len();
    let mut pos = i;
    let mut out: Vec<ParsedValue> = Vec::new();
    let ghost mut acc: Seq<ValueSpec> = Seq::empty();
    loop
        invariant
            n == s@.len(),
            i <= pos <= n,
            args_from(s@, i as int, Seq::empty()) == args_from(s@, pos as int, acc),
            args_refusal(s@, i as int) == args_refusal(s@, pos as int),
            values_are(out@, acc),
        decreases n - pos,
    {
        let k = skip_ws_exec(s, pos);
        if k < n && s[k] == ')' {
            return Ok((out, k));
        }
        match value_exec(s, k) {
            None => {
                return Err(value_refusal_exec(s, k));
            },
            Some((v, j)) => {
                let ghost found = value_at(s@, k as int)->0;
                let ghost w = found.0;
                let m = skip_ws_exec(s, j);
                if m >= n {
                    return Err(CallSyntaxError::Malformed);
                }
                if s[m] == ',' {
                    out.push(v);
                    proof {
                        acc = acc.push(w);
                        assert forall|q: int| 0 <= q < out@.len() implies #[trigger] value_is(out@[q], acc[q]) by {}
                    }
                    pos = m + 1;
                } else if s[m] == ')' {
                    out.push(v);
                    proof {
                        let acc2 = acc.push(w);
                        assert forall|q: int| 0 <= q < out@.len() implies #[trigger] value_is(out@[q], acc2[q]) by {
                        }
                    }
                    return Ok((out, m));
                } else {
                    return Err(CallSyntaxError::Malformed);
                }
            },
        }
    }
}

/// Why a console line is not a call.
#[derive(Clone, Debug, PartialEq, Eq)]
pub enum CallSyntaxError {
    /// A word that is not `None` stands where a value should.
    UnknownArgumentType(String),
    /// A literal of a kind that calls do not take, by its description.
    UnexpectedLiteral(String),
    /// An integer above `i64::MAX`.
    NumberTooLarge,
    /// An integer below `i64::MIN`.
    NumberTooSmall,
    /// Anything else that does not follow the call syntax.
    Malformed,
}

impl CallSyntaxError {
    pub open spec fn reason(&self) -> SyntaxReason {
        match self {
            CallSyntaxError::UnknownArgumentType(w) => SyntaxReason::UnknownArgumentType(w@),
            CallSyntaxError::UnexpectedLiteral(d) => SyntaxReason::UnexpectedLiteral(d@),
            CallSyntaxError::NumberTooLarge => SyntaxReason::NumberTooLarge,
            CallSyntaxError::NumberTooSmall => SyntaxReason::NumberTooSmall,
            CallSyntaxError::Malformed => SyntaxReason::Malformed,
        }
    }

    /// The message the console shows.
    pub fn message(&self) -> (res: String)
        ensures
            res@ == reason_text(self.reason()),
    {
        let mut m = String::new();
        match self {
            CallSyntaxError::UnknownArgumentType(w) => {
                push_text(&mut m, "unknown Osiris argument type '");
                push_text(&mut m, w.as_str());
                push_text(&mut m, "'");
            },
            CallSyntaxError::UnexpectedLiteral(d) => {
                push_text(&mut m, "unexpected literal '");
                push_text(&mut m, d.as_str());
                push_text(&mut m, "'");
            },
            CallSyntaxError::NumberTooLarge => {
                push_text(&mut m, "number too large to fit in target type");
            },
            CallSyntaxError::NumberTooSmall => {
                push_text(&mut m, "number too small to fit in target type");
            },
            CallSyntaxError::Malformed => {
                push_text(&mut m, "expected a function call: Name(value, ...)");
            },
        }
        proof {
            assert(Seq::<char>::empty() + "unknown Osiris argument type '"@ =~= "unknown Osiris argument type '"@);
            assert(Seq::<char>::empty() + "unexpected literal '"@ =~= "unexpected literal '"@);
            assert(Seq::<char>::empty() + "number too large to fit in target type"@ =~= "number too large to fit in target type"@);
            assert(Seq::<char>::empty() + "number too small to fit in target type"@ =~= "number too small to fit in target type"@);
            assert(Seq::<char>::empty() + "expected a function call: Name(value, ...)"@ =~= "expected a function call: Name(value, ...)"@);
        }
        m
    }
}

fn quoted_end_exec(s: &[char], j: usize, q: char) -> (res: Option<usize>)
    requires
        j <= s@.len(),
    ensures
        res matches Some(e) ==> quoted_end(s@, j as int, q) == Some(e as int) && j < e <= s@.len(),
        res is None ==> quoted_end(s@, j as int, q) is None,
{
    let mut k = j;
    while k < s.len()
        invariant
            j <= k,
            quoted_end(s@, j as int, q) == quoted_end(s@, k as int, q),
        decreases s@.len() - k,
    {
        if s[k] == '\\' {
            if s.len() - k < 2 {
                return None;
            }
            k = k + 2;
        } else if s[k] == q {
            return Some(k + 1);
        } else {
            k = k + 1;
        }
    }
    None
}

fn refused_quoted_exec(s: &[char], i: usize, q_at: usize, kind: &str) -> (res: CallSyntaxError)
    requires
        i <= q_at < s@.len(),
    ensures
        res.reason() == refused_quoted(s@, i as int, q_at as int, kind@),
{
    let q = s[q_at];
    match quoted_end_exec(s, q_at + 1, q) {
        Some(e) => {
            if q == '\'' && !(e - q_at == 3 || s[q_at + 1] == '\\') {
                CallSyntaxError::Malformed
            } else {
                let token = s.split_at(e).0.split_at(i).1;
                assert(token@ =~= s@.subrange(i as int, e as int));
                let mut d = String::new();
                push_text(&mut d, "Lit::");
                push_text(&mut d, kind);
                push_text(&mut d, " { token: ");
                let t = string_from_chars(token);
                push_text(&mut d, t.as_str());
                push_text(&mut d, " }");
                proof {
                    assert(d@ =~= lit_description(kind@, token@));
                }
                CallSyntaxError::UnexpectedLiteral(d)
            }
        },
        None => CallSyntaxError::Malformed,
    }
}

fn number_refusal_exec(s: &[char], i: usize, negative: bool) -> (res: CallSyntaxError)
    requires
        i < s@.len(),
    ensures
        res.reason() == number_refusal(s@, i as int, negative),
{
    let n = s.len();
    let radix: u32 = if i + 1 < n && s[i] == '0' && s[i + 1] == 'x' {
        16
    } else if i + 1 < n && s[i] == '0' && s[i + 1] == 'o' {
        8
    } else if i + 1 < n && s[i] == '0' && s[i + 1] == 'b' {
        2
    } else {
        10
    };
    assert(radix as int == radix_at(s@, i as int));
    if radix != 10 {
        let r = run_end_exec(s, i + 2, radix);
        if !has_digit_exec(s, i + 2, r) {
            return CallSyntaxError::Malformed;
        }
    }
    if negative {
        CallSyntaxError::NumberTooSmall
    } else {
        CallSyntaxError::NumberTooLarge
    }
}

fn value_refusal_exec(s: &[char], i: usize) -> (res: CallSyntaxError)
    requires
        i <= s@.len(),
    ensures
        res.reason() == value_refusal(s@, i as int),
{
    let n = s.len();
    if i >= n {
        return CallSyntaxError::Malformed;
    }
    let c = s[i];
    let raw_ident = starts_exec(s, i, "r#") && n - i > 2 && ident_start(s[i + 2]);
    if c == 'r' && (starts_exec(s, i, "r\"") || starts_exec(s, i, "r#")) && !raw_ident {
        return CallSyntaxError::Malformed;
    }
    if raw_ident {
        let j = ident_end_exec(s, i + 2);
        let word = s.split_at(j).0.split_at(i + 2).1;
        assert(word@ =~= s@.subrange(i + 2, j as int));
        if raw_refused(word) {
            return CallSyntaxError::Malformed;
        }
        let whole = s.split_at(j).0.split_at(i).1;
        assert(whole@ =~= s@.subrange(i as int, j as int));
        return CallSyntaxError::UnknownArgumentType(string_from_chars(whole));
    }
    if ident_start(c) {
        let j = ident_end_exec(s, i);
        let w = s.split_at(j).0.split_at(i).1;
        assert(w@ =~= s@.subrange(i as int, j as int));
        if word_is(w, "true") {
            return CallSyntaxError::UnexpectedLiteral(String::from_str("Lit::Bool { value: true }"));
        }
        if word_is(w, "false") {
            return CallSyntaxError::UnexpectedLiteral(String::from_str("Lit::Bool { value: false }"));
        }
        if j < n && word_is(w, "b") && s[j] == '\'' {
            return refused_quoted_exec(s, i, j, "Byte");
        }
        if j < n && word_is(w, "b") && s[j] == '"' {
            return refused_quoted_exec(s, i, j, "ByteStr");
        }
        if j < n && word_is(w, "c") && s[j] == '"' {
            return refused_quoted_exec(s, i, j, "CStr");
        }
        if j < n && (word_is(w, "br") || word_is(w, "cr")) && (s[j] == '"' || s[j] == '#') {
            return CallSyntaxError::Malformed;
        }
        if reserved(w) {
            return CallSyntaxError::Malformed;
        }
        return CallSyntaxError::UnknownArgumentType(string_from_chars(w));
    }
    if c == '\'' {
        return refused_quoted_exec(s, i, i, "Char");
    }
    if '0' <= c && c <= '9' {
        return number_refusal_exec(s, i, false);
    }
    if c == '-' {
        let k = skip_ws_exec(s, i + 1);
        if k < n && '0' <= s[k] && s[k] <= '9' {
            return number_refusal_exec(s, k, true);
        }
    }
    CallSyntaxError::Malformed
}

/// The call written on a console line, as the grammar reads it.
pub fn parse_call(text: &str) -> (res: Result<ParsedCall, CallSyntaxError>)
    ensures
        match call_spec(text@) {
            Some((name, args)) => res matches Ok(c) && c.ident@ == name && values_are(c.args@, args),
            None => res matches Err(e) && e.reason() == call_refusal(text@),
        },
{
    let chars = chars_of(text);
    let s = chars.as_slice();
    let n = s.len();
    let i = skip_ws_exec(s, 0);
    if !(i < n && ident_start(s[i])) {
        return Err(CallSyntaxError::Malformed);
    }
    proof {
        reveal_strlit("r#");
    }
    let raw = starts_exec(s, i, "r#") && n - i > 2 && ident_start(s[i + 2]);
    let j = if raw {
        ident_end_exec(s, i + 2)
    } else {
        ident_end_exec(s, i)
    };
    let name = s.split_at(j).0.split_at(i).1;
    assert(name@ =~= s@.subrange(i as int, j as int));
    let refused = if raw {
        let word = s.split_at(j).0.split_at(i + 2).1;
        assert(word@ =~= s@.subrange(i + 2, j as int));
        raw_refused(word)
    } else {
        reserved(name)
    };
    let k = skip_ws_exec(s, j);
    if refused || !(k < n && s[k] == '(') || starts_exec(s, k, "(/*ERROR*/)") {
        return Err(CallSyntaxError::Malformed);
    }
    match args_exec(s, k + 1) {
        Err(e) => Err(e),
        Ok((args, m)) => {
            if skip_ws_exec(s, m + 1) == n {
                Ok(ParsedCall { ident: string_from_chars(name), args })
            } else {
                Err(CallSyntaxError::Malformed)
            }
        },
    }
}

fn word_is(w: &[char], lit: &str) -> (res: bool)
    ensures
        res == (w@ == lit@),
{
    let l = chars_of(lit);
    crate::text::chars_eq(w, l.as_slice())
}

fn raw_refused(w: &[char]) -> (res: bool)
    ensures
        res == is_raw_refused(w@),
{
    word_is(w, "_") || word_is(w, "super") || word_is(w, "self") || word_is(w, "Self") || word_is(w, "crate")
}

fn reserved(w: &[char]) -> (res: bool)
    ensures
        res == is_reserved(w@),
{
    let ext = [ 'e', 'x', 't', 'e', 'r', 'n' ];
    assert(ext@ =~= seq!['e', 'x', 't', 'e', 'r', 'n']);
    word_is(w, "_") || word_is(w, "abstract") || word_is(w, "as") || word_is(w, "async") || word_is(w, "await")
        || word_is(w, "become") || word_is(w, "box") || word_is(w, "break") || word_is(w, "const") || word_is(
        w,
        "continue",
    ) || word_is(w, "crate") || word_is(w, "do") || word_is(w, "dyn") || word_is(w, "else") || word_is(w, "enum")
        || crate::text::chars_eq(w, &ext) || word_is(w, "false") || word_is(w, "final") || word_is(w, "fn")
        || word_is(w, "for") || word_is(w, "if") || word_is(w, "impl") || word_is(w, "in") || word_is(w, "let")
        || word_is(w, "loop") || word_is(w, "macro") || word_is(w, "match") || word_is(w, "mod") || word_is(
        w,
        "move",
    ) || word_is(w, "mut") || word_is(w, "override") || word_is(w, "priv") || word_is(w, "pub") || word_is(
        w,
        "ref",
    ) || word_is(w, "return") || word_is(w, "Self") || word_is(w, "self") || word_is(w, "static") || word_is(
        w,
        "struct",
    ) || word_is(w, "super") || word_is(w, "trait") || word_is(w, "true") || word_is(w, "try") || word_is(
        w,
        "type",
    ) || word_is(w, "typeof") || word_is(w, "unsafe") || word_is(w, "unsized") || word_is(w, "use") || word_is(
        w,
        "virtual",
    ) || word_is(w, "where") || word_is(w, "while") || word_is(w, "yield")
}

} // verus!
