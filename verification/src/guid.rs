//! Game GUIDs and the C++-compatible optional value.
use vstd::prelude::*;
use vstd::string::StringSliceAdditionalSpecFns;

verus! {

/// A 16-byte game GUID, stored in the byte-swapped layout the game uses.
#[derive(Clone, Copy, Debug, PartialEq, Eq, Hash, Default)]
pub struct Guid(pub [u8; 16]);

/// The position in a UUID's canonical byte order that holds byte `i` of the
/// game's byte-swapped layout: each pair of bytes is swapped, and the first
/// four bytes are reversed.
pub open spec fn guid_source_index(i: int) -> int {
    if i < 4 {
        3 - i
    } else if i % 2 == 0 {
        i + 1
    } else {
        i - 1
    }
}

impl Guid {
    /// Builds a game GUID from the 16 bytes of a UUID in canonical order.
    pub fn from_uuid_bytes(uuid: [u8; 16]) -> (res: Guid)
        ensures
            forall|i: int| 0 <= i < 16 ==> #[trigger] res.0@[i] == uuid@[guid_source_index(i)],
    {
        let mut guid = [0u8; 16];
        guid[0] = uuid[3];
        guid[1] = uuid[2];
        guid[2] = uuid[1];
        guid[3] = uuid[0];
        guid[4] = uuid[5];
        guid[5] = uuid[4];
        guid[6] = uuid[7];
        guid[7] = uuid[6];
        guid[8] = uuid[9];
        guid[9] = uuid[8];
        guid[10] = uuid[11];
        guid[11] = uuid[10];
        guid[12] = uuid[13];
        guid[13] = uuid[12];
        guid[14] = uuid[15];
        guid[15] = uuid[14];
        Guid(guid)
    }
}

/// An optional value laid out as the game's C++ code expects it: a flag and a
/// value that is meaningful only when the flag is set.
#[derive(Debug)]
pub struct CppOption<T> {
    pub flag: bool,
    pub val: T,
}

impl<T: Default> CppOption<T> {
    /// The value, or an unset option holding the default value.
    pub fn from(value: Option<T>) -> (res: CppOption<T>)
        ensures
            res.flag == value is Some,
            value matches Some(v) ==> res.val == v,
    {
        match value {
            Some(val) => CppOption::from_output(val),
            None => CppOption { flag: false, val: T::default() },
        }
    }
}

impl<T> CppOption<T> {
    /// A set option holding `output`.
    pub fn from_output(output: T) -> (res: CppOption<T>)
        ensures
            res.flag,
            res.val == output,
    {
        CppOption { flag: true, val: output }
    }

    /// The value of a set option, or the unset option itself.
    pub fn branch(self) -> (res: Result<T, CppOption<T>>)
        ensures
            self.flag ==> res == Ok::<T, CppOption<T>>(self.val),
            !self.flag ==> res == Err::<T, CppOption<T>>(self),
    {
        if self.flag {
            Ok(self.val)
        } else {
            Err(self)
        }
    }

    /// An unset option passed on as it is.
    pub fn from_residual(residual: CppOption<T>) -> (res: CppOption<T>)
        requires
            !residual.flag,
        ensures
            res == residual,
    {
        residual
    }
}

/// The value of a hexadecimal digit, in either case.
pub open spec fn uuid_hex_digit(c: u8) -> Option<int> {
    if 0x30 <= c <= 0x39 {
        Some(c - 0x30)
    } else if 0x61 <= c <= 0x66 {
        Some(c - 0x61 + 10)
    } else if 0x41 <= c <= 0x46 {
        Some(c - 0x41 + 10)
    } else {
        None
    }
}

/// The 16 bytes that 32 hexadecimal digits write, two digits a byte.
pub open spec fn uuid_hex32(h: Seq<u8>) -> Option<Seq<u8>> {
    if h.len() == 32 && forall|i: int| 0 <= i < 32 ==> #[trigger] uuid_hex_digit(h[i]) is Some {
        Some(Seq::new(16, |j: int| (uuid_hex_digit(h[2 * j])->0 * 16 + uuid_hex_digit(h[2 * j + 1])->0) as u8))
    } else {
        None
    }
}

/// A hyphenated UUID: 36 bytes, hyphens at 8, 13, 18 and 23, hexadecimal
/// digits elsewhere.
pub open spec fn uuid_hyphenated(s: Seq<u8>) -> Option<Seq<u8>> {
    if s.len() == 36 && s[8] == 0x2D && s[13] == 0x2D && s[18] == 0x2D && s[23] == 0x2D {
        uuid_hex32(
            s.subrange(0, 8) + s.subrange(9, 13) + s.subrange(14, 18) + s.subrange(19, 23) + s.subrange(24, 36),
        )
    } else {
        None
    }
}

/// An ASCII letter in lower case; other bytes unchanged.
pub open spec fn ascii_lower_byte(c: u8) -> u8 {
    if 0x41 <= c <= 0x5A {
        (c + 32) as u8
    } else {
        c
    }
}

/// The bytes of a UUID written in one of the four text forms: 32 digits, the
/// hyphenated form, the hyphenated form in braces, or the hyphenated form after
/// `urn:uuid:` in any case.
pub open spec fn uuid_text(s: Seq<u8>) -> Option<Seq<u8>> {
    if s.len() == 32 {
        uuid_hex32(s)
    } else if s.len() == 36 {
        uuid_hyphenated(s)
    } else if s.len() == 38 && s[0] == 0x7B && s[37] == 0x7D {
        uuid_hyphenated(s.subrange(1, 37))
    } else if s.len() == 45 && s.take(9).map_values(|c: u8| ascii_lower_byte(c)) == seq![
        0x75u8,
        0x72u8,
        0x6Eu8,
        0x3Au8,
        0x75u8,
        0x75u8,
        0x69u8,
        0x64u8,
        0x3Au8,
    ] {
        uuid_hyphenated(s.skip(9))
    } else {
        None
    }
}

/// `uuid::Uuid::parse_str`, giving the parsed UUID's bytes: the crate reads the
/// four text forms of `uuid_text` (simple, hyphenated, braced, URN) and
/// refuses every other text.
#[verifier::external_body]
fn uuid_parse_str(s: &str) -> (res: Option<[u8; 16]>)
    ensures
        match uuid_text(s.spec_bytes()) {
            Some(b) => res matches Some(a) && a@ == b,
            None => res is None,
        },
{
    match uuid::Uuid::parse_str(s) {
        Ok(u) => Some(*u.as_bytes()),
        Err(_) => None,
    }
}

/// The game GUID of a parsed UUID, as the option the game expects.
pub fn guid_from_parsed(parsed: Option<[u8; 16]>) -> (res: CppOption<Guid>)
    ensures
        res.flag == parsed is Some,
        parsed matches Some(b) ==> forall|i: int| 0 <= i < 16 ==> #[trigger] res.val.0@[i] == b@[guid_source_index(i)],
{
    match parsed {
        Some(b) => CppOption::from(Some(Guid::from_uuid_bytes(b))),
        None => CppOption::from(None),
    }
}

/// The game GUID written in `s` in one of the UUID text formats.
pub fn guid_parse(s: &str) -> (res: CppOption<Guid>)
    ensures
        res.flag == uuid_text(s.spec_bytes()) is Some,
        uuid_text(s.spec_bytes()) matches Some(b) ==> forall|i: int|
            0 <= i < 16 ==> #[trigger] res.val.0@[i] == b[guid_source_index(i)],
{
    guid_from_parsed(uuid_parse_str(s))
}

} // verus!
