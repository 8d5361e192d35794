//! Object ids: twenty bytes, written as forty hexadecimal digits.

use crate::error::ErrorKind;
use vstd::prelude::*;

verus! {

#[verifier::external_type_specification]
#[verifier::external_body]
pub struct ExGitError(git2::Error);

/// The value of a hexadecimal digit, in either case; -1 for any other character.
pub open spec fn hex_value(c: char) -> int {
    if '0' <= c <= '9' {
        c as int - '0' as int
    } else if 'a' <= c <= 'f' {
        c as int - 'a' as int + 10
    } else if 'A' <= c <= 'F' {
        c as int - 'A' as int + 10
    } else {
        -1
    }
}

/// The lower-case hexadecimal digit of a value below sixteen.
pub open spec fn hex_digit(v: int) -> char {
    seq!['0', '1', '2', '3', '4', '5', '6', '7', '8', '9', 'a', 'b', 'c', 'd', 'e', 'f'][v]
}

/// The value of the digit at position `p`; zero behind the end of the text.
pub open spec fn nibble_at(s: Seq<char>, p: int) -> int {
    if 0 <= p < s.len() {
        hex_value(s[p])
    } else {
        0
    }
}

/// Whether a text is one to forty hexadecimal digits.
pub open spec fn is_oid_text(s: Seq<char>) -> bool {
    &&& 1 <= s.len() <= 40
    &&& forall|i: int| 0 <= i < s.len() ==> hex_value(#[trigger] s[i]) >= 0
}

/// The twenty bytes that a text of hexadecimal digits stands for: two digits to a byte, the
/// first one high, and zero digits where the text is shorter than forty.
pub open spec fn spec_parse_oid(s: Seq<char>) -> Option<Seq<u8>> {
    if is_oid_text(s) {
        Some(Seq::new(20, |k: int| (16 * nibble_at(s, 2 * k) + nibble_at(s, 2 * k + 1)) as u8))
    } else {
        None
    }
}

/// The forty lower-case hexadecimal digits of twenty bytes.
pub open spec fn spec_oid_hex(bytes: Seq<u8>) -> Seq<char> {
    Seq::new(
        40,
        |p: int|
            if p % 2 == 0 {
                hex_digit(bytes[p / 2] as int / 16)
            } else {
                hex_digit(bytes[p / 2] as int % 16)
            },
    )
}

/// Parses with `git2::Oid::from_str`, which reads one to forty hexadecimal digits of either
/// case into twenty bytes, two digits to a byte from the front, the bytes behind the text
/// zero, and fails on an empty text, a longer one, or any other character.
#[verifier::external_body]
fn git_oid_from_str(s: &str) -> (r: Result<[u8; 20], git2::Error>)
    ensures
        r is Ok <==> spec_parse_oid(s@) is Some,
        r matches Ok(bytes) ==> bytes@ == spec_parse_oid(s@).unwrap(),
{
    match git2::Oid::from_str(s) {
        Ok(oid) => {
            let mut bytes = [0u8; 20];
            bytes.copy_from_slice(oid.as_bytes());
            Ok(bytes)
        },
        Err(e) => Err(e),
    }
}

/// Formats with the `Display` of `git2::Oid`, which writes the twenty bytes as forty
/// lower-case hexadecimal digits. `git2::Oid::from_bytes` takes any twenty bytes.
#[verifier::external_body]
fn git_oid_to_string(bytes: &[u8; 20]) -> (r: String)
    ensures
        r@ == spec_oid_hex(bytes@),
{
    match git2::Oid::from_bytes(bytes) {
        Ok(oid) => oid.to_string(),
        Err(_) => String::new(),
    }
}

/// The id of a Git object.
#[derive(Clone, Copy, Debug, PartialEq, Eq, Hash)]
pub struct Oid {
    bytes: [u8; 20],
}

impl View for Oid {
    type V = Seq<u8>;

    closed spec fn view(&self) -> Seq<u8> {
        self.bytes@
    }
}

impl Oid {
    /// An object id is twenty bytes.
    pub proof fn lemma_len(&self)
        ensures
            self@.len() == 20,
    {
    }

    /// The object id that a text of hexadecimal digits stands for.
    pub fn from_str(s: &str) -> (r: Result<Oid, ErrorKind>)
        ensures
            r is Ok <==> spec_parse_oid(s@) is Some,
            r matches Ok(oid) ==> oid@ == spec_parse_oid(s@).unwrap(),
            r matches Err(e) ==> e == ErrorKind::InvalidOid,
    {
        match git_oid_from_str(s) {
            Ok(bytes) => Ok(Oid { bytes: bytes }),
            Err(_) => Err(ErrorKind::InvalidOid),
        }
    }

    /// The object id with the given bytes.
    pub fn from_bytes(bytes: [u8; 20]) -> (r: Oid)
        ensures
            r@ == bytes@,
    {
        Oid { bytes: bytes }
    }

    /// The twenty bytes of the object id.
    pub fn as_bytes(&self) -> (r: &[u8; 20])
        ensures
            r@ == self@,
    {
        &self.bytes
    }

    /// The forty lower-case hexadecimal digits of the object id.
    pub fn to_string(&self) -> (r: String)
        ensures
            r@ == spec_oid_hex(self@),
    {
        git_oid_to_string(&self.bytes)
    }

    /// Whether two object ids hold the same bytes.
    pub fn equals(&self, other: &Oid) -> (r: bool)
        ensures
            r == (self@ == other@),
    {
        let mut i: usize = 0;
        while i < 20
            invariant
                i <= 20,
                forall|j: int| 0 <= j < i ==> self.bytes@[j] == other.bytes@[j],
            decreases 20 - i,
        {
            if self.bytes[i] != other.bytes[i] {
                return false;
            }
            i += 1;
        }
        assert(self.bytes@ =~= other.bytes@);
        true
    }
}

/// A digit has the value it was written for.
pub proof fn lemma_hex_digit_value(v: int)
    requires
        0 <= v < 16,
    ensures
        hex_value(hex_digit(v)) == v,
{
}

/// The hexadecimal form of twenty bytes is read back as these bytes.
pub proof fn lemma_parse_hex(bytes: Seq<u8>)
    requires
        bytes.len() == 20,
    ensures
        spec_oid_hex(bytes).len() == 40,
        spec_parse_oid(spec_oid_hex(bytes)) == Some(bytes),
{
    let s = spec_oid_hex(bytes);
    assert forall|i: int| 0 <= i < s.len() implies hex_value(#[trigger] s[i]) >= 0 by {
        let b = bytes[i / 2] as int;
        if i % 2 == 0 {
            lemma_hex_digit_value(b / 16);
        } else {
            lemma_hex_digit_value(b % 16);
        }
    }
    assert(is_oid_text(s));
    let parsed = spec_parse_oid(s).unwrap();
    assert forall|k: int| 0 <= k < 20 implies parsed[k] == bytes[k] by {
        let b = bytes[k] as int;
        assert((2 * k) / 2 == k && (2 * k) % 2 == 0);
        assert((2 * k + 1) / 2 == k && (2 * k + 1) % 2 == 1);
        lemma_hex_digit_value(b / 16);
        lemma_hex_digit_value(b % 16);
        assert(nibble_at(s, 2 * k) == b / 16);
        assert(nibble_at(s, 2 * k + 1) == b % 16);
        assert(16 * (b / 16) + b % 16 == b);
    }
    assert(parsed =~= bytes);
}

} // verus!
