//! Object identifiers: the 20-byte content hash that names a commit.

use vstd::prelude::*;

verus! {

/// The error `git2` reports when a string is no object id.
#[verifier::external_type_specification]
#[verifier::external_body]
pub struct ExGitError(git2::Error);

/// An object id, held as its raw bytes.
#[derive(Clone, Copy, Debug, PartialEq, Eq, Hash)]
pub struct Oid {
    pub bytes: [u8; 20],
}

/// Value of one hexadecimal digit, in either case.
pub open spec fn hex_value(c: char) -> Option<int> {
    if '0' <= c && c <= '9' {
        Some(c as int - '0' as int)
    } else if 'a' <= c && c <= 'f' {
        Some(c as int - 'a' as int + 10)
    } else if 'A' <= c && c <= 'F' {
        Some(c as int - 'A' as int + 10)
    } else {
        None
    }
}

/// A string that spells an object id or an abbreviation of one: between one
/// and forty hexadecimal digits.
pub open spec fn is_hex_id(s: Seq<char>) -> bool {
    &&& 1 <= s.len() <= 40
    &&& forall|i: int| 0 <= i < s.len() ==> (#[trigger] hex_value(s[i])) is Some
}

/// The digit at position `p`, or zero past the end of an abbreviation.
pub open spec fn nibble_at(s: Seq<char>, p: int) -> int {
    if 0 <= p < s.len() {
        match hex_value(s[p]) {
            Some(v) => v,
            None => 0,
        }
    } else {
        0
    }
}

/// The bytes that the digits of `s` spell, padded with zeros on the right.
pub open spec fn hex_bytes(s: Seq<char>) -> Seq<u8> {
    Seq::new(20, |i: int| (16 * nibble_at(s, 2 * i) + nibble_at(s, 2 * i + 1)) as u8)
}

/// The lower-case digit for a value below sixteen.
pub open spec fn hex_digit(v: int) -> char {
    if v < 10 {
        (v + '0' as int) as char
    } else {
        (v - 10 + 'a' as int) as char
    }
}

/// The forty lower-case digits that spell `bytes`.
pub open spec fn hex_string(bytes: Seq<u8>) -> Seq<char> {
    Seq::new(
        2 * bytes.len(),
        |p: int|
            if p % 2 == 0 {
                hex_digit(bytes[p / 2] as int / 16)
            } else {
                hex_digit(bytes[p / 2] as int % 16)
            },
    )
}

/// Calls `git2::Oid::from_str`. It accepts between one and forty hexadecimal
/// digits, writes each digit into its half byte from the left, and leaves the
/// rest zero; any other string is an error.
#[verifier::external_body]
fn git_oid_from_str(s: &str) -> (r: Result<Oid, git2::Error>)
    ensures
        r is Ok <==> is_hex_id(s@),
        r matches Ok(o) ==> o.bytes@ == hex_bytes(s@),
{
    match git2::Oid::from_str(s) {
        Ok(raw) => {
            let mut bytes = [0u8; 20];
            bytes.copy_from_slice(raw.as_bytes());
            Ok(Oid { bytes })
        },
        Err(e) => Err(e),
    }
}

fn digit_of(v: u8) -> (c: char)
    requires
        v < 16,
    ensures
        c == hex_digit(v as int),
{
    if v < 10 {
        (v + 48) as char
    } else {
        (v - 10 + 97) as char
    }
}

impl Oid {
    /// The id with every byte zero: the name of no object.
    pub fn zero() -> (o: Oid)
        ensures
            o.bytes@ == Seq::new(20, |i: int| 0u8),
            o.spec_is_zero(),
    {
        let o = Oid { bytes: [0u8; 20] };
        assert(o.bytes@ =~= Seq::new(20, |i: int| 0u8));
        o
    }

    pub open spec fn spec_is_zero(&self) -> bool {
        forall|i: int| 0 <= i < 20 ==> self.bytes@[i] == 0
    }

    /// Whether every byte is zero.
    pub fn is_zero(&self) -> (r: bool)
        ensures
            r == self.spec_is_zero(),
    {
        let mut i: usize = 0;
        while i < 20
            invariant
                i <= 20,
                forall|j: int| 0 <= j < i ==> self.bytes@[j] == 0,
            decreases 20 - i,
        {
            if self.bytes[i] != 0 {
                return false;
            }
            i += 1;
        }
        true
    }

    /// Whether two ids have the same bytes.
    pub fn same(&self, other: &Oid) -> (r: bool)
        ensures
            r == (self.bytes@ == other.bytes@),
    {
        let mut i: usize = 0;
        while i < 20
            invariant
                i <= 20,
                forall|j: int| 0 <= j < i ==> self.bytes@[j] == other.bytes@[j],
            decreases 20 - i,
        {
            if self.bytes[i] != other.bytes[i] {
                return false;
            }
            i += 1;
        }
        assert(self.bytes@ =~= other.bytes@);
        true
    }

    /// Reads an id, or an abbreviation padded with zeros, from hexadecimal
    /// digits. `None` unless `s` is one to forty such digits.
    pub fn from_hex(s: &str) -> (r: Option<Oid>)
        ensures
            r is Some <==> is_hex_id(s@),
            r matches Some(o) ==> o.bytes@ == hex_bytes(s@),
    {
        match git_oid_from_str(s) {
            Ok(o) => Some(o),
            Err(_) => None,
        }
    }

    /// The forty lower-case hexadecimal digits of the id.
    pub fn to_hex(&self) -> (s: String)
        ensures
            s@ == hex_string(self.bytes@),
    {
        let mut s = String::new();
        let mut i: usize = 0;
        while i < 20
            invariant
                i <= 20,
                s@ == hex_string(self.bytes@).subrange(0, 2 * i),
            decreases 20 - i,
        {
            let b = self.bytes[i];
            s.push(digit_of(b / 16));
            s.push(digit_of(b % 16));
            i += 1;
            assert(s@ =~= hex_string(self.bytes@).subrange(0, 2 * i));
        }
        assert(s@ =~= hex_string(self.bytes@));
        s
    }
}

} // verus!
