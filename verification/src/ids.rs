//! Identifiers of routes, nodes and other records.
use crate::ip;
use crate::text;
use vstd::prelude::*;

verus! {

/// A 128-bit identifier.
#[derive(Clone, Copy, PartialEq, Eq, Structural, Debug, Hash)]
pub struct Id {
    pub value: u128,
}

/// The identifier of a route.
pub type RouteId = Id;

/// The identifier of a node.
pub type NodeId = Id;

/// The number that 32 hexadecimal digits write.
pub open spec fn simple_id(s: Seq<char>) -> Option<nat> {
    if s.len() == 32 {
        ip::hex_value(s)
    } else {
        None
    }
}

/// The number that 32 hexadecimal digits write in groups of 8, 4, 4, 4 and 12 with hyphens
/// between them.
pub open spec fn hyphenated_id(s: Seq<char>) -> Option<nat> {
    if s.len() == 36 && s[8] == '-' && s[13] == '-' && s[18] == '-' && s[23] == '-' {
        simple_id(
            s.subrange(0, 8) + s.subrange(9, 13) + s.subrange(14, 18) + s.subrange(19, 23)
                + s.subrange(24, 36),
        )
    } else {
        None
    }
}

/// The identifier that the text `s` writes: 32 digits, or the hyphenated form, bare, in braces
/// or behind `urn:uuid:` in any case.
pub open spec fn id_of(s: Seq<char>) -> Option<nat> {
    if s.len() == 32 {
        simple_id(s)
    } else if s.len() == 36 {
        hyphenated_id(s)
    } else if s.len() == 38 && s[0] == '{' && s[37] == '}' {
        hyphenated_id(s.subrange(1, 37))
    } else if s.len() == 45 && text::ascii_lower(s.subrange(0, 9)) == "urn:uuid:"@ {
        hyphenated_id(s.subrange(9, 45))
    } else {
        None
    }
}

/// Calls `uuid::Uuid::parse_str`. It accepts the four forms of `id_of` and nothing else, and
/// gives the number that the digits write; what its error says is dropped.
#[verifier::external_body]
pub(crate) fn parse_uuid(s: &str) -> (r: Option<u128>)
    ensures
        match r {
            Some(v) => id_of(s@) == Some(v as nat),
            None => id_of(s@) is None,
        },
{
    uuid::Uuid::parse_str(s).ok().map(|u| u.as_u128())
}

impl Id {
    /// The identifier with the given bits.
    pub fn from_u128(value: u128) -> (r: Id)
        ensures
            r.value == value,
    {
        Id { value }
    }

    /// Reads an identifier out of its text.
    pub fn parse_str(s: &str) -> (r: Option<Id>)
        ensures
            match r {
                Some(id) => id_of(s@) == Some(id.value as nat),
                None => id_of(s@) is None,
            },
    {
        match parse_uuid(s) {
            Some(value) => Some(Id { value }),
            None => None,
        }
    }
}

/// `n` hexadecimal digits of `v` in lower case, with leading zeros.
pub open spec fn hex_fixed(v: nat, n: nat) -> Seq<char>
    decreases n,
{
    if n == 0 {
        Seq::empty()
    } else {
        hex_fixed(v / 16, (n - 1) as nat).push(ip::hex_char(v % 16))
    }
}

/// The text of an identifier: its 32 digits in groups of 8, 4, 4, 4 and 12.
pub open spec fn id_text(v: nat) -> Seq<char> {
    let d = hex_fixed(v, 32);
    d.subrange(0, 8) + seq!['-'] + d.subrange(8, 12) + seq!['-'] + d.subrange(12, 16) + seq!['-']
        + d.subrange(16, 20) + seq!['-'] + d.subrange(20, 32)
}

/// Calls `Uuid::to_string`, which writes the hyphenated form in lower case.
#[verifier::external_body]
pub(crate) fn uuid_text(value: u128) -> (s: String)
    ensures
        s@ == id_text(value as nat),
{
    uuid::Uuid::from_u128(value).to_string()
}

impl Id {
    /// The text of the identifier.
    pub fn to_text(&self) -> (s: String)
        ensures
            s@ == id_text(self.value as nat),
    {
        uuid_text(self.value)
    }
}

spec fn pow16(n: nat) -> nat
    decreases n,
{
    if n == 0 {
        1
    } else {
        16 * pow16((n - 1) as nat)
    }
}

proof fn fixed_digits_read_back(v: nat, n: nat)
    requires
        v < pow16(n),
    ensures
        hex_fixed(v, n).len() == n,
        ip::hex_value(hex_fixed(v, n)) == Some(v),
    decreases n,
{
    if n > 0 {
        fixed_digits_read_back(v / 16, (n - 1) as nat);
        let s = hex_fixed(v, n);
        assert(s.drop_last() =~= hex_fixed(v / 16, (n - 1) as nat));
        assert(ip::hex_digit(s.last()) == Some(v % 16));
    }
}

/// The text of every identifier is read back as that identifier.
pub proof fn id_text_reads_back(id: Id)
    ensures
        id_of(id_text(id.value as nat)) == Some(id.value as nat),
{
    let v = id.value as nat;
    assert(v < pow16(32)) by {
        reveal_with_fuel(pow16, 33);
    }
    fixed_digits_read_back(v, 32);
    let d = hex_fixed(v, 32);
    let s = id_text(v);
    assert(s.len() == 36);
    assert(s.subrange(0, 8) + s.subrange(9, 13) + s.subrange(14, 18) + s.subrange(19, 23)
        + s.subrange(24, 36) =~= d);
}

} // verus!
