//! Identifiers of nodes and edges: 128-bit UUIDs.
use vstd::prelude::*;
use vstd::arithmetic::power::pow;

verus! {

/// The lowercase hexadecimal digit of value `d` (`0 <= d < 16`).
pub open spec fn hex_digit(d: int) -> char {
    seq!['0', '1', '2', '3', '4', '5', '6', '7', '8', '9', 'a', 'b', 'c', 'd', 'e', 'f'][d]
}

/// The `i`-th of the 32 hexadecimal digits of `v`, most significant first.
pub open spec fn nibble(v: u128, i: int) -> int {
    (v as int / pow(16, (31 - i) as nat)) % 16
}

/// The 32 lowercase hexadecimal digits of `v`, most significant first.
pub open spec fn uuid_simple(v: u128) -> Seq<char> {
    Seq::new(32, |i: int| hex_digit(nibble(v, i)))
}

/// The hyphenated form of a UUID: its 32 digits grouped 8-4-4-4-12.
pub open spec fn uuid_hyphenated(v: u128) -> Seq<char> {
    let h = uuid_simple(v);
    h.subrange(0, 8) + seq!['-'] + h.subrange(8, 12) + seq!['-'] + h.subrange(12, 16) + seq!['-']
        + h.subrange(16, 20) + seq!['-'] + h.subrange(20, 32)
}

/// What `uuid::Uuid::parse_str` gives for a text, as the 128-bit value of the
/// parsed UUID, or `None` where the text is no UUID in any accepted form.
pub uninterp spec fn uuid_parse_result(s: Seq<char>) -> Option<u128>;

/// `uuid::Uuid::from_u128(v).to_string()`: the uuid crate formats a UUID with
/// `Display` as lowercase hyphenated hex of its big-endian bytes, which for
/// `from_u128(v)` are the bytes of `v`, most significant first.
#[verifier::external_body]
pub(crate) fn uuid_to_string(v: u128) -> (r: String)
    ensures
        r@ == uuid_hyphenated(v),
{
    uuid::Uuid::from_u128(v).to_string()
}

/// `uuid::Uuid::parse_str(s)` followed by `as_u128`. The result is named;
/// the one fact stated of it is that the hyphenated lowercase form that
/// `uuid_to_string` writes parses back to its value, as the crate documents.
#[verifier::external_body]
pub(crate) fn uuid_parse(s: &str) -> (r: Option<u128>)
    ensures
        r == uuid_parse_result(s@),
        forall|v: u128| s@ == #[trigger] uuid_hyphenated(v) ==> r == Some(v),
{
    match uuid::Uuid::parse_str(s) {
        Ok(u) => Some(u.as_u128()),
        Err(_) => None,
    }
}

/// Whether `v` is a version 6 UUID of the RFC variant with node ID
/// `01:02:03:04:05:06`: its version field (bits 76 to 79) is 6, its
/// variant field (bits 62 and 63) is `10`, and its last 48 bits are the
/// node ID.
pub open spec fn v6_with_node(v: u128) -> bool {
    &&& (v >> 76u128) & 0xfu128 == 6u128
    &&& (v >> 62u128) & 0x3u128 == 2u128
    &&& v & 0xffff_ffff_ffffu128 == 0x0102_0304_0506u128
}

/// `uuid::Uuid::now_v6(&[1, 2, 3, 4, 5, 6]).as_u128()`: a time-ordered UUID
/// built from the clock. Its timestamp and counter bits depend on the time
/// and are not stated; the crate sets the version, the variant and the node
/// ID as `v6_with_node` says.
#[verifier::external_body]
pub(crate) fn uuid_now_v6() -> (r: u128)
    ensures
        v6_with_node(r),
{
    uuid::Uuid::now_v6(&[1, 2, 3, 4, 5, 6]).as_u128()
}

/// The ID of a node or edge, a 128-bit UUID.
#[derive(Debug, Copy, Clone, PartialEq, Eq, Structural, PartialOrd, Ord, Hash)]
pub struct ID(pub u128);

impl ID {
    /// The 128-bit value.
    pub fn inner(&self) -> (r: u128)
        ensures
            r == self.0,
    {
        self.0
    }

    /// The hyphenated lowercase UUID text of this ID.
    pub fn stringify(&self) -> (r: String)
        ensures
            r@ == uuid_hyphenated(self.0),
    {
        uuid_to_string(self.0)
    }

    /// Parses a UUID text; `None` when the text is no UUID.
    pub fn from_uuid_str(s: &str) -> (r: Option<ID>)
        ensures
            r == (match uuid_parse_result(s@) {
                Some(v) => Some(ID(v)),
                None => None::<ID>,
            }),
            forall|v: u128| s@ == #[trigger] uuid_hyphenated(v) ==> r == Some(ID(v)),
    {
        match uuid_parse(s) {
            Some(v) => Some(ID(v)),
            None => None,
        }
    }
}

impl From<u128> for ID {
    fn from(id: u128) -> (r: ID) {
        ID(id)
    }
}

impl vstd::std_specs::convert::FromSpecImpl<u128> for ID {
    open spec fn obeys_from_spec() -> bool {
        true
    }

    open spec fn from_spec(v: u128) -> ID {
        ID(v)
    }
}

impl From<ID> for u128 {
    fn from(id: ID) -> (r: u128) {
        id.0
    }
}

impl vstd::std_specs::convert::FromSpecImpl<ID> for u128 {
    open spec fn obeys_from_spec() -> bool {
        true
    }

    open spec fn from_spec(id: ID) -> u128 {
        id.0
    }
}

impl core::ops::Deref for ID {
    type Target = u128;

    fn deref(&self) -> (r: &u128)
        ensures
            *r == self.0,
    {
        &self.0
    }
}

/// A fresh time-ordered (version 6) UUID value.
pub fn v6_uuid() -> (r: u128)
    ensures
        v6_with_node(r),
{
    uuid_now_v6()
}

} // verus!
