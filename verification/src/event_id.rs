//! Event identifiers.
use vstd::arithmetic::power::pow;
use vstd::prelude::*;

verus! {

/// Unique identifier of an event: the 128 bits of a UUID.
#[derive(Clone, Copy, Debug, PartialEq, Eq, Structural, Hash, PartialOrd, Ord)]
pub struct EventId(pub u128);

/// The lower case hexadecimal digit for `n`.
pub open spec fn hex_digit(n: int) -> char {
    if n < 10 {
        (0x30 + n) as char
    } else {
        (0x57 + n) as char
    }
}

/// The value of hexadecimal digit `i` of `id`, where the highest of the 32 digits is digit 0.
pub open spec fn digit_at(id: u128, i: int) -> int {
    (id as int / pow(16, (31 - i) as nat)) % 16
}

/// The 32 lower case hexadecimal digits of `id`, the highest first.
pub open spec fn event_id_text(id: u128) -> Seq<char> {
    Seq::new(32, |i: int| hex_digit(digit_at(id, i)))
}

/// Whether `id` is marked as a random UUID: its version is 4, and its variant is that of RFC 9562.
pub open spec fn is_random_uuid(id: u128) -> bool {
    digit_at(id, 12) == 4 && 8 <= digit_at(id, 16) <= 11
}

/// The UUID that `uuid` reads from a text, if the text is one.
pub uninterp spec fn event_id_of(text: Seq<char>) -> Option<u128>;

/// Reads a UUID from hexadecimal digits, with `uuid::Uuid::parse_str`: plain, with hyphens, in
/// braces or as a URN. Which text reads as what is left to the name [`event_id_of`].
#[verifier::external_body]
fn parse_uuid(text: &str) -> (r: Option<u128>)
    ensures
        r == event_id_of(text@),
{
    uuid::Uuid::parse_str(text).ok().map(|id| id.as_u128())
}

/// Writes a UUID without hyphens, with `uuid::Uuid::simple`: as its hexadecimal digits, from which
/// `uuid::Uuid::parse_str` reads it back.
#[verifier::external_body]
fn format_uuid(id: u128) -> (r: String)
    ensures
        r@ == event_id_text(id),
        event_id_of(r@) == Some(id),
{
    uuid::Uuid::from_u128(id).simple().to_string()
}

/// Draws a random UUID, with `uuid::Uuid::new_v4`, which sets the version and the variant. Nothing
/// is said of the other bits.
#[verifier::external_body]
fn random_uuid() -> (r: u128)
    ensures
        is_random_uuid(r),
{
    uuid::Uuid::new_v4().as_u128()
}

impl EventId {
    /// Creates a random identifier. It can be any random UUID: nothing else is known of it.
    pub fn new() -> (r: Self)
        ensures
            is_random_uuid(r.0),
    {
        EventId(random_uuid())
    }

    /// Reads an identifier from its text.
    pub fn from_text(text: &str) -> (r: Option<Self>)
        ensures
            match r {
                Some(id) => event_id_of(text@) == Some(id.0),
                None => event_id_of(text@) is None,
            },
    {
        match parse_uuid(text) {
            Some(id) => Some(EventId(id)),
            None => None,
        }
    }

    /// Writes the identifier as 32 hexadecimal digits, from which it is read back.
    pub fn to_text(self) -> (r: String)
        ensures
            r@ == event_id_text(self.0),
            event_id_of(r@) == Some(self.0),
    {
        format_uuid(self.0)
    }
}

} // verus!
