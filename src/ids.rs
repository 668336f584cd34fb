//! Record identifiers (128-bit UUIDs) and creation timestamps, held as plain
//! values; the uuid and chrono crates do the parsing, formatting and drawing.

use vstd::prelude::*;

verus! {

/// What `uuid::Uuid::parse_str` makes of a text: the 128-bit value of the UUID
/// it denotes, or nothing when the text is no UUID in any accepted form.
pub uninterp spec fn uuid_parse_of(s: Seq<char>) -> Option<u128>;

/// The canonical lower-case hyphenated text of a UUID value.
pub uninterp spec fn uuid_text_of(v: u128) -> Seq<char>;

/// The upper-case hyphenated text of a UUID value.
pub uninterp spec fn uuid_upper_text_of(v: u128) -> Seq<char>;

/// Relies on `uuid::Uuid::parse_str` (with `Uuid::as_u128`): the value is a
/// function of the text alone.
#[verifier::external_body]
fn parse_uuid(s: &str) -> (r: Option<u128>)
    ensures
        r == uuid_parse_of(s@),
{
    uuid::Uuid::parse_str(s).ok().map(|u| u.as_u128())
}

/// Relies on `uuid::Uuid::from_u128` and the hyphenated `Display` form: 36
/// characters, which `Uuid::parse_str` reads back as the same value.
#[verifier::external_body]
fn format_uuid(v: u128) -> (r: String)
    ensures
        r@ == uuid_text_of(v),
        r@.len() == 36,
        uuid_parse_of(r@) == Some(v),
{
    uuid::Uuid::from_u128(v).hyphenated().to_string()
}

/// Relies on `uuid::fmt::Hyphenated::encode_upper`: the upper-case hyphenated
/// text, 36 characters.
#[verifier::external_body]
fn format_uuid_upper(v: u128) -> (r: String)
    ensures
        r@ == uuid_upper_text_of(v),
        r@.len() == 36,
{
    String::from(uuid::Uuid::from_u128(v).hyphenated().encode_upper(&mut uuid::Uuid::encode_buffer()))
}

/// Relies on `uuid::Uuid::new_v4`: a random value, of which nothing is known.
#[verifier::external_body]
fn random_uuid() -> (r: u128) {
    uuid::Uuid::new_v4().as_u128()
}

/// The identifier of a record: a 128-bit UUID value.
#[derive(Clone, Copy, Debug, PartialEq, Eq, Hash, Structural)]
pub struct RecordId {
    pub value: u128,
}

impl RecordId {
    /// The identifier that a text denotes, if it is a UUID in any form that
    /// the uuid crate accepts (hyphenated, simple, braced or URN).
    pub fn parse(s: &str) -> (r: Option<RecordId>)
        ensures
            r == (match uuid_parse_of(s@) {
                Some(v) => Some(RecordId { value: v }),
                None => None,
            }),
    {
        match parse_uuid(s) {
            Some(v) => Some(RecordId { value: v }),
            None => None,
        }
    }

    /// A fresh random (version 4) identifier.
    pub fn generate() -> (r: RecordId) {
        RecordId { value: random_uuid() }
    }

    /// The canonical lower-case hyphenated text, which `parse` reads back.
    pub fn to_string(&self) -> (r: String)
        ensures
            r@ == uuid_text_of(self.value),
            r@.len() == 36,
            uuid_parse_of(r@) == Some(self.value),
    {
        format_uuid(self.value)
    }

    /// The upper-case hyphenated text, as tables show it.
    pub fn to_upper_string(&self) -> (r: String)
        ensures
            r@ == uuid_upper_text_of(self.value),
            r@.len() == 36,
    {
        format_uuid_upper(self.value)
    }
}

} // verus!
