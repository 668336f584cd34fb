//! Creation timestamps as seconds and nanoseconds since the Unix epoch (UTC);
//! chrono reads the clock and renders dates.

use vstd::prelude::*;

verus! {

/// The first second of year 0 and of year 10000, as Unix timestamps: RFC 2822
/// text exists only for the years in between.
pub const RFC2822_FIRST_SECOND: i64 = -62167219200;
pub const RFC2822_END_SECOND: i64 = 253402300800;

/// What `chrono::DateTime::<Utc>::to_rfc2822` renders for an instant.
pub uninterp spec fn rfc2822_of(secs: int, nanos: int) -> Seq<char>;

/// Relies on `chrono::Utc::now` (with `timestamp` and
/// `timestamp_subsec_nanos`): the current time, of which nothing is known.
#[verifier::external_body]
fn clock_now() -> (r: (i64, u32)) {
    let now = chrono::Utc::now();
    (now.timestamp(), now.timestamp_subsec_nanos())
}

/// Relies on `chrono::DateTime::from_timestamp` and `DateTime::to_rfc2822`:
/// every instant of the years 0 to 9999 with a nanosecond part below one second
/// exists and has an RFC 2822 text (outside them `to_rfc2822` panics).
#[verifier::external_body]
fn render_rfc2822(secs: i64, nanos: u32) -> (r: String)
    requires
        RFC2822_FIRST_SECOND <= secs < RFC2822_END_SECOND,
        nanos < 1_000_000_000,
    ensures
        r@ == rfc2822_of(secs as int, nanos as int),
{
    chrono::DateTime::from_timestamp(secs, nanos).unwrap().to_rfc2822()
}

/// An instant, in UTC.
#[derive(Clone, Copy, Debug, PartialEq, Eq, Hash, Structural)]
pub struct Timestamp {
    /// Whole seconds since 1970-01-01T00:00:00Z.
    pub secs: i64,
    /// Nanoseconds past `secs`.
    pub nanos: u32,
}

impl Timestamp {
    /// The current time.
    pub fn now() -> (r: Timestamp) {
        let (secs, nanos) = clock_now();
        Timestamp { secs, nanos }
    }

    /// Whether RFC 2822 text exists for this instant.
    pub open spec fn has_rfc2822(self) -> bool {
        &&& RFC2822_FIRST_SECOND <= self.secs < RFC2822_END_SECOND
        &&& self.nanos < 1_000_000_000
    }

    /// The RFC 2822 text of the instant, where it has one.
    pub fn to_rfc2822(&self) -> (r: Option<String>)
        ensures
            self.has_rfc2822() ==> (r matches Some(s) && s@ == rfc2822_of(self.secs as int, self.nanos as int)),
            !self.has_rfc2822() ==> r is None,
    {
        if RFC2822_FIRST_SECOND <= self.secs && self.secs < RFC2822_END_SECOND && self.nanos < 1_000_000_000 {
            Some(render_rfc2822(self.secs, self.nanos))
        } else {
            None
        }
    }
}

} // verus!
