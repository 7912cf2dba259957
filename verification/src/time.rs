//! Points in time as plain numbers, and their RFC 3339 text.

use crate::text::opt_view;
use vstd::prelude::*;

verus! {

/// A point in time: whole seconds since the Unix epoch and the nanoseconds
/// past that second.
#[derive(Clone, Copy, Debug, PartialEq, Eq, Structural)]
pub struct Timestamp {
    pub secs: i64,
    pub nanos: u32,
}

impl Timestamp {
    /// Whether `self` lies strictly after `other`.
    pub open spec fn later_than(self, other: Timestamp) -> bool {
        self.secs > other.secs || (self.secs == other.secs && self.nanos > other.nanos)
    }

    /// Decides whether `self` lies strictly after `other`.
    pub fn is_after(&self, other: &Timestamp) -> (b: bool)
        ensures
            b == self.later_than(*other),
    {
        self.secs > other.secs || (self.secs == other.secs && self.nanos > other.nanos)
    }

    /// The start of the given second.
    pub fn from_secs(secs: i64) -> (t: Timestamp)
        ensures
            t == (Timestamp { secs, nanos: 0 }),
    {
        Timestamp { secs, nanos: 0 }
    }
}

/// The RFC 3339 text that `chrono` writes for the UTC date and time at
/// `secs` seconds and `nanos` nanoseconds after the Unix epoch, or `None`
/// where `chrono` cannot represent that point in time.
pub uninterp spec fn rfc3339_text(secs: i64, nanos: u32) -> Option<Seq<char>>;

/// The point in time, as seconds and nanoseconds after the Unix epoch, that
/// `chrono` reads from an RFC 3339 text, or `None` where it rejects the text.
pub uninterp spec fn rfc3339_point(text: Seq<char>) -> Option<(i64, u32)>;

/// Reads the clock through `chrono::Utc::now`. Nothing is claimed of the
/// value: it is whatever the system clock says.
#[verifier::external_body]
pub(crate) fn now() -> (t: Timestamp) {
    let t = chrono::Utc::now();
    Timestamp { secs: t.timestamp(), nanos: t.timestamp_subsec_nanos() }
}

/// Calls `chrono::DateTime::to_rfc3339` on the UTC date and time built by
/// `DateTime::from_timestamp`. The text is a function of the two numbers
/// alone; it is absent exactly where `from_timestamp` gives no date.
#[verifier::external_body]
pub(crate) fn format_rfc3339(t: Timestamp) -> (r: Option<String>)
    ensures
        opt_view(r) == rfc3339_text(t.secs, t.nanos),
{
    chrono::DateTime::from_timestamp(t.secs, t.nanos).map(|d| d.to_rfc3339())
}

/// Calls `chrono::DateTime::parse_from_rfc3339` and reads the result's Unix
/// seconds and sub-second nanoseconds. The outcome is a function of the text.
#[verifier::external_body]
pub(crate) fn parse_rfc3339(text: &str) -> (r: Option<Timestamp>)
    ensures
        r is Some == rfc3339_point(text@) is Some,
        r matches Some(t) ==> rfc3339_point(text@) == Some((t.secs, t.nanos)),
{
    match chrono::DateTime::parse_from_rfc3339(text) {
        Ok(d) => Some(Timestamp { secs: d.timestamp(), nanos: d.timestamp_subsec_nanos() }),
        Err(_) => None,
    }
}

} // verus!
