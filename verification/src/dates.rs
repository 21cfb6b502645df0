//! Instants as text: the RFC 3339 form that archives carry.

use crate::book::Timestamp;
use crate::text::opt_view;
use vstd::prelude::*;

verus! {

/// The RFC 3339 text of the instant `secs` seconds and `nanos` nanoseconds
/// after the Unix epoch, in UTC; `None` where the instant lies outside the
/// years that the calendar library can represent.
pub uninterp spec fn rfc3339_text(secs: i64, nanos: u32) -> Option<Seq<char>>;

/// The instant that an RFC 3339 text names, as seconds and nanoseconds after
/// the Unix epoch; `None` where the text is no such date.
pub uninterp spec fn rfc3339_instant(text: Seq<char>) -> Option<(i64, u32)>;

/// `chrono::DateTime::to_rfc3339` on the UTC instant built from `secs` and
/// `nanos`. The result is what chrono writes for that instant, or nothing
/// where chrono cannot represent it.
#[verifier::external_body]
fn write_rfc3339(secs: i64, nanos: u32) -> (r: Option<String>)
    ensures
        opt_view(r) == rfc3339_text(secs, nanos),
{
    match chrono::DateTime::from_timestamp(secs, nanos) {
        Some(instant) => Some(instant.to_rfc3339()),
        None => None,
    }
}

/// `chrono::DateTime::parse_from_rfc3339`, with the instant it finds taken
/// apart into seconds and nanoseconds. The result is what chrono reads out
/// of `text`, or nothing where chrono rejects it.
#[verifier::external_body]
fn read_rfc3339(text: &str) -> (r: Option<(i64, u32)>)
    ensures
        r == rfc3339_instant(text@),
{
    match chrono::DateTime::parse_from_rfc3339(text) {
        Ok(instant) => Some((instant.timestamp(), instant.timestamp_subsec_nanos())),
        Err(_) => None,
    }
}

/// The instant that `text` names, where it names one.
pub open spec fn parsed_instant(text: Seq<char>) -> Option<Timestamp> {
    match rfc3339_instant(text) {
        Some((secs, nanos)) => Some(Timestamp { secs, nanos }),
        None => None,
    }
}

impl Timestamp {
    /// This instant as RFC 3339 text in UTC.
    pub open spec fn rfc3339(self) -> Option<Seq<char>> {
        rfc3339_text(self.secs, self.nanos)
    }

    /// This instant as RFC 3339 text in UTC, or `None` where the calendar
    /// cannot represent it.
    pub fn to_rfc3339(&self) -> (r: Option<String>)
        ensures
            opt_view(r) == self.rfc3339(),
    {
        write_rfc3339(self.secs, self.nanos)
    }

    /// The instant that an RFC 3339 text names, or `None` where it names none.
    pub fn parse_from_rfc3339(text: &str) -> (r: Option<Timestamp>)
        ensures
            r == parsed_instant(text@),
    {
        match read_rfc3339(text) {
            Some((secs, nanos)) => Some(Timestamp { secs, nanos }),
            None => None,
        }
    }
}

} // verus!
