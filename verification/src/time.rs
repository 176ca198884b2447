//! Instants on the UTC time line and their calendar text.

use vstd::prelude::*;

verus! {

/// Seconds in the 365 days that the activity window spans.
pub const YEAR_SECS: i64 = 31_536_000;

/// An instant: whole seconds since 1970-01-01T00:00:00Z and the nanoseconds
/// into that second. Instants are ordered by `secs`, then by `nanos`.
#[derive(Clone, Copy, Debug, PartialEq, Eq, Structural)]
pub struct Timestamp {
    pub secs: i64,
    pub nanos: u32,
}

/// `ts` lies strictly after the instant 365 days before `now`.
pub open spec fn in_last_year(ts: Timestamp, now: Timestamp) -> bool {
    ts.secs > now.secs - YEAR_SECS || (ts.secs == now.secs - YEAR_SECS && ts.nanos > now.nanos)
}

/// The calendar day (`YYYY-MM-DD`, UTC) on which second `secs` falls, where
/// the calendar can express it.
pub uninterp spec fn utc_day_text(secs: int) -> Option<Seq<char>>;

/// Second `secs` written as `YYYY-MM-DD HH:MM:SS UTC`, where the calendar can
/// express it.
pub uninterp spec fn utc_moment_text(secs: int) -> Option<Seq<char>>;

impl Timestamp {
    /// The instant `nanos` nanoseconds into second `secs`.
    pub fn new(secs: i64, nanos: u32) -> (r: Timestamp)
        ensures
            r.secs == secs,
            r.nanos == nanos,
    {
        Timestamp { secs, nanos }
    }

    /// Whether `self` lies strictly after the instant 365 days before `now`.
    pub fn within_last_year(&self, now: &Timestamp) -> (r: bool)
        ensures
            r == in_last_year(*self, *now),
    {
        if now.secs < i64::MIN + YEAR_SECS {
            true
        } else {
            let start: i64 = now.secs - YEAR_SECS;
            self.secs > start || (self.secs == start && self.nanos > now.nanos)
        }
    }

    /// The calendar day of this instant, `None` where it lies outside the
    /// years that the calendar covers.
    pub fn day_text(&self) -> (r: Option<String>)
        ensures
            r is Some <==> utc_day_text(self.secs as int) is Some,
            r matches Some(s) ==> utc_day_text(self.secs as int) == Some(s@),
    {
        format_utc_day(self.secs)
    }
}

/// Calls `chrono::DateTime::<Utc>::from_timestamp` with no nanoseconds and
/// formats what it gives with `%Y-%m-%d`. Believed, not proved: the text is
/// a function of `secs` alone, and there is none exactly where chrono has no
/// date for `secs`.
#[verifier::external_body]
pub(crate) fn format_utc_day(secs: i64) -> (r: Option<String>)
    ensures
        r is Some <==> utc_day_text(secs as int) is Some,
        r matches Some(s) ==> utc_day_text(secs as int) == Some(s@),
{
    match chrono::DateTime::<chrono::Utc>::from_timestamp(secs, 0) {
        Some(dt) => Some(dt.format("%Y-%m-%d").to_string()),
        None => None,
    }
}

/// Calls `chrono::DateTime::<Utc>::from_timestamp` with no nanoseconds and
/// formats what it gives with `%Y-%m-%d %H:%M:%S UTC`. Believed, not proved:
/// the text is a function of `secs` alone, and there is none exactly where
/// chrono has no date for `secs`.
#[verifier::external_body]
pub(crate) fn format_utc_moment(secs: i64) -> (r: Option<String>)
    ensures
        r is Some <==> utc_moment_text(secs as int) is Some,
        r matches Some(s) ==> utc_moment_text(secs as int) == Some(s@),
{
    match chrono::DateTime::<chrono::Utc>::from_timestamp(secs, 0) {
        Some(dt) => Some(dt.format("%Y-%m-%d %H:%M:%S UTC").to_string()),
        None => None,
    }
}

} // verus!
