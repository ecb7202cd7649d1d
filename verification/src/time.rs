//! Points in time, held as plain numbers, and the calendar work that is left
//! to chrono.

use vstd::prelude::*;

verus! {

/// A point in time: whole seconds since 1970-01-01 00:00:00 UTC, and the
/// nanoseconds into that second. Earlier points have smaller `secs`, and
/// within one second smaller `nanos`.
#[derive(Debug, Clone, Copy, PartialEq, Eq, Structural)]
pub struct Timestamp {
    pub secs: i64,
    pub nanos: u32,
}

impl Timestamp {
    /// `self` is not later than `other`.
    pub open spec fn at_or_before(self, other: Timestamp) -> bool {
        self.secs < other.secs || (self.secs == other.secs && self.nanos <= other.nanos)
    }

    pub fn new(secs: i64, nanos: u32) -> (t: Timestamp)
        ensures
            t == (Timestamp { secs, nanos }),
    {
        Timestamp { secs, nanos }
    }

    /// Whether `self` is not later than `other`.
    pub fn is_at_or_before(&self, other: &Timestamp) -> (r: bool)
        ensures
            r == self.at_or_before(*other),
    {
        self.secs < other.secs || (self.secs == other.secs && self.nanos <= other.nanos)
    }
}

/// The seconds since 1970-01-01 00:00:00 UTC at which the calendar shows the
/// given date and time of day, as chrono computes them; `None` where chrono
/// knows no such date or no such time of day.
pub uninterp spec fn civil_seconds(
    year: i32,
    month: u32,
    day: u32,
    hour: u32,
    minute: u32,
    second: u32,
) -> Option<i64>;

/// The text that chrono prints for the date and time at `secs` seconds and
/// `nanos` nanoseconds since 1970-01-01 00:00:00 UTC; `None` where the point
/// lies outside the dates chrono can hold.
pub uninterp spec fn naive_display(secs: i64, nanos: u32) -> Option<Seq<char>>;

/// The current time. Calls `chrono::Utc::now` and reads the result with
/// `DateTime::timestamp` and `DateTime::timestamp_subsec_nanos`. Nothing is
/// claimed of the value: it is whatever the system clock says. chrono panics
/// if the clock is set before 1970.
#[verifier::external_body]
pub(crate) fn now() -> Timestamp {
    let t = chrono::Utc::now();
    Timestamp { secs: t.timestamp(), nanos: t.timestamp_subsec_nanos() }
}

/// Builds the date with `chrono::NaiveDate::from_ymd_opt`, sets the time of
/// day with `NaiveDate::and_hms_opt`, and reads the result with
/// `DateTime::timestamp`. The contract only names the result: the same six
/// numbers always give the same answer, and it is `None` exactly when one of
/// the two chrono calls returns `None`.
#[verifier::external_body]
pub(crate) fn seconds_of_civil(
    year: i32,
    month: u32,
    day: u32,
    hour: u32,
    minute: u32,
    second: u32,
) -> (r: Option<i64>)
    ensures
        r == civil_seconds(year, month, day, hour, minute, second),
{
    match chrono::NaiveDate::from_ymd_opt(year, month, day) {
        Some(date) => match date.and_hms_opt(hour, minute, second) {
            Some(at) => Some(at.and_utc().timestamp()),
            None => None,
        },
        None => None,
    }
}

/// Prints a point in time as chrono does for a `NaiveDateTime`: builds it
/// with `chrono::DateTime::from_timestamp` and calls `to_string` on its
/// `naive_utc()`. The contract only names the result, and `None` stands for
/// the `None` of `from_timestamp`.
#[verifier::external_body]
pub(crate) fn display_of(secs: i64, nanos: u32) -> (r: Option<String>)
    ensures
        r is Some == naive_display(secs, nanos) is Some,
        r is Some ==> r->0@ == naive_display(secs, nanos)->0,
{
    match chrono::DateTime::from_timestamp(secs, nanos) {
        Some(at) => Some(at.naive_utc().to_string()),
        None => None,
    }
}

} // verus!
