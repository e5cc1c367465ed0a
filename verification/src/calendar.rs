//! The calendar and the clock, as far as metering needs them.

use vstd::prelude::*;
use chrono::Datelike;
use crate::reading::{Timestamp, SECONDS_PER_DAY};

verus! {

/// The first instant that the calendar holds: the start of the year 262144
/// BCE, in seconds since the Unix epoch.
pub const CALENDAR_START: i64 = -8_334_601_228_800;

/// The last instant that the calendar holds: the last second of the year
/// 262142 CE, in seconds since the Unix epoch.
pub const CALENDAR_END: i64 = 8_210_266_876_799;

/// Whether the calendar holds the instant `secs` seconds after the Unix
/// epoch.
pub open spec fn within_calendar(secs: int) -> bool {
    CALENDAR_START <= secs <= CALENDAR_END
}

/// Day of the month (UTC) on which the instant `secs` seconds after the Unix
/// epoch falls, where the calendar holds it.
pub uninterp spec fn calendar_day(secs: i64) -> Option<u32>;

/// The instant one day after `secs`: 86 400 seconds later, where the
/// calendar holds both.
pub open spec fn day_after(secs: i64) -> Option<i64> {
    if within_calendar(secs as int) && within_calendar(secs + 86_400) {
        Some((secs + 86_400) as i64)
    } else {
        None
    }
}

/// Day of the month of the instant `secs`, from
/// `chrono::DateTime::from_timestamp` and `chrono::Datelike::day`. Trusted:
/// the result is the calendar's answer for `secs`; there is one exactly
/// where the calendar holds `secs`, and a day of the month lies between 1
/// and 31.
#[verifier::external_body]
fn chrono_day_of_month(secs: i64) -> (r: Option<u32>)
    ensures
        r == calendar_day(secs),
        r is Some <==> within_calendar(secs as int),
        r matches Some(d) ==> 1 <= d <= 31,
{
    chrono::DateTime::from_timestamp(secs, 0).map(|d| d.day())
}

/// The instant one day after `secs`, from
/// `chrono::DateTime::from_timestamp` and
/// `chrono::DateTime::checked_add_signed` with a `chrono::TimeDelta` of one
/// day. Trusted: the result lies exactly 86 400 seconds after `secs`, and
/// there is one exactly where the calendar holds both instants.
#[verifier::external_body]
fn chrono_day_after(secs: i64) -> (r: Option<i64>)
    ensures
        r == day_after(secs),
{
    chrono::DateTime::from_timestamp(secs, 0)
        .and_then(|d| d.checked_add_signed(chrono::TimeDelta::days(1)))
        .map(|d| d.timestamp())
}

/// The current instant, from `std::time::SystemTime::now` converted by
/// `chrono::DateTime::<chrono::Utc>::from`. Nothing is claimed of the result.
#[verifier::external_body]
pub(crate) fn current_time() -> Timestamp {
    let now = chrono::DateTime::<chrono::Utc>::from(std::time::SystemTime::now());
    Timestamp { secs: now.timestamp() }
}

impl Timestamp {
    /// Day of the month (UTC) on which this instant falls.
    pub open spec fn spec_day(self) -> Option<u32> {
        calendar_day(self.secs)
    }

    /// The instant one period later.
    pub open spec fn spec_next_day(self) -> Option<Timestamp> {
        match day_after(self.secs) {
            Some(secs) => Some(Timestamp { secs }),
            None => None,
        }
    }

    /// Day of the month (UTC) on which this instant falls, or `None` where
    /// the calendar does not hold it.
    pub fn day(self) -> (r: Option<u32>)
        ensures
            r == self.spec_day(),
            r is Some <==> within_calendar(self.secs as int),
            r matches Some(d) ==> 1 <= d <= 31,
    {
        chrono_day_of_month(self.secs)
    }

    /// The instant one period later, or `None` where the calendar ends
    /// before it.
    pub fn next_day(self) -> (r: Option<Timestamp>)
        ensures
            r == self.spec_next_day(),
            r matches Some(n) ==> n.secs == self.secs + SECONDS_PER_DAY,
    {
        match chrono_day_after(self.secs) {
            Some(secs) => Some(Timestamp { secs }),
            None => None,
        }
    }

    /// Whether bills fall due on the day of this instant: the first of a
    /// month.
    pub open spec fn spec_is_billing_day(self) -> bool {
        spec_billing_day(self.spec_day())
    }

    /// Whether bills fall due on the day of this instant.
    pub fn is_billing_day(self) -> (r: bool)
        ensures
            r == self.spec_is_billing_day(),
    {
        billing_day(self.day())
    }
}

/// Whether bills fall due on a day with the number `day` within its month:
/// on the first, and on no day that the calendar does not hold.
pub open spec fn spec_billing_day(day: Option<u32>) -> bool {
    day == Some(1u32)
}

/// Whether bills fall due on a day with the number `day` within its month.
pub fn billing_day(day: Option<u32>) -> (r: bool)
    ensures
        r == spec_billing_day(day),
{
    match day {
        Some(d) => d == 1,
        None => false,
    }
}

} // verus!
