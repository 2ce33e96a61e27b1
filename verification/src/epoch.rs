//! Epochs: from the calendar fields of an element set's epoch to an
//! absolute instant, and from there to the offset a propagator works with.
//!
//! The calendar is the proleptic Gregorian one and the instant counts
//! non-leap seconds since 1970-01-01 00:00:00 UTC.

use vstd::prelude::*;
use crate::error::OrbitError;
use crate::units::{floor_div, SECONDS_PER_DAY, SECONDS_PER_HOUR, SECONDS_PER_MINUTE};

verus! {

/// First year a calendar date may lie in.
pub const MIN_YEAR: i32 = -262_143;

/// Last year a calendar date may lie in.
pub const MAX_YEAR: i32 = 262_142;

/// Days from 0001-01-01, counted as day 1, to 1970-01-01.
pub const UNIX_EPOCH_DAY: i64 = 719_163;

/// Nanoseconds in one second.
pub const NANOSECONDS_PER_SECOND: u32 = 1_000_000_000;

/// The epoch of an element set as calendar fields, in UTC.
#[derive(Clone, Copy, Debug, PartialEq, Eq, Structural)]
pub struct CalendarEpoch {
    pub year: i32,
    pub month: u32,
    pub day: u32,
    pub hour: u32,
    pub minute: u32,
    pub second: u32,
    pub nanosecond: u32,
}

/// A day of the calendar.
#[derive(Clone, Copy, Debug, PartialEq, Eq, Structural)]
pub struct CalendarDate {
    pub year: i32,
    pub month: u32,
    pub day: u32,
}

/// Whether `year` has a 29th of February.
pub open spec fn is_leap_year(year: int) -> bool {
    year % 4 == 0 && (year % 100 != 0 || year % 400 == 0)
}

/// Number of days of month `month` of `year`, for a month from 1 to 12.
pub open spec fn days_in_month(year: int, month: int) -> int {
    if month == 2 {
        if is_leap_year(year) {
            29
        } else {
            28
        }
    } else if month == 4 || month == 6 || month == 9 || month == 11 {
        30
    } else {
        31
    }
}

/// Number of days of `year` that lie before the first of `month`.
pub open spec fn days_before_month(year: int, month: int) -> int
    decreases month,
{
    if month <= 1 {
        0
    } else {
        days_before_month(year, month - 1) + days_in_month(year, month - 1)
    }
}

/// Number of days from 0001-01-01 to the first of January of `year`.
pub open spec fn days_before_year(year: int) -> int {
    let y = year - 1;
    365 * y + y / 4 - y / 100 + y / 400
}

/// Whether the fields name a day of the calendar.
pub open spec fn valid_date(year: int, month: int, day: int) -> bool {
    &&& MIN_YEAR <= year <= MAX_YEAR
    &&& 1 <= month <= 12
    &&& 1 <= day <= days_in_month(year, month)
}

/// Whether the fields name a time of day. A nanosecond field of a second
/// or more stands for a leap second and may only follow second 59.
pub open spec fn valid_time(hour: int, minute: int, second: int, nanosecond: int) -> bool {
    &&& 0 <= hour < 24
    &&& 0 <= minute < 60
    &&& 0 <= second < 60
    &&& 0 <= nanosecond < 2 * NANOSECONDS_PER_SECOND
    &&& (nanosecond >= NANOSECONDS_PER_SECOND ==> second == 59)
}

/// Whole days from 1970-01-01 to the given day.
pub open spec fn days_since_unix_epoch(year: int, month: int, day: int) -> int {
    days_before_year(year) + days_before_month(year, month) + day - UNIX_EPOCH_DAY
}

impl CalendarEpoch {
    /// Whether the fields name an instant.
    pub open spec fn valid(self) -> bool {
        valid_date(self.year as int, self.month as int, self.day as int) && valid_time(
            self.hour as int,
            self.minute as int,
            self.second as int,
            self.nanosecond as int,
        )
    }

    /// The instant the fields name, in whole seconds since the Unix epoch.
    /// The fraction of a second is dropped.
    pub open spec fn unix_seconds(self) -> int {
        days_since_unix_epoch(self.year as int, self.month as int, self.day as int) * (
        SECONDS_PER_DAY as int) + self.hour * (SECONDS_PER_HOUR as int) + self.minute * (
        SECONDS_PER_MINUTE as int) + self.second
    }
}

/// The Unix timestamp of a calendar date and time of day in UTC.
///
/// Calls `chrono::NaiveDate::from_ymd_opt`, then
/// `chrono::NaiveDate::and_hms_nano_opt`, `chrono::NaiveDateTime::and_utc`
/// and `chrono::DateTime::timestamp` on what they return. The contract
/// claims what their documentation states: the date is refused unless it
/// exists in the proleptic Gregorian calendar within the years chrono
/// holds, the time of day is refused unless hour, minute, second and
/// nanosecond are in range, and the timestamp counts non-leap seconds since
/// 1970-01-01 00:00:00 UTC. None of this is proved here.
#[verifier::external_body]
fn utc_timestamp(
    year: i32,
    month: u32,
    day: u32,
    hour: u32,
    minute: u32,
    second: u32,
    nanosecond: u32,
) -> (r: Option<i64>)
    ensures
        r == (if (CalendarEpoch { year, month, day, hour, minute, second, nanosecond }).valid() {
            Some(
                (CalendarEpoch {
                    year,
                    month,
                    day,
                    hour,
                    minute,
                    second,
                    nanosecond,
                }).unix_seconds() as i64,
            )
        } else {
            None
        }),
{
    let date = chrono::NaiveDate::from_ymd_opt(year, month, day)?;
    let moment = date.and_hms_nano_opt(hour, minute, second, nanosecond)?;
    Some(moment.and_utc().timestamp())
}

/// Converts the epoch of an element set into an absolute instant, in Unix
/// seconds. Fields that do not name an instant are refused as a malformed
/// epoch.
pub fn epoch_to_instant(epoch: &CalendarEpoch) -> (r: Result<i64, OrbitError>)
    ensures
        r is Ok <==> epoch.valid(),
        r matches Ok(t) ==> t == epoch.unix_seconds(),
        r matches Err(e) ==> e == OrbitError::MalformedEpoch,
{
    proof {
        if epoch.valid() {
            lemma_unix_seconds_fit(*epoch);
        }
    }
    match utc_timestamp(
        epoch.year,
        epoch.month,
        epoch.day,
        epoch.hour,
        epoch.minute,
        epoch.second,
        epoch.nanosecond,
    ) {
        Some(t) => Ok(t),
        None => Err(OrbitError::MalformedEpoch),
    }
}

impl CalendarDate {
    /// Whether the day exists.
    pub open spec fn valid(self) -> bool {
        valid_date(self.year as int, self.month as int, self.day as int)
    }

    /// Whole days from 1970-01-01 to this day.
    pub open spec fn day_number(self) -> int {
        days_since_unix_epoch(self.year as int, self.month as int, self.day as int)
    }

    /// The first instant of the day.
    pub open spec fn midnight(self) -> CalendarEpoch {
        CalendarEpoch {
            year: self.year,
            month: self.month,
            day: self.day,
            hour: 0,
            minute: 0,
            second: 0,
            nanosecond: 0,
        }
    }
}

/// Whole days from 1970-01-01 to a day of the calendar, or nothing where
/// the day does not exist.
pub fn day_number(date: &CalendarDate) -> (r: Option<i64>)
    ensures
        r is Some <==> date.valid(),
        r matches Some(n) ==> n == date.day_number(),
{
    let midnight = CalendarEpoch {
        year: date.year,
        month: date.month,
        day: date.day,
        hour: 0,
        minute: 0,
        second: 0,
        nanosecond: 0,
    };
    match epoch_to_instant(&midnight) {
        Ok(t) => {
            proof {
                lemma_unix_seconds_fit(midnight);
            }
            Some(floor_div(t as i128, SECONDS_PER_DAY as i128) as i64)
        },
        Err(_) => None,
    }
}

/// Seconds from `epoch` to `target`, negative where the target lies before
/// the epoch. Divided by sixty this is the offset in minutes that a
/// propagator takes.
pub fn seconds_since_epoch(epoch: i64, target: i64) -> (r: i128)
    ensures
        r == target - epoch,
{
    target as i128 - epoch as i128
}

/// The instant of a valid epoch lies well inside what 64 bits hold.
pub proof fn lemma_unix_seconds_fit(epoch: CalendarEpoch)
    requires
        epoch.valid(),
    ensures
        -8_400_000_000_000 < epoch.unix_seconds() < 8_400_000_000_000,
{
    let y = epoch.year as int;
    let m = epoch.month as int;
    lemma_days_before_month_bounds(y, m);
}

/// No month starts later than on day 335 of its year.
pub proof fn lemma_days_before_month_bounds(year: int, month: int)
    requires
        1 <= month <= 12,
    ensures
        0 <= days_before_month(year, month) <= 335,
{
    reveal_with_fuel(days_before_month, 13);
}

} // verus!
