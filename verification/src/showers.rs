//! Meteor showers: where in the year a shower is active and how far its
//! peak is away.

use vstd::prelude::*;
use crate::epoch::{
    days_before_month, days_in_month, is_leap_year, valid_date, MAX_YEAR, MIN_YEAR,
};
use crate::units::floor_mod;

verus! {

/// Where a shower stands on one day of the year.
#[derive(Clone, Copy, Debug, PartialEq, Eq, Structural)]
pub struct ShowerStatus {
    pub is_active: bool,
    pub is_peak: bool,
    pub days_until_peak: i64,
}

/// The day of the year of a calendar date, counted from 1, or 0 where the
/// date does not exist.
pub open spec fn spec_day_of_year(year: int, month: int, day: int) -> int {
    if valid_date(year, month, day) {
        days_before_month(year, month) + day
    } else {
        0
    }
}

/// Number of days of a year.
pub open spec fn spec_days_in_year(year: int) -> int {
    if MIN_YEAR <= year <= MAX_YEAR && is_leap_year(year) {
        366
    } else {
        365
    }
}

/// Whether a shower that is active from day `start` through day `end` is
/// active on day `today`. A shower whose end lies before its start runs
/// over the turn of the year.
pub open spec fn spec_is_active(today: int, start: int, end: int) -> bool {
    if start <= end {
        start <= today <= end
    } else {
        today >= start || today <= end
    }
}

/// Whether two days are the same or next to each other.
pub open spec fn adjacent(a: int, b: int) -> bool {
    -1 <= a - b <= 1
}

/// Whether `today` is the day of the peak or next to it, the turn of the
/// year counted through.
pub open spec fn spec_is_peak(today: int, peak: int, days_in_year: int) -> bool {
    adjacent(today, peak) || adjacent(today + days_in_year, peak) || adjacent(
        today - days_in_year,
        peak,
    )
}

/// Days from `today` to the peak, negative where the peak is past. The
/// nearer of the peak of this year and that of a neighbouring year counts.
pub open spec fn spec_days_until_peak(today: int, peak: int, days_in_year: int) -> int {
    let ahead = peak - today;
    let half = days_in_year / 2;
    if ahead < -half {
        ahead + days_in_year
    } else if ahead > half {
        ahead - days_in_year
    } else {
        ahead
    }
}

/// Whether `year` has a 29th of February.
pub fn leap_year(year: i32) -> (r: bool)
    ensures
        r == is_leap_year(year as int),
{
    let y: i128 = year as i128;
    floor_mod(y, 4) == 0 && (floor_mod(y, 100) != 0 || floor_mod(y, 400) == 0)
}

/// Number of days of a month from 1 to 12.
pub fn month_length(year: i32, month: u32) -> (r: u32)
    requires
        1 <= month <= 12,
    ensures
        r == days_in_month(year as int, month as int),
{
    if month == 2 {
        if leap_year(year) {
            29
        } else {
            28
        }
    } else if month == 4 || month == 6 || month == 9 || month == 11 {
        30
    } else {
        31
    }
}

/// The day of the year of a calendar date, counted from 1, or 0 where the
/// date does not exist.
pub fn day_of_year(month: u32, day: u32, year: i32) -> (r: i32)
    ensures
        r == spec_day_of_year(year as int, month as int, day as int),
{
    if year < MIN_YEAR || year > MAX_YEAR || month < 1 || month > 12 || day < 1 {
        return 0;
    }
    if day > month_length(year, month) {
        return 0;
    }
    let mut before: u32 = 0;
    let mut m: u32 = 1;
    while m < month
        invariant
            1 <= m <= month <= 12,
            before == days_before_month(year as int, m as int),
            before <= 31 * (m - 1),
        decreases month - m,
    {
        before = before + month_length(year, m);
        m = m + 1;
    }
    (before + day) as i32
}

/// Number of days of a year.
pub fn days_in_year(year: i32) -> (r: u32)
    ensures
        r == spec_days_in_year(year as int),
{
    if year >= MIN_YEAR && year <= MAX_YEAR && leap_year(year) {
        366
    } else {
        365
    }
}

/// Where a shower stands on day `today` of a year of `days_in_year` days,
/// for a shower that peaks on day `peak` and is active from day `start`
/// through day `end`.
pub fn shower_status(today: i32, days_in_year: u32, peak: i32, start: i32, end: i32) -> (r:
    ShowerStatus)
    ensures
        r.is_active == spec_is_active(today as int, start as int, end as int),
        r.is_peak == spec_is_peak(today as int, peak as int, days_in_year as int),
        r.days_until_peak == spec_days_until_peak(
            today as int,
            peak as int,
            days_in_year as int,
        ),
{
    let is_active = if start <= end {
        today >= start && today <= end
    } else {
        today >= start || today <= end
    };
    let t: i64 = today as i64;
    let p: i64 = peak as i64;
    let n: i64 = days_in_year as i64;
    let is_peak = (-1 <= t - p && t - p <= 1) || (-1 <= t + n - p && t + n - p <= 1) || (-1 <= t
        - n - p && t - n - p <= 1);
    let ahead: i64 = p - t;
    let half: i64 = n / 2;
    let days_until_peak = if ahead < -half {
        ahead + n
    } else if ahead > half {
        ahead - n
    } else {
        ahead
    };
    ShowerStatus { is_active, is_peak, days_until_peak }
}

} // verus!
