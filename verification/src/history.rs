//! Requests for past earthquakes: which spans of time and which magnitudes
//! may be asked for.

use vstd::prelude::*;
use crate::epoch::{day_number, CalendarDate};

verus! {

/// Largest magnitude that may be asked for, in thousandths.
pub const MAX_MAGNITUDE: i64 = 10_000;

/// Magnitude, in thousandths, from which more than a year may be asked
/// for.
pub const LONG_RANGE_MAGNITUDE: i64 = 5_000;

/// Longest span for magnitudes below [`LONG_RANGE_MAGNITUDE`], in days.
pub const SHORT_RANGE_DAYS: i64 = 365;

/// Longest span for any magnitude, in days.
pub const LONG_RANGE_DAYS: i64 = 3_650;

/// What `chrono::NaiveDate::parse_from_str` with the format `%Y-%m-%d`
/// makes of a text: the day it reads, or nothing where it returns an
/// error.
pub uninterp spec fn iso_date(text: Seq<char>) -> Option<CalendarDate>;

/// Reads a day written as year, month and day with
/// `chrono::NaiveDate::parse_from_str` and the format `%Y-%m-%d`.
///
/// The contract claims only that the outcome is a function of the text,
/// named [`iso_date`].
#[verifier::external_body]
fn parse_iso_date(text: &str) -> (r: Option<CalendarDate>)
    ensures
        r == iso_date(text@),
{
    let date = chrono::NaiveDate::parse_from_str(text, "%Y-%m-%d").ok()?;
    let (year, month) = (chrono::Datelike::year(&date), chrono::Datelike::month(&date));
    Some(CalendarDate { year, month, day: chrono::Datelike::day(&date) })
}

/// The day a text names, counted in days from 1970-01-01, or nothing where
/// the text names no day.
pub open spec fn day_of(text: Seq<char>) -> Option<int> {
    match iso_date(text) {
        Some(date) => if date.valid() {
            Some(date.day_number())
        } else {
            None
        },
        None => None,
    }
}

/// What a request is answered with before anything is fetched: the number
/// of days it spans, or the reason it is refused. The first reason that
/// applies is given.
pub open spec fn spec_history_request(
    start_date: Seq<char>,
    end_date: Seq<char>,
    min_magnitude: i64,
) -> Result<int, Seq<char>> {
    if min_magnitude < 0 || min_magnitude > MAX_MAGNITUDE {
        Err("Magnitude must be between 0 and 10"@)
    } else if day_of(start_date) is None {
        Err("Invalid start date format (YYYY-MM-DD)"@)
    } else if day_of(end_date) is None {
        Err("Invalid end date format (YYYY-MM-DD)"@)
    } else {
        let days = day_of(end_date)->0 - day_of(start_date)->0;
        if days <= 0 {
            Err("End date must be after start date"@)
        } else if min_magnitude < LONG_RANGE_MAGNITUDE && days > SHORT_RANGE_DAYS {
            Err("Date range limited to 1 year for magnitude < 5.0"@)
        } else if days > LONG_RANGE_DAYS {
            Err("Date range limited to 10 years"@)
        } else {
            Ok(days)
        }
    }
}

fn read_day(text: &str) -> (r: Option<i64>)
    ensures
        r is Some <==> day_of(text@) is Some,
        r matches Some(n) ==> Some(n as int) == day_of(text@),
{
    match parse_iso_date(text) {
        Some(date) => day_number(&date),
        None => None,
    }
}

/// Checks a request for the earthquakes between two days with at least
/// `min_magnitude`, given in thousandths of a magnitude. An accepted
/// request is answered with the number of days it spans.
pub fn check_history_request(start_date: &str, end_date: &str, min_magnitude: i64) -> (r: Result<
    i64,
    String,
>)
    ensures
        match (r, spec_history_request(start_date@, end_date@, min_magnitude)) {
            (Ok(days), Ok(expected)) => days == expected,
            (Err(message), Err(expected)) => message@ == expected,
            _ => false,
        },
{
    if min_magnitude < 0 || min_magnitude > MAX_MAGNITUDE {
        return Err("Magnitude must be between 0 and 10".to_owned());
    }
    let start = match read_day(start_date) {
        Some(n) => n,
        None => {
            return Err("Invalid start date format (YYYY-MM-DD)".to_owned());
        },
    };
    let end = match read_day(end_date) {
        Some(n) => n,
        None => {
            return Err("Invalid end date format (YYYY-MM-DD)".to_owned());
        },
    };
    proof {
        crate::epoch::lemma_unix_seconds_fit(iso_date(start_date@)->0.midnight());
        crate::epoch::lemma_unix_seconds_fit(iso_date(end_date@)->0.midnight());
    }
    let days: i64 = end - start;
    if days <= 0 {
        return Err("End date must be after start date".to_owned());
    }
    if min_magnitude < LONG_RANGE_MAGNITUDE && days > SHORT_RANGE_DAYS {
        return Err("Date range limited to 1 year for magnitude < 5.0".to_owned());
    }
    if days > LONG_RANGE_DAYS {
        return Err("Date range limited to 10 years".to_owned());
    }
    Ok(days)
}

} // verus!
