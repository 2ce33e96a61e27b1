//! What is worth telling the user: a visible pass that is about to begin,
//! the next pass of one satellite, and a geomagnetic storm that sets in or
//! grows.

use vstd::prelude::*;
use crate::passes::PassPrediction;
use crate::text::same_str;
use crate::units::{floor_mod, FULL_TURN, MICRODEGREES_PER_DEGREE, SECONDS_PER_MINUTE};

verus! {

/// How long before its start a visible pass is announced, in seconds.
pub const PASS_ALERT_LEAD_SECONDS: i64 = 900;

/// Planetary K index from which a geomagnetic storm is on, in thousandths.
pub const STORM_KP: i64 = 5_000;

/// Rise of the K index over the last announced one that is announced
/// again, in thousandths.
pub const STORM_KP_STEP: i64 = 1_000;

/// Whole degrees of an azimuth, from 0 up to 360, clockwise from north.
pub open spec fn whole_degrees(azimuth: int) -> int {
    (azimuth % (FULL_TURN as int)) / (MICRODEGREES_PER_DEGREE as int)
}

/// The point of the compass that lies in the direction of `azimuth`. Each
/// of the eight points covers 45 degrees, north from 338 through 22.
pub open spec fn spec_compass_point(azimuth: int) -> Seq<char> {
    let d = whole_degrees(azimuth);
    if d <= 22 || d >= 338 {
        "N"@
    } else if d <= 67 {
        "NE"@
    } else if d <= 112 {
        "E"@
    } else if d <= 157 {
        "SE"@
    } else if d <= 202 {
        "S"@
    } else if d <= 247 {
        "SW"@
    } else if d <= 292 {
        "W"@
    } else {
        "NW"@
    }
}

/// The point of the compass to look at for an azimuth in micro-degrees.
pub fn azimuth_to_cardinal(azimuth: i64) -> (point: &'static str)
    ensures
        point@ == spec_compass_point(azimuth as int),
{
    let within: i64 = floor_mod(azimuth as i128, FULL_TURN as i128) as i64;
    let d: i64 = within / MICRODEGREES_PER_DEGREE;
    if d <= 22 || d >= 338 {
        "N"
    } else if d <= 67 {
        "NE"
    } else if d <= 112 {
        "E"
    } else if d <= 157 {
        "SE"
    } else if d <= 202 {
        "S"
    } else if d <= 247 {
        "SW"
    } else if d <= 292 {
        "W"
    } else {
        "NW"
    }
}

/// Whether a pass is visible and begins after `now`, at most
/// [`PASS_ALERT_LEAD_SECONDS`] later.
pub open spec fn is_upcoming(pass: PassPrediction, now: int) -> bool {
    pass.is_visible && pass.start_time > now && pass.start_time - now <= PASS_ALERT_LEAD_SECONDS
}

/// Whether `index` is the first pass that `wanted` holds of.
pub open spec fn is_first<T>(items: Seq<T>, wanted: spec_fn(T) -> bool, index: int) -> bool {
    &&& 0 <= index < items.len()
    &&& wanted(items[index])
    &&& forall|k: int| 0 <= k < index ==> !wanted(#[trigger] items[k])
}

/// Whether `wanted` holds of none of the items.
pub open spec fn none_of<T>(items: Seq<T>, wanted: spec_fn(T) -> bool) -> bool {
    forall|k: int| 0 <= k < items.len() ==> !wanted(#[trigger] items[k])
}

/// The first pass that is about to begin, if there is one.
pub fn next_visible_pass(passes: &Vec<PassPrediction>, now: i64) -> (r: Option<usize>)
    ensures
        match r {
            Some(i) => is_first(passes@, |p: PassPrediction| is_upcoming(p, now as int), i as int),
            None => none_of(passes@, |p: PassPrediction| is_upcoming(p, now as int)),
        },
{
    let mut i: usize = 0;
    while i < passes.len()
        invariant
            i <= passes.len(),
            forall|k: int| 0 <= k < i ==> !is_upcoming(#[trigger] passes@[k], now as int),
        decreases passes.len() - i,
    {
        let p = &passes[i];
        if p.is_visible && p.start_time > now && (p.start_time as i128) - (now as i128)
            <= PASS_ALERT_LEAD_SECONDS as i128 {
            return Some(i);
        }
        i += 1;
    }
    None
}

/// What to tell the user about a pass that is about to begin.
#[derive(Clone, Copy, Debug, PartialEq, Eq)]
pub struct PassAlert {
    /// Which of the passes it is.
    pub index: usize,
    /// When the pass begins.
    pub start_time: i64,
    /// Whole minutes until then.
    pub minutes: i64,
    /// Where to look when it begins.
    pub direction: &'static str,
}

/// Whole minutes from `now` to `start`.
pub open spec fn minutes_until(start: int, now: int) -> int {
    (start - now) / (SECONDS_PER_MINUTE as int)
}

/// Decides whether a pass is to be announced now. The first visible pass
/// that is about to begin is announced, unless it is the one that was
/// announced last.
pub fn pass_alert(passes: &Vec<PassPrediction>, now: i64, last_announced: Option<i64>) -> (r:
    Option<PassAlert>)
    ensures
        match r {
            Some(alert) => {
                &&& is_first(
                    passes@,
                    |p: PassPrediction| is_upcoming(p, now as int),
                    alert.index as int,
                )
                &&& alert.start_time == passes@[alert.index as int].start_time
                &&& last_announced != Some(alert.start_time)
                &&& alert.minutes == minutes_until(alert.start_time as int, now as int)
                &&& alert.direction@ == spec_compass_point(
                    passes@[alert.index as int].start_azimuth as int,
                )
            },
            None => none_of(passes@, |p: PassPrediction| is_upcoming(p, now as int)) || exists|
                i: int,
            |
                is_first(passes@, |p: PassPrediction| is_upcoming(p, now as int), i)
                    && last_announced == Some(passes@[i].start_time),
        },
{
    match next_visible_pass(passes, now) {
        None => None,
        Some(index) => {
            let pass = &passes[index];
            let again = match last_announced {
                Some(t) => t == pass.start_time,
                None => false,
            };
            if again {
                proof {
                    assert(is_first(
                        passes@,
                        |p: PassPrediction| is_upcoming(p, now as int),
                        index as int,
                    ));
                }
                None
            } else {
                Some(
                    PassAlert {
                        index,
                        start_time: pass.start_time,
                        minutes: (pass.start_time - now) / SECONDS_PER_MINUTE,
                        direction: azimuth_to_cardinal(pass.start_azimuth),
                    },
                )
            }
        },
    }
}

/// Whether a pass is one of the satellite `id` and begins after `now`.
pub open spec fn is_later_pass_of(pass: PassPrediction, id: Seq<char>, now: int) -> bool {
    pass.satellite_id@ == id && pass.start_time > now
}

/// The first pass of the satellite `id` that begins after `now`, and the
/// whole minutes until it begins.
pub fn next_pass_of(passes: &Vec<PassPrediction>, id: &str, now: i64) -> (r: Option<(usize, i128)>)
    ensures
        match r {
            Some((i, minutes)) => is_first(
                passes@,
                |p: PassPrediction| is_later_pass_of(p, id@, now as int),
                i as int,
            ) && minutes == minutes_until(passes@[i as int].start_time as int, now as int),
            None => none_of(passes@, |p: PassPrediction| is_later_pass_of(p, id@, now as int)),
        },
{
    let mut i: usize = 0;
    while i < passes.len()
        invariant
            i <= passes.len(),
            forall|k: int|
                0 <= k < i ==> !is_later_pass_of(#[trigger] passes@[k], id@, now as int),
        decreases passes.len() - i,
    {
        let p = &passes[i];
        if p.start_time > now && same_str(p.satellite_id.as_str(), id) {
            let minutes: i128 = ((p.start_time as i128) - (now as i128)) / (
            SECONDS_PER_MINUTE as i128);
            return Some((i, minutes));
        }
        i += 1;
    }
    None
}

/// The K index announced last after a new reading, and whether the new
/// reading is announced. While a storm is on, a reading is announced when
/// none was announced before or when it lies at least [`STORM_KP_STEP`]
/// above the one announced last. When the storm is over, nothing counts as
/// announced any more.
pub open spec fn spec_storm_alert(last_announced: Option<i64>, kp: i64) -> (Option<i64>, bool) {
    if kp >= STORM_KP {
        let announce = match last_announced {
            Some(previous) => kp >= previous + STORM_KP_STEP,
            None => true,
        };
        if announce {
            (Some(kp), true)
        } else {
            (last_announced, false)
        }
    } else {
        (None, false)
    }
}

/// Decides whether a reading of the K index, in thousandths, is announced.
pub fn storm_alert(last_announced: Option<i64>, kp: i64) -> (r: (Option<i64>, bool))
    ensures
        r == spec_storm_alert(last_announced, kp),
{
    if kp >= STORM_KP {
        let announce = match last_announced {
            Some(previous) => (kp as i128) >= (previous as i128) + (STORM_KP_STEP as i128),
            None => true,
        };
        if announce {
            (Some(kp), true)
        } else {
            (last_announced, false)
        }
    } else {
        (None, false)
    }
}

} // verus!
