//! Sidereal time: the rotation of the Earth against the stars, which turns
//! a direction in the inertial frame into a longitude.
//!
//! The angle is a polynomial in the time since the epoch J2000. It is
//! evaluated in whole micro-degrees: each term is rounded down to a whole
//! micro-degree before the terms are added.

use vstd::prelude::*;
use vstd::arithmetic::div_mod::lemma_fundamental_div_mod;
use crate::units::{floor_div, FULL_TURN};

verus! {

/// The epoch J2000, 2000-01-01 12:00:00 UTC, in Unix seconds.
pub const J2000_UNIX: i64 = 946_728_000;

/// Farthest distance from J2000, in seconds, at which the sidereal angle
/// is evaluated: somewhat over three thousand years.
pub const SIDEREAL_RANGE_SECONDS: i64 = 100_000_000_000;

/// Sidereal angle at J2000: 280.460618 degrees.
pub const SIDEREAL_AT_J2000: i64 = 280_460_618;

/// Whether the sidereal angle is evaluated at this instant.
pub open spec fn in_sidereal_range(unix: int) -> bool {
    -(SIDEREAL_RANGE_SECONDS as int) <= unix - J2000_UNIX <= SIDEREAL_RANGE_SECONDS as int
}

/// The rotation of the Earth in `s` seconds, at 360.98564736629 degrees a
/// day, in micro-degrees.
pub open spec fn rotation_term(s: int) -> int {
    36_098_564_736_629 * s / 8_640_000_000
}

/// The quadratic term, 0.000387933 degrees per square century, in
/// micro-degrees for `s` seconds.
pub open spec fn quadratic_term(s: int) -> int {
    387_933 * (s * s) / 9_958_821_177_600_000_000_000
}

/// The cubic term, one degree per 38,710,000 cubed centuries, in
/// micro-degrees for `s` seconds.
pub open spec fn cubic_term(s: int) -> int {
    100 * (s * s * s) / 121_656_431_289_686_340_096_000_000_000_000
}

/// The sidereal angle before it is reduced to one turn.
pub open spec fn unreduced_sidereal_angle(unix: int) -> int {
    let s = unix - J2000_UNIX;
    SIDEREAL_AT_J2000 + rotation_term(s) + quadratic_term(s) - cubic_term(s)
}

/// Greenwich mean sidereal angle at the instant `unix`, in micro-degrees,
/// reduced to one turn.
pub open spec fn spec_sidereal_angle(unix: int) -> int {
    unreduced_sidereal_angle(unix) % (FULL_TURN as int)
}

/// Greenwich mean sidereal angle at an instant given in Unix seconds, in
/// micro-degrees from zero up to a full turn. Instants farther than
/// [`SIDEREAL_RANGE_SECONDS`] from J2000 are outside what the polynomial
/// is evaluated for.
pub fn sidereal_angle(unix: i64) -> (r: Option<i64>)
    ensures
        r is Some <==> in_sidereal_range(unix as int),
        r matches Some(angle) ==> angle == spec_sidereal_angle(unix as int) && 0 <= angle
            < FULL_TURN,
{
    let s: i128 = unix as i128 - J2000_UNIX as i128;
    let range: i128 = SIDEREAL_RANGE_SECONDS as i128;
    if s < -range || s > range {
        return None;
    }
    assert(0 <= s * s <= 10_000_000_000_000_000_000_000) by (nonlinear_arith)
        requires
            -100_000_000_000 <= s <= 100_000_000_000,
    ;
    let square: i128 = s * s;
    assert(-1_000_000_000_000_000_000_000_000_000_000_000 <= square * s
        <= 1_000_000_000_000_000_000_000_000_000_000_000) by (nonlinear_arith)
        requires
            -100_000_000_000 <= s <= 100_000_000_000,
            0 <= square <= 10_000_000_000_000_000_000_000,
    ;
    let cube: i128 = square * s;
    let rotation = floor_div(36_098_564_736_629 * s, 8_640_000_000);
    let quadratic = floor_div(387_933 * square, 9_958_821_177_600_000_000_000);
    let cubic = floor_div(100 * cube, 121_656_431_289_686_340_096_000_000_000_000);
    let total: i128 = SIDEREAL_AT_J2000 as i128 + rotation + quadratic - cubic;
    let turns = floor_div(total, FULL_TURN as i128);
    proof {
        lemma_fundamental_div_mod(total as int, FULL_TURN as int);
        assert(0 <= (total as int) % (FULL_TURN as int) < FULL_TURN);
    }
    Some((total - turns * (FULL_TURN as i128)) as i64)
}

} // verus!
