//! Units and named constants shared by the whole crate.

use vstd::prelude::*;

verus! {

/// Micro-degrees in one degree.
pub const MICRODEGREES_PER_DEGREE: i64 = 1_000_000;

/// A full turn, 360 degrees, in micro-degrees.
pub const FULL_TURN: i64 = 360_000_000;

/// Half a turn, 180 degrees, in micro-degrees.
pub const HALF_TURN: i64 = 180_000_000;

/// A quarter turn, 90 degrees, in micro-degrees.
pub const QUARTER_TURN: i64 = 90_000_000;

/// Radius of the spherical Earth model, in metres.
pub const EARTH_RADIUS_M: i64 = 6_371_000;

/// Seconds in one minute.
pub const SECONDS_PER_MINUTE: i64 = 60;

/// Seconds in one hour.
pub const SECONDS_PER_HOUR: i64 = 3_600;

/// Seconds in one day.
pub const SECONDS_PER_DAY: i64 = 86_400;

/// Whether `angle` is a latitude: between a quarter turn south and a
/// quarter turn north, both included.
pub open spec fn is_latitude(angle: int) -> bool {
    -(QUARTER_TURN as int) <= angle <= QUARTER_TURN as int
}

/// Whether `angle` is a canonical longitude: above half a turn west and at
/// most half a turn east.
pub open spec fn is_longitude(angle: int) -> bool {
    -(HALF_TURN as int) < angle <= HALF_TURN as int
}

/// Whether two angles differ by a whole number of turns.
pub open spec fn same_direction(a: int, b: int) -> bool {
    (a - b) % (FULL_TURN as int) == 0
}

/// The canonical longitude that points the same way as `angle`.
pub open spec fn wrap_longitude(angle: int) -> int {
    HALF_TURN as int - (HALF_TURN as int - angle) % (FULL_TURN as int)
}

/// Brings an angle into the canonical longitude range without changing the
/// direction it names. Half a turn west comes out as half a turn east.
pub fn normalize_longitude(angle: i64) -> (r: i64)
    ensures
        r == wrap_longitude(angle as int),
        is_longitude(r as int),
        same_direction(r as int, angle as int),
{
    normalize_angle(angle as i128)
}

/// [`normalize_longitude`] for an angle that was computed in wider
/// arithmetic, such as the difference of two angles.
pub(crate) fn normalize_angle(angle: i128) -> (r: i64)
    requires
        -0x2_0000_0000_0000_0000 <= angle <= 0x2_0000_0000_0000_0000,
    ensures
        r == wrap_longitude(angle as int),
        is_longitude(r as int),
        same_direction(r as int, angle as int),
{
    let m = floor_mod(HALF_TURN as i128 - angle, FULL_TURN as i128);
    proof {
        lemma_wrap_same_direction(angle as int);
    }
    (HALF_TURN as i128 - m) as i64
}

/// Quotient of `a` by a positive `b`, rounded down.
pub fn floor_div(a: i128, b: i128) -> (q: i128)
    requires
        b > 0,
    ensures
        q == a / b,
{
    if a >= 0 {
        a / b
    } else {
        let m: i128 = -(a + 1);
        let q: i128 = m / b;
        proof {
            vstd::arithmetic::div_mod::lemma_fundamental_div_mod(m as int, b as int);
            let r = (m as int) % (b as int);
            assert((-(q as int) - 1) * b == -(b * q) - b) by (nonlinear_arith);
            vstd::arithmetic::div_mod::lemma_fundamental_div_mod_converse(
                a as int,
                b as int,
                -(q as int) - 1,
                b - 1 - r,
            );
        }
        -q - 1
    }
}

/// Remainder of `a` by a positive `b`, from zero up to `b`.
pub fn floor_mod(a: i128, b: i128) -> (r: i128)
    requires
        b > 0,
    ensures
        r == a % b,
        0 <= r < b,
{
    let t: i128 = a % b;
    proof {
        lemma_remainder_of_truncated(a as int, b as int, t as int);
    }
    if t < 0 {
        t + b
    } else {
        t
    }
}

proof fn lemma_remainder_of_truncated(a: int, d: int, t: int)
    requires
        d > 0,
        t == (if a >= 0 {
            a % d
        } else {
            -((-a) % d)
        }),
    ensures
        -d < t < d,
        a % d == (if t < 0 {
            t + d
        } else {
            t
        }),
{
    vstd::arithmetic::div_mod::lemma_mod_bound(a, d);
    vstd::arithmetic::div_mod::lemma_mod_bound(-a, d);
    if a < 0 {
        vstd::arithmetic::div_mod::lemma_fundamental_div_mod(-a, d);
        let q = (-a) / d;
        let r = (-a) % d;
        assert((-q) * d == -(d * q)) by (nonlinear_arith);
        assert((-q - 1) * d == -(d * q) - d) by (nonlinear_arith);
        if r == 0 {
            vstd::arithmetic::div_mod::lemma_fundamental_div_mod_converse(a, d, -q, 0);
        } else {
            vstd::arithmetic::div_mod::lemma_fundamental_div_mod_converse(a, d, -q - 1, d - r);
        }
    }
}

/// Wrapping keeps the direction and lands in the canonical range.
pub proof fn lemma_wrap_same_direction(angle: int)
    ensures
        is_longitude(wrap_longitude(angle)),
        same_direction(wrap_longitude(angle), angle),
{
    let f = FULL_TURN as int;
    let t = HALF_TURN as int - angle;
    vstd::arithmetic::div_mod::lemma_fundamental_div_mod(t, f);
    let q = t / f;
    assert(wrap_longitude(angle) - angle == f * q);
    assert(f * q == q * f) by (nonlinear_arith);
    vstd::arithmetic::div_mod::lemma_fundamental_div_mod_converse(f * q, f, q, 0);
}

/// A canonical longitude is left as it is, so that normalizing twice is
/// normalizing once.
pub proof fn lemma_wrap_is_idempotent(angle: int)
    ensures
        is_longitude(angle) ==> wrap_longitude(angle) == angle,
        wrap_longitude(wrap_longitude(angle)) == wrap_longitude(angle),
{
    let f = FULL_TURN as int;
    lemma_wrap_same_direction(angle);
    let w = wrap_longitude(angle);
    vstd::arithmetic::div_mod::lemma_fundamental_div_mod_converse(
        HALF_TURN as int - w,
        f,
        0,
        HALF_TURN as int - w,
    );
    if is_longitude(angle) {
        vstd::arithmetic::div_mod::lemma_fundamental_div_mod_converse(
            HALF_TURN as int - angle,
            f,
            0,
            HALF_TURN as int - angle,
        );
    }
}

} // verus!
