//! Propagation results: the inertial position and velocity of a satellite
//! at one instant, and what is derived from them.
//!
//! The propagation model itself is a numeric subroutine outside this crate.
//! It hands over its outcome as integer vectors: positions in metres,
//! velocities in millimetres per second.

use vstd::prelude::*;
use crate::error::OrbitError;
use crate::geodetic::GeodeticFix;
use crate::units::{is_latitude, is_longitude};

verus! {

/// Smallest distance from the Earth's centre at which a satellite in orbit
/// is plausible, in metres.
pub const MIN_ORBIT_RADIUS_M: u64 = 6_400_000;

/// Largest distance from the Earth's centre at which a satellite between
/// low and geostationary orbit is plausible, in metres.
pub const MAX_ORBIT_RADIUS_M: u64 = 45_000_000;

/// A vector in the inertial frame.
#[derive(Clone, Copy, Debug, PartialEq, Eq, Structural)]
pub struct Vector3 {
    pub x: i64,
    pub y: i64,
    pub z: i64,
}

/// Position in metres and velocity in millimetres per second.
#[derive(Clone, Copy, Debug, PartialEq, Eq, Structural)]
pub struct InertialState {
    pub position: Vector3,
    pub velocity: Vector3,
}

/// The state of a satellite at the instant it was asked for.
#[derive(Clone, Copy, Debug, PartialEq, Eq, Structural)]
pub struct PropagationResult {
    pub instant: i64,
    pub position: Vector3,
    pub velocity: Vector3,
}

/// Where a satellite is at one instant, for display.
#[derive(Clone, Debug)]
pub struct SatellitePosition {
    pub id: String,
    pub name: String,
    pub latitude: i64,
    pub longitude: i64,
    pub altitude_m: i64,
    pub speed_mm_s: u64,
    pub timestamp: i64,
}

/// Whether `root` is the square root of `n`, rounded down.
pub open spec fn is_floor_sqrt(root: int, n: int) -> bool {
    0 <= root && root * root <= n < (root + 1) * (root + 1)
}

impl Vector3 {
    /// The square of the vector's length.
    pub open spec fn norm_squared(self) -> int {
        self.x * self.x + self.y * self.y + self.z * self.z
    }
}

/// The square root of `n`, rounded down.
pub fn integer_sqrt(n: u128) -> (root: u64)
    ensures
        is_floor_sqrt(root as int, n as int),
{
    let mut low: u128 = 0;
    let mut high: u128 = 0x1_0000_0000_0000_0000;
    assert(high * high > n) by (nonlinear_arith)
        requires
            high == 0x1_0000_0000_0000_0000,
            n <= u128::MAX,
    ;
    while high - low > 1
        invariant
            low < high <= 0x1_0000_0000_0000_0000,
            low * low <= n < high * high,
        decreases high - low,
    {
        let middle: u128 = low + (high - low) / 2;
        assert(middle * middle <= u128::MAX) by (nonlinear_arith)
            requires
                middle <= 0xFFFF_FFFF_FFFF_FFFF,
        ;
        if middle * middle <= n {
            low = middle;
        } else {
            high = middle;
        }
    }
    low as u64
}

fn magnitude_of(c: i64) -> (m: u128)
    ensures
        m * m == c * c,
        m <= 0x8000_0000_0000_0000,
{
    let wide: i128 = c as i128;
    let m: u128 = if wide < 0 {
        (-wide) as u128
    } else {
        wide as u128
    };
    assert(m * m == c * c) by (nonlinear_arith)
        requires
            m == c || m == -c,
    ;
    m
}

/// The length of a vector, rounded down, in the unit of its components.
pub fn magnitude(v: &Vector3) -> (m: u64)
    ensures
        is_floor_sqrt(m as int, v.norm_squared()),
{
    let x = magnitude_of(v.x);
    let y = magnitude_of(v.y);
    let z = magnitude_of(v.z);
    assert(x * x <= 0x4000_0000_0000_0000_0000_0000_0000_0000) by (nonlinear_arith)
        requires
            x <= 0x8000_0000_0000_0000,
    ;
    assert(y * y <= 0x4000_0000_0000_0000_0000_0000_0000_0000) by (nonlinear_arith)
        requires
            y <= 0x8000_0000_0000_0000,
    ;
    assert(z * z <= 0x4000_0000_0000_0000_0000_0000_0000_0000) by (nonlinear_arith)
        requires
            z <= 0x8000_0000_0000_0000,
    ;
    integer_sqrt(x * x + y * y + z * z)
}

/// Whether a distance from the Earth's centre is plausible for a satellite
/// between low and geostationary orbit.
pub fn is_plausible_radius(radius_m: u64) -> (r: bool)
    ensures
        r == (MIN_ORBIT_RADIUS_M <= radius_m <= MAX_ORBIT_RADIUS_M),
{
    MIN_ORBIT_RADIUS_M <= radius_m && radius_m <= MAX_ORBIT_RADIUS_M
}

/// Turns the outcome of the propagation model into a result tagged with
/// the instant it was asked for. Where the model rejected the elements the
/// failure is reported as such: no default or zero state stands in for it.
pub fn propagation_result(instant: i64, outcome: Option<InertialState>) -> (r: Result<
    PropagationResult,
    OrbitError,
>)
    ensures
        r == (match outcome {
            Some(state) => Ok(
                PropagationResult {
                    instant,
                    position: state.position,
                    velocity: state.velocity,
                },
            ),
            None => Err(OrbitError::PropagationFailed),
        }),
{
    match outcome {
        Some(state) => Ok(
            PropagationResult { instant, position: state.position, velocity: state.velocity },
        ),
        None => Err(OrbitError::PropagationFailed),
    }
}

/// Describes where the satellite `id` is at `timestamp`: the fix below it
/// and its speed, the length of `velocity`.
pub fn propagate_position(
    id: &str,
    name: &str,
    timestamp: i64,
    fix: &GeodeticFix,
    velocity: &Vector3,
) -> (position: SatellitePosition)
    ensures
        position.id@ == id@,
        position.name@ == name@,
        position.latitude == fix.spec_latitude(),
        position.longitude == fix.spec_longitude(),
        position.altitude_m == fix.spec_altitude(),
        is_latitude(position.latitude as int),
        is_longitude(position.longitude as int),
        is_floor_sqrt(position.speed_mm_s as int, velocity.norm_squared()),
        position.timestamp == timestamp,
{
    SatellitePosition {
        id: id.to_owned(),
        name: name.to_owned(),
        latitude: fix.latitude(),
        longitude: fix.longitude(),
        altitude_m: fix.altitude_m(),
        speed_mm_s: magnitude(velocity),
        timestamp,
    }
}

/// Speed in whole kilometres per hour for a speed in millimetres per
/// second.
pub fn speed_km_per_h(speed_mm_s: u64) -> (r: u64)
    ensures
        r == speed_mm_s * 3_600 / 1_000_000,
{
    ((speed_mm_s as u128) * 3_600 / 1_000_000) as u64
}

/// A number has one square root rounded down.
pub proof fn lemma_floor_sqrt_unique(a: int, b: int, n: int)
    requires
        is_floor_sqrt(a, n),
        is_floor_sqrt(b, n),
    ensures
        a == b,
{
    if a < b {
        assert((a + 1) * (a + 1) <= b * b) by (nonlinear_arith)
            requires
                0 <= a + 1 <= b,
        ;
    } else if b < a {
        assert((b + 1) * (b + 1) <= a * a) by (nonlinear_arith)
            requires
                0 <= b + 1 <= a,
        ;
    }
}

} // verus!
