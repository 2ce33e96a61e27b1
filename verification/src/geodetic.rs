//! Earth-fixed positions on a spherical Earth.
//!
//! The Earth is a sphere of fixed radius. No oblateness correction is made:
//! altitudes and latitudes are those of the sphere, which bounds the
//! precision of every position this crate produces.

use vstd::prelude::*;
use crate::units::{
    is_latitude, is_longitude, normalize_angle, normalize_longitude, wrap_longitude,
    EARTH_RADIUS_M, HALF_TURN, QUARTER_TURN,
};

verus! {

/// A point above the spherical Earth: latitude and longitude in
/// micro-degrees, altitude in metres above the sphere's surface.
///
/// Every value of this type has its latitude between the poles and its
/// longitude in the canonical range.
#[derive(Clone, Copy, Debug)]
pub struct GeodeticFix {
    latitude: i64,
    longitude: i64,
    altitude_m: i64,
}

/// A point on the ground: latitude and longitude in micro-degrees.
#[derive(Clone, Copy, Debug, PartialEq, Eq, Structural)]
pub struct GroundPoint {
    pub latitude: i64,
    pub longitude: i64,
}

/// Latitude and longitude of a ground site, in micro-degrees.
#[derive(Clone, Copy, Debug, PartialEq, Eq, Structural)]
pub struct ObserverLocation {
    pub latitude: i64,
    pub longitude: i64,
}

/// Whether a ground point lies on the globe: its latitude between the
/// poles, its longitude within half a turn of the prime meridian, both ends
/// included.
pub open spec fn on_globe(p: GroundPoint) -> bool {
    is_latitude(p.latitude as int) && -(HALF_TURN as int) <= p.longitude <= HALF_TURN as int
}

impl GeodeticFix {
    #[verifier::type_invariant]
    pub closed spec fn well_formed(self) -> bool {
        is_latitude(self.latitude as int) && is_longitude(self.longitude as int)
    }

    pub closed spec fn spec_latitude(self) -> i64 {
        self.latitude
    }

    pub closed spec fn spec_longitude(self) -> i64 {
        self.longitude
    }

    pub closed spec fn spec_altitude(self) -> i64 {
        self.altitude_m
    }

    /// The point on the ground below the fix.
    pub open spec fn spec_ground_point(self) -> GroundPoint {
        GroundPoint { latitude: self.spec_latitude(), longitude: self.spec_longitude() }
    }

    /// Makes a fix. The longitude may be any angle and is brought into the
    /// canonical range; a latitude beyond a pole is refused.
    pub fn new(latitude: i64, longitude: i64, altitude_m: i64) -> (r: Option<GeodeticFix>)
        ensures
            r is Some <==> is_latitude(latitude as int),
            r matches Some(f) ==> f.spec_latitude() == latitude && f.spec_longitude()
                == wrap_longitude(longitude as int) && f.spec_altitude() == altitude_m,
            r matches Some(f) ==> is_latitude(f.spec_latitude() as int) && is_longitude(
                f.spec_longitude() as int,
            ),
    {
        if latitude < -QUARTER_TURN || latitude > QUARTER_TURN {
            None
        } else {
            Some(GeodeticFix { latitude, longitude: normalize_longitude(longitude), altitude_m })
        }
    }

    /// Latitude in micro-degrees, never beyond a pole.
    pub fn latitude(&self) -> (r: i64)
        ensures
            r == self.spec_latitude(),
            is_latitude(r as int),
    {
        proof {
            use_type_invariant(self);
        }
        self.latitude
    }

    /// Longitude in micro-degrees, always canonical.
    pub fn longitude(&self) -> (r: i64)
        ensures
            r == self.spec_longitude(),
            is_longitude(r as int),
    {
        proof {
            use_type_invariant(self);
        }
        self.longitude
    }

    /// Altitude above the sphere, in metres.
    pub fn altitude_m(&self) -> (r: i64)
        ensures
            r == self.spec_altitude(),
    {
        self.altitude_m
    }

    /// The point on the ground below the fix. It lies on the globe.
    pub fn ground_point(&self) -> (p: GroundPoint)
        ensures
            p == self.spec_ground_point(),
            on_globe(p),
            is_longitude(p.longitude as int),
    {
        proof {
            use_type_invariant(self);
        }
        GroundPoint { latitude: self.latitude, longitude: self.longitude }
    }
}

impl ObserverLocation {
    /// Makes an observer's location. Coordinates off the globe are refused.
    pub fn new(latitude: i64, longitude: i64) -> (r: Option<ObserverLocation>)
        ensures
            r == (if on_globe(GroundPoint { latitude, longitude }) {
                Some(ObserverLocation { latitude, longitude })
            } else {
                None
            }),
    {
        if latitude < -QUARTER_TURN || latitude > QUARTER_TURN || longitude < -HALF_TURN
            || longitude > HALF_TURN {
            None
        } else {
            Some(ObserverLocation { latitude, longitude })
        }
    }
}

/// Whether an altitude of `radius_m - EARTH_RADIUS_M` can be held.
pub open spec fn altitude_fits(radius_m: u64) -> bool {
    radius_m - EARTH_RADIUS_M <= i64::MAX
}

/// Turns a direction in the inertial frame into a fix on the rotating
/// Earth.
///
/// `right_ascension` is the angle of the position in the equatorial plane,
/// `declination` its angle above that plane, `radius_m` its distance from
/// the Earth's centre, and `sidereal_angle` the rotation of the Earth at
/// the instant. The longitude is the right ascension less the sidereal
/// angle, brought into the canonical range; the latitude is the
/// declination; the altitude is the radius less the Earth's radius.
pub fn inertial_to_geodetic(
    right_ascension: i64,
    declination: i64,
    radius_m: u64,
    sidereal_angle: i64,
) -> (r: Option<GeodeticFix>)
    ensures
        r is Some <==> is_latitude(declination as int) && altitude_fits(radius_m),
        r matches Some(f) ==> f.spec_latitude() == declination && f.spec_longitude()
            == wrap_longitude(right_ascension - sidereal_angle) && f.spec_altitude() == radius_m
            - EARTH_RADIUS_M,
        r matches Some(f) ==> is_latitude(f.spec_latitude() as int) && is_longitude(
            f.spec_longitude() as int,
        ),
{
    if declination < -QUARTER_TURN || declination > QUARTER_TURN {
        return None;
    }
    let altitude: i128 = radius_m as i128 - EARTH_RADIUS_M as i128;
    if altitude > i64::MAX as i128 {
        return None;
    }
    let longitude = normalize_angle(right_ascension as i128 - sidereal_angle as i128);
    Some(GeodeticFix { latitude: declination, longitude, altitude_m: altitude as i64 })
}

} // verus!
