//! The solar terminator: the line between day and night, closed around the
//! pole that lies in darkness so that the polygon covers the night side.

use vstd::prelude::*;
use crate::geodetic::{on_globe, GroundPoint};
use crate::units::{is_latitude, HALF_TURN, MICRODEGREES_PER_DEGREE, QUARTER_TURN};

verus! {

/// Number of points on the terminator line: one per whole degree of
/// longitude from half a turn west through half a turn east.
pub const TERMINATOR_LINE_POINTS: usize = 361;

/// Number of points of the closed polygon: the line and two corners at the
/// dark pole.
pub const TERMINATOR_POINTS: usize = 363;

/// Longitude of the `i`-th point of the terminator line, in micro-degrees.
pub open spec fn spec_line_longitude(i: int) -> int {
    -(HALF_TURN as int) + i * (MICRODEGREES_PER_DEGREE as int)
}

/// Latitude of the pole that lies in darkness: the south pole while the
/// sun stands over the northern hemisphere or the equator, else the north
/// pole.
pub open spec fn spec_dark_pole(declination: int) -> int {
    if declination >= 0 {
        -(QUARTER_TURN as int)
    } else {
        QUARTER_TURN as int
    }
}

/// Whether `polygon` is the terminator for a sun at `declination` whose
/// line runs through `latitudes`.
pub open spec fn is_terminator(
    polygon: Seq<GroundPoint>,
    declination: int,
    latitudes: Seq<i64>,
) -> bool {
    &&& polygon.len() == TERMINATOR_POINTS
    &&& forall|i: int|
        0 <= i < TERMINATOR_LINE_POINTS ==> (#[trigger] polygon[i]).latitude == latitudes[i]
            && polygon[i].longitude == spec_line_longitude(i)
    &&& polygon[361].latitude == spec_dark_pole(declination)
    &&& polygon[361].longitude == HALF_TURN
    &&& polygon[362].latitude == spec_dark_pole(declination)
    &&& polygon[362].longitude == -(HALF_TURN as int)
}

/// Longitude of the `i`-th point of the terminator line.
pub fn line_longitude(i: usize) -> (r: i64)
    requires
        i < TERMINATOR_LINE_POINTS,
    ensures
        r == spec_line_longitude(i as int),
        -(HALF_TURN as int) <= r <= HALF_TURN,
{
    -HALF_TURN + (i as i64) * MICRODEGREES_PER_DEGREE
}

/// Latitude of the pole that lies in darkness for a sun at `declination`.
pub fn dark_pole(declination: i64) -> (r: i64)
    ensures
        r == spec_dark_pole(declination as int),
        is_latitude(r as int),
{
    if declination >= 0 {
        -QUARTER_TURN
    } else {
        QUARTER_TURN
    }
}

/// The latitudes of the terminator line, one per point of the line, west
/// to east. Every value of this type holds [`TERMINATOR_LINE_POINTS`]
/// latitudes, none beyond a pole.
pub struct TerminatorLine {
    latitudes: Vec<i64>,
}

/// Whether `latitudes` can be the latitudes of a terminator line.
pub open spec fn is_line(latitudes: Seq<i64>) -> bool {
    &&& latitudes.len() == TERMINATOR_LINE_POINTS
    &&& forall|i: int| 0 <= i < latitudes.len() ==> is_latitude(#[trigger] latitudes[i] as int)
}

impl TerminatorLine {
    #[verifier::type_invariant]
    pub closed spec fn well_formed(self) -> bool {
        is_line(self.latitudes@)
    }

    /// The latitudes, west to east.
    pub closed spec fn view(self) -> Seq<i64> {
        self.latitudes@
    }

    /// Takes the latitudes of a line. They are refused unless there is one
    /// per point of the line and none lies beyond a pole.
    pub fn new(latitudes: Vec<i64>) -> (r: Option<TerminatorLine>)
        ensures
            r is Some <==> is_line(latitudes@),
            r matches Some(line) ==> line@ == latitudes@,
    {
        if latitudes.len() != TERMINATOR_LINE_POINTS {
            return None;
        }
        let mut i: usize = 0;
        while i < latitudes.len()
            invariant
                i <= latitudes.len(),
                forall|k: int| 0 <= k < i ==> is_latitude(#[trigger] latitudes@[k] as int),
            decreases latitudes.len() - i,
        {
            if latitudes[i] < -QUARTER_TURN || latitudes[i] > QUARTER_TURN {
                return None;
            }
            i += 1;
        }
        Some(TerminatorLine { latitudes })
    }
}

/// Builds the terminator polygon for a sun at `declination` from the
/// latitudes of the line.
///
/// The polygon always has [`TERMINATOR_POINTS`] points: the line, west to
/// east at whole degrees of longitude, then two corners at the dark pole,
/// the eastern one first. Every point lies on the globe.
pub fn calculate_terminator_at(declination: i64, line: &TerminatorLine) -> (polygon: Vec<GroundPoint>)
    ensures
        is_terminator(polygon@, declination as int, line@),
        polygon@.len() == TERMINATOR_POINTS,
        forall|i: int| 0 <= i < polygon@.len() ==> on_globe(#[trigger] polygon@[i]),
{
    proof {
        use_type_invariant(line);
    }
    let mut polygon: Vec<GroundPoint> = Vec::new();
    let mut i: usize = 0;
    while i < TERMINATOR_LINE_POINTS
        invariant
            i <= TERMINATOR_LINE_POINTS,
            is_line(line.latitudes@),
            polygon@.len() == i,
            forall|k: int|
                0 <= k < i ==> (#[trigger] polygon@[k]).latitude == line.latitudes@[k]
                    && polygon@[k].longitude == spec_line_longitude(k) && on_globe(polygon@[k]),
        decreases TERMINATOR_LINE_POINTS - i,
    {
        polygon.push(GroundPoint { latitude: line.latitudes[i], longitude: line_longitude(i) });
        i += 1;
    }
    let pole = dark_pole(declination);
    polygon.push(GroundPoint { latitude: pole, longitude: HALF_TURN });
    polygon.push(GroundPoint { latitude: pole, longitude: -HALF_TURN });
    polygon
}

} // verus!
