//! Ground tracks: the path of a satellite over the ground during one
//! window, sampled at a fixed cadence.

use vstd::prelude::*;
use crate::geodetic::{on_globe, GeodeticFix, GroundPoint};
use crate::units::is_longitude;

verus! {

/// Cadence at which a track is sampled when the caller names none, in
/// seconds.
pub const TRACK_STEP_SECONDS: i64 = 30;

/// Length of the window that covers one revolution of a near-circular low
/// orbit, in minutes.
pub const LOW_ORBIT_PERIOD_MINUTES: i64 = 92;

/// The ground track of one satellite over one window.
#[derive(Clone, Debug)]
pub struct OrbitTrack {
    pub satellite_id: String,
    pub points: Vec<GroundPoint>,
}

/// The ground points of the samples that have a fix, in their order. A
/// sample without a fix leaves a gap.
pub open spec fn track_points(fixes: Seq<Option<GeodeticFix>>) -> Seq<GroundPoint>
    decreases fixes.len(),
{
    if fixes.len() == 0 {
        Seq::empty()
    } else {
        let before = track_points(fixes.drop_last());
        match fixes.last() {
            Some(f) => before.push(f.spec_ground_point()),
            None => before,
        }
    }
}

/// Whether every point lies on the globe with a canonical longitude.
pub open spec fn all_canonical(points: Seq<GroundPoint>) -> bool {
    forall|i: int|
        0 <= i < points.len() ==> on_globe(#[trigger] points[i]) && is_longitude(
            points[i].longitude as int,
        )
}

/// Assembles the ground track of the satellite `id` from one sample per
/// instant of the window. A sample is `None` where the position could not
/// be computed; such a sample is skipped and the rest of the track stands.
pub fn predict_orbit_track(id: &str, fixes: &Vec<Option<GeodeticFix>>) -> (track: OrbitTrack)
    ensures
        track.satellite_id@ == id@,
        track.points@ == track_points(fixes@),
        track.points@.len() <= fixes@.len(),
        all_canonical(track.points@),
{
    let mut points: Vec<GroundPoint> = Vec::new();
    let mut i: usize = 0;
    while i < fixes.len()
        invariant
            i <= fixes.len(),
            points@ == track_points(fixes@.take(i as int)),
            points@.len() <= i,
            all_canonical(points@),
        decreases fixes.len() - i,
    {
        proof {
            assert(fixes@.take(i + 1).drop_last() =~= fixes@.take(i as int));
        }
        match fixes[i] {
            Some(f) => {
                points.push(f.ground_point());
            },
            None => {},
        }
        i += 1;
    }
    proof {
        assert(fixes@.take(i as int) =~= fixes@);
    }
    OrbitTrack { satellite_id: id.to_owned(), points }
}

/// A track in which every sample has a fix has one point per sample.
pub proof fn lemma_full_track(fixes: Seq<Option<GeodeticFix>>)
    requires
        forall|i: int| 0 <= i < fixes.len() ==> (#[trigger] fixes[i]) is Some,
    ensures
        track_points(fixes).len() == fixes.len(),
        forall|i: int|
            0 <= i < fixes.len() ==> #[trigger] track_points(fixes)[i]
                == fixes[i]->0.spec_ground_point(),
    decreases fixes.len(),
{
    if fixes.len() > 0 {
        let before = fixes.drop_last();
        assert forall|i: int| 0 <= i < before.len() implies (#[trigger] before[i]) is Some by {
            assert(before[i] == fixes[i]);
        }
        lemma_full_track(before);
        assert forall|i: int| 0 <= i < fixes.len() implies #[trigger] track_points(fixes)[i]
            == fixes[i]->0.spec_ground_point() by {
            if i < before.len() {
                assert(before[i] == fixes[i]);
                assert(track_points(fixes)[i] == track_points(before)[i]);
            }
        }
    }
}

} // verus!
