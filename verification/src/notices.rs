//! The rules by which events are announced: which earthquakes, which
//! close approaches, which flares and which mass ejections, and that none
//! is announced twice.
//!
//! Magnitudes and lunar distances are in thousandths, distances in metres,
//! instants in milliseconds since the Unix epoch.

use vstd::prelude::*;
use crate::idset::IdSet;
use crate::models::{approach_is_imminent, spec_is_imminent, spec_is_strong, SolarFlare};
use crate::text::{chars_of, string_of};

verus! {

/// How old an earthquake may be to be announced, in milliseconds.
pub const RECENT_MS: i64 = 300_000;

/// How long an announced earthquake is remembered, in milliseconds.
pub const REMEMBER_MS: i64 = 3_600_000;

/// Magnitude from which an earthquake nearby is announced, in thousandths.
pub const NEARBY_MAGNITUDE: i64 = 3_000;

/// Miss distance below which a hazardous object is announced, in
/// thousandths of the distance to the moon.
pub const CLOSE_MISS_LUNAR: i64 = 20_000;

/// Number of characters of a peak time that are shown.
pub const PEAK_DISPLAY_LENGTH: usize = 16;

/// What is known of an earthquake when it is considered for an
/// announcement: its distance is that from the user.
#[derive(Clone, Debug)]
pub struct QuakeFacts {
    pub id: String,
    pub time_ms: i64,
    pub magnitude: i64,
    pub distance_m: i64,
}

/// The user's thresholds for earthquakes.
#[derive(Clone, Copy, Debug, PartialEq, Eq, Structural)]
pub struct QuakeRules {
    pub min_magnitude: i64,
    pub proximity_m: i64,
}

/// How an earthquake is announced.
#[derive(Clone, Copy, Debug, PartialEq, Eq, Structural)]
pub enum QuakeNotice {
    /// It lies within the user's proximity radius.
    Nearby,
    /// It lies farther away.
    Distant,
}

/// The announcement of the earthquake at `index`.
#[derive(Clone, Copy, Debug, PartialEq, Eq, Structural)]
pub struct QuakeAlert {
    pub index: usize,
    pub notice: QuakeNotice,
}

/// What one round of announcements leaves: the identifiers that count as
/// announced, and the announcements made.
pub struct Round<A> {
    pub notified: Set<Seq<char>>,
    pub alerts: Seq<A>,
}

/// How an earthquake is announced, if at all. It is announced when it
/// reaches the user's magnitude threshold, or when it reaches
/// [`NEARBY_MAGNITUDE`] within the user's proximity radius.
pub open spec fn spec_quake_notice(magnitude: i64, distance_m: i64, rules: QuakeRules) -> Option<
    QuakeNotice,
> {
    if magnitude >= rules.min_magnitude || (magnitude >= NEARBY_MAGNITUDE && distance_m
        <= rules.proximity_m) {
        if distance_m <= rules.proximity_m {
            Some(QuakeNotice::Nearby)
        } else {
            Some(QuakeNotice::Distant)
        }
    } else {
        None
    }
}

/// Whether an event at `time_ms` is recent enough at `now_ms` to be
/// announced.
pub open spec fn is_recent(time_ms: int, now_ms: int) -> bool {
    now_ms - time_ms <= RECENT_MS
}

/// The identifiers of the earthquakes that are still remembered at
/// `now_ms`.
pub open spec fn remembered_ids(quakes: Seq<QuakeFacts>, now_ms: int) -> Set<Seq<char>>
    decreases quakes.len(),
{
    if quakes.len() == 0 {
        Set::empty()
    } else {
        let before = remembered_ids(quakes.drop_last(), now_ms);
        if quakes.last().time_ms > now_ms - REMEMBER_MS {
            before.insert(quakes.last().id@)
        } else {
            before
        }
    }
}

/// The round after the first `n` earthquakes were considered. Before the
/// first, the identifiers that are no longer remembered are forgotten. An
/// earthquake is passed over when it is not recent or counts as announced;
/// one that is announced counts as announced from then on.
pub open spec fn quake_round(
    notified: Set<Seq<char>>,
    quakes: Seq<QuakeFacts>,
    rules: QuakeRules,
    now_ms: int,
    n: int,
) -> Round<QuakeAlert>
    decreases n,
{
    if n <= 0 {
        Round { notified: notified.intersect(remembered_ids(quakes, now_ms)), alerts: Seq::empty() }
    } else {
        let before = quake_round(notified, quakes, rules, now_ms, n - 1);
        let q = quakes[n - 1];
        if !is_recent(q.time_ms as int, now_ms) || before.notified.contains(q.id@) {
            before
        } else {
            match spec_quake_notice(q.magnitude, q.distance_m, rules) {
                Some(notice) => Round {
                    notified: before.notified.insert(q.id@),
                    alerts: before.alerts.push(QuakeAlert { index: (n - 1) as usize, notice }),
                },
                None => before,
            }
        }
    }
}

/// How an earthquake is announced, if at all.
pub fn quake_notice(magnitude: i64, distance_m: i64, rules: &QuakeRules) -> (r: Option<QuakeNotice>)
    ensures
        r == spec_quake_notice(magnitude, distance_m, *rules),
{
    if magnitude >= rules.min_magnitude || (magnitude >= NEARBY_MAGNITUDE && distance_m
        <= rules.proximity_m) {
        if distance_m <= rules.proximity_m {
            Some(QuakeNotice::Nearby)
        } else {
            Some(QuakeNotice::Distant)
        }
    } else {
        None
    }
}

/// Decides which of the earthquakes are announced now, and keeps book of
/// what counts as announced.
pub fn earthquake_alerts(
    notified: &mut IdSet,
    quakes: &Vec<QuakeFacts>,
    rules: &QuakeRules,
    now_ms: i64,
) -> (alerts: Vec<QuakeAlert>)
    ensures
        (Round { notified: final(notified)@, alerts: alerts@ }) == quake_round(
            old(notified)@,
            quakes@,
            *rules,
            now_ms as int,
            quakes@.len() as int,
        ),
{
    let mut remembered = IdSet::new();
    let mut k: usize = 0;
    while k < quakes.len()
        invariant
            k <= quakes.len(),
            remembered@ == remembered_ids(quakes@.take(k as int), now_ms as int),
        decreases quakes.len() - k,
    {
        proof {
            assert(quakes@.take(k + 1).drop_last() =~= quakes@.take(k as int));
        }
        if (quakes[k].time_ms as i128) > (now_ms as i128) - (REMEMBER_MS as i128) {
            remembered.insert(quakes[k].id.as_str());
        }
        k += 1;
    }
    proof {
        assert(quakes@.take(k as int) =~= quakes@);
    }
    notified.retain_in(&remembered);

    let mut alerts: Vec<QuakeAlert> = Vec::new();
    let mut i: usize = 0;
    while i < quakes.len()
        invariant
            i <= quakes.len(),
            (Round { notified: notified@, alerts: alerts@ }) == quake_round(
                old(notified)@,
                quakes@,
                *rules,
                now_ms as int,
                i as int,
            ),
        decreases quakes.len() - i,
    {
        let q = &quakes[i];
        let recent = (now_ms as i128) - (q.time_ms as i128) <= RECENT_MS as i128;
        if recent && !notified.contains(q.id.as_str()) {
            match quake_notice(q.magnitude, q.distance_m, rules) {
                Some(notice) => {
                    alerts.push(QuakeAlert { index: i, notice });
                    notified.insert(q.id.as_str());
                },
                None => {},
            }
        }
        i += 1;
    }
    alerts
}

/// The first place at which a distance does not exceed the radius that
/// goes with it.
pub open spec fn is_first_within(distances_m: Seq<i64>, radii_m: Seq<i64>, index: int) -> bool {
    &&& 0 <= index < distances_m.len()
    &&& index < radii_m.len()
    &&& distances_m[index] <= radii_m[index]
    &&& forall|k: int| 0 <= k < index ==> #[trigger] distances_m[k] > radii_m[k]
}

/// Whether every distance exceeds the radius that goes with it.
pub open spec fn none_within(distances_m: Seq<i64>, radii_m: Seq<i64>) -> bool {
    forall|k: int|
        0 <= k < distances_m.len() && k < radii_m.len() ==> #[trigger] distances_m[k]
            > radii_m[k]
}

/// The first watchlist whose centre lies within its radius of an
/// earthquake, given the distance of the earthquake from each centre.
pub fn first_within(distances_m: &Vec<i64>, radii_m: &Vec<i64>) -> (r: Option<usize>)
    ensures
        match r {
            Some(i) => is_first_within(distances_m@, radii_m@, i as int),
            None => none_within(distances_m@, radii_m@),
        },
{
    let mut i: usize = 0;
    while i < distances_m.len() && i < radii_m.len()
        invariant
            forall|k: int| 0 <= k < i ==> #[trigger] distances_m@[k] > radii_m@[k],
            i <= distances_m.len(),
            i <= radii_m.len(),
        decreases distances_m.len() - i,
    {
        if distances_m[i] <= radii_m[i] {
            return Some(i);
        }
        i += 1;
    }
    None
}

/// What is known of an earthquake when it is held against the watchlists:
/// `watchlist` is the first watchlist it lies in, if it lies in one.
#[derive(Clone, Debug)]
pub struct WatchFacts {
    pub id: String,
    pub time_ms: i64,
    pub watchlist: Option<usize>,
}

/// The announcement that the earthquake at `index` lies in a watchlist.
#[derive(Clone, Copy, Debug, PartialEq, Eq, Structural)]
pub struct WatchAlert {
    pub index: usize,
    pub watchlist: usize,
}

/// Under which identifier an earthquake counts as announced for the
/// watchlists.
pub open spec fn watch_key(id: Seq<char>) -> Seq<char> {
    "wl:"@ + id
}

/// The round after the first `n` earthquakes were held against the
/// watchlists. One that is recent, lies in a watchlist and does not count
/// as announced is announced once.
pub open spec fn watch_round(
    notified: Set<Seq<char>>,
    quakes: Seq<WatchFacts>,
    now_ms: int,
    n: int,
) -> Round<WatchAlert>
    decreases n,
{
    if n <= 0 {
        Round { notified, alerts: Seq::empty() }
    } else {
        let before = watch_round(notified, quakes, now_ms, n - 1);
        let q = quakes[n - 1];
        if !is_recent(q.time_ms as int, now_ms) || before.notified.contains(watch_key(q.id@)) {
            before
        } else {
            match q.watchlist {
                Some(watchlist) => Round {
                    notified: before.notified.insert(watch_key(q.id@)),
                    alerts: before.alerts.push(WatchAlert { index: (n - 1) as usize, watchlist }),
                },
                None => before,
            }
        }
    }
}

fn key_of(id: &str) -> (key: String)
    ensures
        key@ == watch_key(id@),
{
    let prefix = chars_of("wl:");
    let rest = chars_of(id);
    let mut key = string_of(&prefix, 0, prefix.len());
    let ghost head = key@;
    let mut i: usize = 0;
    proof {
        assert(prefix@.subrange(0, prefix@.len() as int) =~= prefix@);
    }
    while i < rest.len()
        invariant
            i <= rest.len(),
            head == "wl:"@,
            key@ == head + rest@.take(i as int),
        decreases rest.len() - i,
    {
        key.push(rest[i]);
        proof {
            assert(rest@.take(i as int).push(rest@[i as int]) =~= rest@.take(i + 1));
        }
        i += 1;
    }
    proof {
        assert(rest@.take(i as int) =~= rest@);
    }
    key
}

/// Decides which of the earthquakes are announced for the watchlists now.
pub fn watchlist_alerts(notified: &mut IdSet, quakes: &Vec<WatchFacts>, now_ms: i64) -> (alerts:
    Vec<WatchAlert>)
    ensures
        (Round { notified: final(notified)@, alerts: alerts@ }) == watch_round(
            old(notified)@,
            quakes@,
            now_ms as int,
            quakes@.len() as int,
        ),
{
    let mut alerts: Vec<WatchAlert> = Vec::new();
    let mut i: usize = 0;
    while i < quakes.len()
        invariant
            i <= quakes.len(),
            (Round { notified: notified@, alerts: alerts@ }) == watch_round(
                old(notified)@,
                quakes@,
                now_ms as int,
                i as int,
            ),
        decreases quakes.len() - i,
    {
        let q = &quakes[i];
        let recent = (now_ms as i128) - (q.time_ms as i128) <= RECENT_MS as i128;
        if recent {
            let key = key_of(q.id.as_str());
            if !notified.contains(key.as_str()) {
                match q.watchlist {
                    Some(watchlist) => {
                        alerts.push(WatchAlert { index: i, watchlist });
                        notified.insert(key.as_str());
                    },
                    None => {},
                }
            }
        }
        i += 1;
    }
    alerts
}

/// What is known of a near-Earth object when it is considered for an
/// announcement.
#[derive(Clone, Debug)]
pub struct ApproachFacts {
    pub id: String,
    pub is_hazardous: bool,
    pub miss_distance_lunar: i64,
    pub approach_ms: i64,
}

/// The identifiers of the objects.
pub open spec fn approach_ids(objects: Seq<ApproachFacts>) -> Set<Seq<char>>
    decreases objects.len(),
{
    if objects.len() == 0 {
        Set::empty()
    } else {
        approach_ids(objects.drop_last()).insert(objects.last().id@)
    }
}

/// Whether an object is worth an announcement at `now_ms`: it is
/// hazardous, passes closer than [`CLOSE_MISS_LUNAR`], and its approach is
/// imminent.
pub open spec fn is_threat(object: ApproachFacts, now_ms: int) -> bool {
    object.is_hazardous && object.miss_distance_lunar < CLOSE_MISS_LUNAR && spec_is_imminent(
        object.approach_ms as int,
        now_ms,
    )
}

/// The round after the first `n` objects were considered. Before the
/// first, the identifiers of objects that are no longer listed are
/// forgotten.
pub open spec fn approach_round(
    notified: Set<Seq<char>>,
    objects: Seq<ApproachFacts>,
    now_ms: int,
    n: int,
) -> Round<usize>
    decreases n,
{
    if n <= 0 {
        Round { notified: notified.intersect(approach_ids(objects)), alerts: Seq::empty() }
    } else {
        let before = approach_round(notified, objects, now_ms, n - 1);
        let o = objects[n - 1];
        if is_threat(o, now_ms) && !before.notified.contains(o.id@) {
            Round {
                notified: before.notified.insert(o.id@),
                alerts: before.alerts.push((n - 1) as usize),
            }
        } else {
            before
        }
    }
}

/// Decides which of the near-Earth objects are announced now.
pub fn asteroid_alerts(notified: &mut IdSet, objects: &Vec<ApproachFacts>, now_ms: i64) -> (alerts:
    Vec<usize>)
    ensures
        (Round { notified: final(notified)@, alerts: alerts@ }) == approach_round(
            old(notified)@,
            objects@,
            now_ms as int,
            objects@.len() as int,
        ),
{
    let mut listed = IdSet::new();
    let mut k: usize = 0;
    while k < objects.len()
        invariant
            k <= objects.len(),
            listed@ == approach_ids(objects@.take(k as int)),
        decreases objects.len() - k,
    {
        proof {
            assert(objects@.take(k + 1).drop_last() =~= objects@.take(k as int));
        }
        listed.insert(objects[k].id.as_str());
        k += 1;
    }
    proof {
        assert(objects@.take(k as int) =~= objects@);
    }
    notified.retain_in(&listed);

    let mut alerts: Vec<usize> = Vec::new();
    let mut i: usize = 0;
    while i < objects.len()
        invariant
            i <= objects.len(),
            (Round { notified: notified@, alerts: alerts@ }) == approach_round(
                old(notified)@,
                objects@,
                now_ms as int,
                i as int,
            ),
        decreases objects.len() - i,
    {
        let o = &objects[i];
        if o.is_hazardous && o.miss_distance_lunar < CLOSE_MISS_LUNAR && approach_is_imminent(
            o.approach_ms,
            now_ms,
        ) && !notified.contains(o.id.as_str()) {
            alerts.push(i);
            notified.insert(o.id.as_str());
        }
        i += 1;
    }
    alerts
}

/// The identifiers of the flares.
pub open spec fn flare_ids(flares: Seq<SolarFlare>) -> Set<Seq<char>>
    decreases flares.len(),
{
    if flares.len() == 0 {
        Set::empty()
    } else {
        flare_ids(flares.drop_last()).insert(flares.last().id@)
    }
}

/// Whether a flare is to be announced: it is strong and does not count as
/// announced.
pub open spec fn is_news(flare: SolarFlare, notified: Set<Seq<char>>) -> bool {
    spec_is_strong(flare.class_type@) && !notified.contains(flare.id@)
}

/// Decides which flare is announced now: the first strong one that does
/// not count as announced, and no more than that one in a round. The
/// identifiers of flares that are no longer listed are forgotten first.
pub fn flare_alert(notified: &mut IdSet, flares: &Vec<SolarFlare>) -> (r: Option<usize>)
    ensures
        match r {
            Some(i) => {
                &&& 0 <= i < flares@.len()
                &&& is_news(flares@[i as int], old(notified)@.intersect(flare_ids(flares@)))
                &&& forall|k: int|
                    0 <= k < i ==> !is_news(
                        #[trigger] flares@[k],
                        old(notified)@.intersect(flare_ids(flares@)),
                    )
                &&& final(notified)@ == old(notified)@.intersect(flare_ids(flares@)).insert(
                    flares@[i as int].id@,
                )
            },
            None => {
                &&& forall|k: int|
                    0 <= k < flares@.len() ==> !is_news(
                        #[trigger] flares@[k],
                        old(notified)@.intersect(flare_ids(flares@)),
                    )
                &&& final(notified)@ == old(notified)@.intersect(flare_ids(flares@))
            },
        },
{
    let mut listed = IdSet::new();
    let mut k: usize = 0;
    while k < flares.len()
        invariant
            k <= flares.len(),
            listed@ == flare_ids(flares@.take(k as int)),
        decreases flares.len() - k,
    {
        proof {
            assert(flares@.take(k + 1).drop_last() =~= flares@.take(k as int));
        }
        listed.insert(flares[k].id.as_str());
        k += 1;
    }
    proof {
        assert(flares@.take(k as int) =~= flares@);
    }
    notified.retain_in(&listed);

    let mut i: usize = 0;
    while i < flares.len()
        invariant
            i <= flares.len(),
            notified@ == old(notified)@.intersect(flare_ids(flares@)),
            forall|k: int| 0 <= k < i ==> !is_news(#[trigger] flares@[k], notified@),
        decreases flares.len() - i,
    {
        if flares[i].is_strong() && !notified.contains(flares[i].id.as_str()) {
            notified.insert(flares[i].id.as_str());
            return Some(i);
        }
        i += 1;
    }
    None
}

/// The part of a peak time that is shown: its first
/// [`PEAK_DISPLAY_LENGTH`] characters, or all of it where it has fewer.
pub open spec fn spec_peak_display(peak_time: Seq<char>) -> Seq<char> {
    if peak_time.len() <= PEAK_DISPLAY_LENGTH {
        peak_time
    } else {
        peak_time.take(PEAK_DISPLAY_LENGTH as int)
    }
}

/// The part of a peak time that is shown.
pub fn peak_display(peak_time: &str) -> (shown: String)
    ensures
        shown@ == spec_peak_display(peak_time@),
{
    let chars = chars_of(peak_time);
    let end: usize = if chars.len() <= PEAK_DISPLAY_LENGTH {
        chars.len()
    } else {
        PEAK_DISPLAY_LENGTH
    };
    proof {
        assert(chars@.subrange(0, end as int) =~= spec_peak_display(peak_time@));
    }
    string_of(&chars, 0, end)
}

/// Whether mass ejections towards the Earth count as announced after a
/// round, and whether they are announced in it. They are announced once
/// while there are any, and count as announced until there is none.
pub open spec fn spec_ejection_alert(announced: bool, earth_directed: usize) -> (bool, bool) {
    if earth_directed > 0 && !announced {
        (true, true)
    } else if earth_directed == 0 {
        (false, false)
    } else {
        (announced, false)
    }
}

/// Decides whether mass ejections towards the Earth are announced now.
pub fn ejection_alert(announced: bool, earth_directed: usize) -> (r: (bool, bool))
    ensures
        r == spec_ejection_alert(announced, earth_directed),
{
    if earth_directed > 0 && !announced {
        (true, true)
    } else if earth_directed == 0 {
        (false, false)
    } else {
        (announced, false)
    }
}

} // verus!
