//! Pass prediction: a scan over time-ordered observations that turns the
//! elevation of a satellite above an observer's horizon into discrete passes.
//!
//! The scan is a two-state machine. It is idle while the satellite is at or
//! below the minimum elevation, and in a pass while it is above. A pass is
//! emitted when the elevation drops back, or when the scan window ends while
//! the pass is still open. Once the configured number of passes has been
//! emitted the scan stops looking.

use vstd::prelude::*;
use crate::units::QUARTER_TURN;

verus! {

/// Default minimum elevation for a pass, 5 degrees, in micro-degrees.
pub const DEFAULT_MIN_ELEVATION: i64 = 5_000_000;

/// Default elevation above which a pass counts as visible, 10 degrees.
pub const DEFAULT_VISIBLE_THRESHOLD: i64 = 10_000_000;

/// Default cap on the number of passes one scan returns.
pub const DEFAULT_MAX_PASSES: usize = 10;

/// Cadence of a scan, in seconds.
pub const SCAN_STEP_SECONDS: i64 = 30;

/// Elevation of a satellite directly overhead, in micro-degrees.
pub const ZENITH: i64 = QUARTER_TURN;

/// Ground distance, in metres, below which a satellite counts as directly
/// overhead.
pub const OVERHEAD_DISTANCE_M: i64 = 1_000;

/// Where a satellite stands in an observer's sky, in micro-degrees.
#[derive(Clone, Copy, Debug, PartialEq, Eq, Structural)]
pub struct Sighting {
    pub elevation: i64,
    pub azimuth: i64,
}

/// What one step of the scan saw: the instant, and the sighting if the
/// position could be computed for it.
#[derive(Clone, Copy, Debug, PartialEq, Eq, Structural)]
pub struct Observation {
    pub time: i64,
    pub sighting: Option<Sighting>,
}

/// One contiguous interval above the minimum elevation.
#[derive(Clone, Copy, Debug, PartialEq, Eq, Structural)]
pub struct PassEvent {
    pub start_time: i64,
    pub end_time: i64,
    pub max_elevation: i64,
    pub start_azimuth: i64,
    pub is_visible: bool,
}

/// The state of the scan between two observations.
#[derive(Clone, Copy, Debug, PartialEq, Eq, Structural)]
pub enum ScanState {
    Idle,
    InPass { start_time: i64, start_azimuth: i64, peak: i64 },
}

/// Thresholds and cap of a scan.
#[derive(Clone, Copy, Debug, PartialEq, Eq, Structural)]
pub struct ScanConfig {
    pub min_elevation: i64,
    pub visible_threshold: i64,
    pub max_passes: usize,
}

/// Events emitted so far, and the state the machine is in.
pub struct Scan {
    pub events: Seq<PassEvent>,
    pub state: ScanState,
}

/// The elevation to use for a satellite at `ground_distance_m` from the
/// observer: the zenith when it is closer than [`OVERHEAD_DISTANCE_M`],
/// else the slant elevation that was computed for it.
pub open spec fn spec_elevation_angle(ground_distance_m: int, slant_elevation: int) -> int {
    if ground_distance_m < OVERHEAD_DISTANCE_M as int {
        ZENITH as int
    } else {
        slant_elevation
    }
}

/// Whether a satellite at this ground distance is directly overhead, so
/// that no slant elevation needs to be computed for it.
pub fn is_overhead(ground_distance_m: i64) -> (r: bool)
    ensures
        r == (ground_distance_m < OVERHEAD_DISTANCE_M),
{
    ground_distance_m < OVERHEAD_DISTANCE_M
}

/// Elevation of a satellite above the horizon. Directly overhead it is
/// exactly the zenith, whatever slant elevation is handed in.
pub fn elevation_angle(ground_distance_m: i64, slant_elevation: i64) -> (r: i64)
    ensures
        r == spec_elevation_angle(ground_distance_m as int, slant_elevation as int),
        ground_distance_m < OVERHEAD_DISTANCE_M ==> r == ZENITH,
{
    if is_overhead(ground_distance_m) {
        ZENITH
    } else {
        slant_elevation
    }
}

/// The pass that closes at `end_time`.
pub open spec fn closed_pass(
    config: ScanConfig,
    start_time: i64,
    start_azimuth: i64,
    peak: i64,
    end_time: i64,
) -> PassEvent {
    PassEvent {
        start_time,
        end_time,
        max_elevation: peak,
        start_azimuth,
        is_visible: peak > config.visible_threshold,
    }
}

/// State after one observation.
pub open spec fn next_state(config: ScanConfig, state: ScanState, obs: Observation) -> ScanState {
    match obs.sighting {
        None => state,
        Some(s) => if s.elevation > config.min_elevation {
            match state {
                ScanState::Idle => ScanState::InPass {
                    start_time: obs.time,
                    start_azimuth: s.azimuth,
                    peak: s.elevation,
                },
                ScanState::InPass { start_time, start_azimuth, peak } => ScanState::InPass {
                    start_time,
                    start_azimuth,
                    peak: if s.elevation > peak {
                        s.elevation
                    } else {
                        peak
                    },
                },
            }
        } else {
            ScanState::Idle
        },
    }
}

/// Pass emitted by one observation, if it closes one.
pub open spec fn emitted(config: ScanConfig, state: ScanState, obs: Observation) -> Option<
    PassEvent,
> {
    match (obs.sighting, state) {
        (Some(s), ScanState::InPass { start_time, start_azimuth, peak }) => if s.elevation
            > config.min_elevation {
            None
        } else {
            Some(closed_pass(config, start_time, start_azimuth, peak, obs.time))
        },
        _ => None,
    }
}

/// A scan that has emitted as many passes as its cap allows looks no
/// further.
pub open spec fn capped(config: ScanConfig, scan: Scan) -> bool {
    scan.events.len() >= config.max_passes
}

/// One step of the capped scan.
pub open spec fn scan_step(config: ScanConfig, scan: Scan, obs: Observation) -> Scan {
    if capped(config, scan) {
        scan
    } else {
        Scan {
            events: match emitted(config, scan.state, obs) {
                Some(e) => scan.events.push(e),
                None => scan.events,
            },
            state: next_state(config, scan.state, obs),
        }
    }
}

/// The capped scan over a whole sequence of observations.
pub open spec fn scan(config: ScanConfig, observations: Seq<Observation>) -> Scan
    decreases observations.len(),
{
    if observations.len() == 0 {
        Scan { events: Seq::empty(), state: ScanState::Idle }
    } else {
        scan_step(config, scan(config, observations.drop_last()), observations.last())
    }
}

/// What a scan returns when its window ends at `window_end`: the passes it
/// emitted, and the pass still open, closed at the end of the window.
pub open spec fn finished(config: ScanConfig, scan: Scan, window_end: i64) -> Seq<PassEvent> {
    if capped(config, scan) {
        scan.events
    } else {
        match scan.state {
            ScanState::Idle => scan.events,
            ScanState::InPass { start_time, start_azimuth, peak } => scan.events.push(
                closed_pass(config, start_time, start_azimuth, peak, window_end),
            ),
        }
    }
}

/// The passes predicted from `observations` for a window that ends at
/// `window_end`.
pub open spec fn predicted_passes(
    config: ScanConfig,
    observations: Seq<Observation>,
    window_end: i64,
) -> Seq<PassEvent> {
    finished(config, scan(config, observations), window_end)
}

impl ScanConfig {
    /// The thresholds and cap used when the caller names none.
    pub fn standard() -> (c: ScanConfig)
        ensures
            c.min_elevation == DEFAULT_MIN_ELEVATION,
            c.visible_threshold == DEFAULT_VISIBLE_THRESHOLD,
            c.max_passes == DEFAULT_MAX_PASSES,
    {
        ScanConfig {
            min_elevation: DEFAULT_MIN_ELEVATION,
            visible_threshold: DEFAULT_VISIBLE_THRESHOLD,
            max_passes: DEFAULT_MAX_PASSES,
        }
    }
}

/// The transition function of the state machine: the state after `obs`,
/// and the pass that `obs` closes, if any.
pub fn advance(config: &ScanConfig, state: ScanState, obs: &Observation) -> (r: (
    ScanState,
    Option<PassEvent>,
))
    ensures
        r.0 == next_state(*config, state, *obs),
        r.1 == emitted(*config, state, *obs),
{
    match obs.sighting {
        None => (state, None),
        Some(s) => {
            if s.elevation > config.min_elevation {
                match state {
                    ScanState::Idle => (
                        ScanState::InPass {
                            start_time: obs.time,
                            start_azimuth: s.azimuth,
                            peak: s.elevation,
                        },
                        None,
                    ),
                    ScanState::InPass { start_time, start_azimuth, peak } => {
                        let higher: i64 = if s.elevation > peak {
                            s.elevation
                        } else {
                            peak
                        };
                        (ScanState::InPass { start_time, start_azimuth, peak: higher }, None)
                    },
                }
            } else {
                match state {
                    ScanState::Idle => (ScanState::Idle, None),
                    ScanState::InPass { start_time, start_azimuth, peak } => (
                        ScanState::Idle,
                        Some(
                            PassEvent {
                                start_time,
                                end_time: obs.time,
                                max_elevation: peak,
                                start_azimuth,
                                is_visible: peak > config.visible_threshold,
                            },
                        ),
                    ),
                }
            }
        },
    }
}

/// A scan in progress. The caller feeds it one observation per step, in
/// time order, may stop as soon as it is done, and finishes it with the end
/// of the window.
pub struct PassScanner {
    config: ScanConfig,
    state: ScanState,
    events: Vec<PassEvent>,
    seen: Ghost<Seq<Observation>>,
}

impl PassScanner {
    /// The scanner holds exactly what the scan over the observations it has
    /// been fed holds.
    pub closed spec fn well_formed(&self) -> bool {
        scan(self.config, self.seen@) == (Scan { events: self.events@, state: self.state })
    }

    /// The configuration the scanner was made with.
    pub closed spec fn spec_config(&self) -> ScanConfig {
        self.config
    }

    /// Every observation fed so far, oldest first.
    pub closed spec fn observed(&self) -> Seq<Observation> {
        self.seen@
    }

    /// A scanner that has seen nothing.
    pub fn new(config: ScanConfig) -> (s: PassScanner)
        ensures
            s.well_formed(),
            s.spec_config() == config,
            s.observed() == Seq::<Observation>::empty(),
    {
        PassScanner { config, state: ScanState::Idle, events: Vec::new(), seen: Ghost(Seq::empty()) }
    }

    /// Whether the cap has been reached, so that further observations
    /// change nothing.
    pub fn is_done(&self) -> (r: bool)
        requires
            self.well_formed(),
        ensures
            r == capped(self.spec_config(), scan(self.spec_config(), self.observed())),
    {
        self.events.len() >= self.config.max_passes
    }

    /// Feeds the next observation.
    pub fn observe(&mut self, obs: Observation)
        requires
            old(self).well_formed(),
        ensures
            final(self).well_formed(),
            final(self).spec_config() == old(self).spec_config(),
            final(self).observed() == old(self).observed().push(obs),
    {
        proof {
            assert(self.seen@.push(obs).drop_last() =~= self.seen@);
        }
        if self.events.len() < self.config.max_passes {
            let (state, event) = advance(&self.config, self.state, &obs);
            self.state = state;
            match event {
                Some(e) => {
                    self.events.push(e);
                },
                None => {},
            }
        }
        self.seen = Ghost(self.seen@.push(obs));
    }

    /// Ends the scan at `window_end` and hands out the passes.
    pub fn finish(self, window_end: i64) -> (events: Vec<PassEvent>)
        requires
            self.well_formed(),
        ensures
            events@ == predicted_passes(self.spec_config(), self.observed(), window_end),
            events@.len() <= self.spec_config().max_passes,
    {
        let mut events = self.events;
        if events.len() < self.config.max_passes {
            match self.state {
                ScanState::Idle => {},
                ScanState::InPass { start_time, start_azimuth, peak } => {
                    events.push(
                        PassEvent {
                            start_time,
                            end_time: window_end,
                            max_elevation: peak,
                            start_azimuth,
                            is_visible: peak > self.config.visible_threshold,
                        },
                    );
                },
            }
        } else {
            proof {
                lemma_scan_within_cap(self.config, self.seen@);
            }
        }
        events
    }
}

/// Runs the whole scan over observations that are already at hand.
pub fn detect_passes(config: &ScanConfig, observations: &Vec<Observation>, window_end: i64) -> (events:
    Vec<PassEvent>)
    ensures
        events@ == predicted_passes(*config, observations@, window_end),
        events@.len() <= config.max_passes,
{
    let mut scanner = PassScanner::new(*config);
    let mut i: usize = 0;
    while i < observations.len()
        invariant
            i <= observations.len(),
            scanner.well_formed(),
            scanner.spec_config() == *config,
            scanner.observed() == observations@.take(i as int),
        decreases observations.len() - i,
    {
        scanner.observe(observations[i]);
        proof {
            assert(observations@.take(i as int).push(observations@[i as int])
                =~= observations@.take(i + 1));
        }
        i += 1;
    }
    proof {
        assert(observations@.take(i as int) =~= observations@);
    }
    scanner.finish(window_end)
}

/// A pass prediction for one satellite: a pass, with the identifier and the
/// display name of the satellite that makes it.
#[derive(Clone, Debug)]
pub struct PassPrediction {
    pub satellite_id: String,
    pub name: String,
    pub start_time: i64,
    pub end_time: i64,
    pub max_elevation: i64,
    pub start_azimuth: i64,
    pub is_visible: bool,
}

impl PassPrediction {
    /// The pass itself, without the satellite's names.
    pub open spec fn event(self) -> PassEvent {
        PassEvent {
            start_time: self.start_time,
            end_time: self.end_time,
            max_elevation: self.max_elevation,
            start_azimuth: self.start_azimuth,
            is_visible: self.is_visible,
        }
    }
}

/// Whether `predictions` are exactly `events`, each under the names `id`
/// and `name`.
pub open spec fn labelled(
    predictions: Seq<PassPrediction>,
    events: Seq<PassEvent>,
    id: Seq<char>,
    name: Seq<char>,
) -> bool {
    &&& predictions.len() == events.len()
    &&& forall|i: int|
        0 <= i < predictions.len() ==> (#[trigger] predictions[i]).event() == events[i]
            && predictions[i].satellite_id@ == id && predictions[i].name@ == name
}

/// Predicts the passes of one satellite from the observations of a scan
/// whose window ends at `window_end`.
pub fn predict_passes(
    id: &str,
    name: &str,
    config: &ScanConfig,
    observations: &Vec<Observation>,
    window_end: i64,
) -> (predictions: Vec<PassPrediction>)
    ensures
        labelled(
            predictions@,
            predicted_passes(*config, observations@, window_end),
            id@,
            name@,
        ),
        predictions@.len() <= config.max_passes,
{
    let events = detect_passes(config, observations, window_end);
    let mut predictions: Vec<PassPrediction> = Vec::new();
    let mut i: usize = 0;
    while i < events.len()
        invariant
            i <= events.len(),
            labelled(predictions@, events@.take(i as int), id@, name@),
        decreases events.len() - i,
    {
        let e = events[i];
        predictions.push(
            PassPrediction {
                satellite_id: id.to_owned(),
                name: name.to_owned(),
                start_time: e.start_time,
                end_time: e.end_time,
                max_elevation: e.max_elevation,
                start_azimuth: e.start_azimuth,
                is_visible: e.is_visible,
            },
        );
        i += 1;
    }
    proof {
        assert(events@.take(i as int) =~= events@);
    }
    predictions
}

/// Whether the passes are in the order of their start times.
pub open spec fn by_start_time(passes: Seq<PassPrediction>) -> bool {
    forall|i: int, j: int|
        0 <= i < j < passes.len() ==> (#[trigger] passes[i]).start_time <= (
        #[trigger] passes[j]).start_time
}

/// Puts the passes of several satellites into the order of their start
/// times. No pass is lost and none is added.
pub fn sort_by_start_time(passes: Vec<PassPrediction>) -> (sorted: Vec<PassPrediction>)
    ensures
        by_start_time(sorted@),
        sorted@.to_multiset() == passes@.to_multiset(),
        sorted@.len() == passes@.len(),
{
    let mut rest = passes;
    let mut sorted: Vec<PassPrediction> = Vec::new();
    proof {
        broadcast use vstd::seq_lib::group_to_multiset_ensures;

        assert(sorted@.to_multiset() =~= vstd::multiset::Multiset::<PassPrediction>::empty());
        assert(rest@.to_multiset().add(sorted@.to_multiset()) =~= passes@.to_multiset());
    }
    while rest.len() > 0
        invariant
            by_start_time(sorted@),
            rest@.to_multiset().add(sorted@.to_multiset()) == passes@.to_multiset(),
            rest@.len() + sorted@.len() == passes@.len(),
        decreases rest.len(),
    {
        let ghost before_rest = rest@;
        let ghost before_sorted = sorted@;
        let next = rest.pop().unwrap();
        let mut k: usize = 0;
        while k < sorted.len() && sorted[k].start_time < next.start_time
            invariant
                k <= sorted.len(),
                forall|i: int| 0 <= i < k ==> (#[trigger] sorted@[i]).start_time < next.start_time,
            decreases sorted.len() - k,
        {
            k += 1;
        }
        sorted.insert(k, next);
        proof {
            broadcast use vstd::seq_lib::group_to_multiset_ensures;

            assert(before_rest =~= rest@.push(next));
            assert(before_rest.to_multiset() =~= rest@.to_multiset().insert(next));
            assert(sorted@ == before_sorted.insert(k as int, next));
            assert(sorted@.to_multiset() =~= before_sorted.to_multiset().insert(next));
            assert(rest@.to_multiset().add(sorted@.to_multiset()) =~= before_rest.to_multiset().add(
                before_sorted.to_multiset(),
            ));
            assert forall|i: int, j: int| 0 <= i < j < sorted@.len() implies (
            #[trigger] sorted@[i]).start_time <= (#[trigger] sorted@[j]).start_time by {
                if i < k && j > k {
                    assert(sorted@[i] == before_sorted[i]);
                    assert(sorted@[j] == before_sorted[j - 1]);
                } else if i < k && j < k {
                    assert(sorted@[i] == before_sorted[i]);
                    assert(sorted@[j] == before_sorted[j]);
                } else if i > k {
                    assert(sorted@[i] == before_sorted[i - 1]);
                    assert(sorted@[j] == before_sorted[j - 1]);
                } else if i == k {
                    assert(sorted@[j] == before_sorted[j - 1]);
                    if k < before_sorted.len() {
                        assert(before_sorted[k as int].start_time >= next.start_time);
                    }
                } else {
                    assert(sorted@[i] == before_sorted[i]);
                }
            }
        }
    }
    proof {
        assert(rest@ =~= Seq::<PassPrediction>::empty());
        assert(rest@.to_multiset().add(sorted@.to_multiset()) =~= sorted@.to_multiset());
    }
    sorted
}

/// A capped scan never holds more passes than its cap, and never returns
/// more.
pub proof fn lemma_scan_within_cap(config: ScanConfig, observations: Seq<Observation>)
    ensures
        scan(config, observations).events.len() <= config.max_passes,
        forall|window_end: i64|
            #[trigger] predicted_passes(config, observations, window_end).len()
                <= config.max_passes,
    decreases observations.len(),
{
    if observations.len() > 0 {
        lemma_scan_within_cap(config, observations.drop_last());
    }
}

/// The scan with no cap on the number of passes.
pub open spec fn scan_unbounded(config: ScanConfig, observations: Seq<Observation>) -> Scan
    decreases observations.len(),
{
    if observations.len() == 0 {
        Scan { events: Seq::empty(), state: ScanState::Idle }
    } else {
        let before = scan_unbounded(config, observations.drop_last());
        Scan {
            events: match emitted(config, before.state, observations.last()) {
                Some(e) => before.events.push(e),
                None => before.events,
            },
            state: next_state(config, before.state, observations.last()),
        }
    }
}

/// Every pass that the observations hold, the one still open at the end of
/// the window included.
pub open spec fn all_passes(
    config: ScanConfig,
    observations: Seq<Observation>,
    window_end: i64,
) -> Seq<PassEvent> {
    let all = scan_unbounded(config, observations);
    match all.state {
        ScanState::Idle => all.events,
        ScanState::InPass { start_time, start_azimuth, peak } => all.events.push(
            closed_pass(config, start_time, start_azimuth, peak, window_end),
        ),
    }
}

/// The first `cap` items of `events`, or all of them where there are fewer.
pub open spec fn first_passes(events: Seq<PassEvent>, cap: int) -> Seq<PassEvent> {
    if events.len() <= cap {
        events
    } else {
        events.take(cap)
    }
}

proof fn lemma_scan_is_prefix(config: ScanConfig, observations: Seq<Observation>)
    ensures
        scan_unbounded(config, observations).events.len() < config.max_passes ==> scan(
            config,
            observations,
        ) == scan_unbounded(config, observations),
        scan_unbounded(config, observations).events.len() >= config.max_passes ==> scan(
            config,
            observations,
        ).events == scan_unbounded(config, observations).events.take(config.max_passes as int),
    decreases observations.len(),
{
    let cap = config.max_passes as int;
    if observations.len() == 0 {
        assert(scan_unbounded(config, observations).events.take(0) =~= Seq::<PassEvent>::empty());
    } else {
        let before = observations.drop_last();
        lemma_scan_is_prefix(config, before);
        let ub = scan_unbounded(config, before);
        let u = scan_unbounded(config, observations);
        if ub.events.len() < cap {
            if u.events.len() >= cap {
                assert(u.events.take(cap) =~= u.events);
            }
        } else {
            assert(u.events.take(cap) =~= ub.events.take(cap));
        }
    }
}

/// The cap only truncates: a capped scan returns the first passes of what
/// the uncapped scan would return, as many as the cap allows. Where the
/// observations hold more passes than the cap, it returns exactly as many
/// as the cap.
pub proof fn lemma_cap_truncates(
    config: ScanConfig,
    observations: Seq<Observation>,
    window_end: i64,
)
    ensures
        predicted_passes(config, observations, window_end) == first_passes(
            all_passes(config, observations, window_end),
            config.max_passes as int,
        ),
        all_passes(config, observations, window_end).len() >= config.max_passes
            ==> predicted_passes(config, observations, window_end).len() == config.max_passes,
        all_passes(config, observations, window_end).len() <= config.max_passes
            ==> predicted_passes(config, observations, window_end) == all_passes(
            config,
            observations,
            window_end,
        ),
{
    let cap = config.max_passes as int;
    lemma_scan_is_prefix(config, observations);
    let u = scan_unbounded(config, observations);
    let all = all_passes(config, observations, window_end);
    if u.events.len() >= cap {
        assert(all.take(cap) =~= u.events.take(cap));
        if all.len() <= cap {
            assert(all =~= u.events.take(cap));
        }
    }
}

/// What holds of every pass of `scan` when all observations lie before
/// `limit`: it peaked above the minimum elevation, is flagged visible
/// exactly when its peak is above the visibility threshold, starts before
/// it ends, ends before `limit`, and ends before the next one starts.
pub open spec fn orderly(config: ScanConfig, scan: Scan, limit: int) -> bool {
    &&& forall|i: int|
        0 <= i < scan.events.len() ==> sound_pass(config, #[trigger] scan.events[i])
            && scan.events[i].end_time < limit
    &&& forall|i: int, j: int|
        0 <= i < j < scan.events.len() ==> (#[trigger] scan.events[i]).end_time < (
        #[trigger] scan.events[j]).start_time
    &&& match scan.state {
        ScanState::Idle => true,
        ScanState::InPass { start_time, start_azimuth, peak } => {
            &&& peak > config.min_elevation
            &&& start_time < limit
            &&& forall|i: int|
                0 <= i < scan.events.len() ==> (#[trigger] scan.events[i]).end_time < start_time
        },
    }
}

/// A pass that peaked above the minimum elevation, carries the right
/// visibility flag and starts before it ends.
pub open spec fn sound_pass(config: ScanConfig, e: PassEvent) -> bool {
    &&& e.max_elevation > config.min_elevation
    &&& e.is_visible == (e.max_elevation > config.visible_threshold)
    &&& e.start_time < e.end_time
}

/// Observation times strictly increase, and all lie before `limit`.
pub open spec fn in_time_order(observations: Seq<Observation>, limit: int) -> bool {
    &&& forall|i: int, j: int|
        0 <= i < j < observations.len() ==> (#[trigger] observations[i]).time < (
        #[trigger] observations[j]).time
    &&& forall|i: int| 0 <= i < observations.len() ==> (#[trigger] observations[i]).time < limit
}

proof fn lemma_scan_orderly(config: ScanConfig, observations: Seq<Observation>, limit: int)
    requires
        in_time_order(observations, limit),
    ensures
        orderly(config, scan(config, observations), limit),
    decreases observations.len(),
{
    if observations.len() > 0 {
        let before = observations.drop_last();
        let last = observations.last();
        assert forall|i: int| 0 <= i < before.len() implies (#[trigger] before[i]).time
            < last.time by {
            assert(before[i] == observations[i]);
        }
        assert(in_time_order(before, last.time as int)) by {
            assert forall|i: int, j: int| 0 <= i < j < before.len() implies (
            #[trigger] before[i]).time < (#[trigger] before[j]).time by {
                assert(before[i] == observations[i]);
                assert(before[j] == observations[j]);
            }
        }
        lemma_scan_orderly(config, before, last.time as int);
        let s0 = scan(config, before);
        let s1 = scan(config, observations);
        assert(last.time < limit);
        if !capped(config, s0) {
            match emitted(config, s0.state, last) {
                Some(e) => {
                    assert(s1.events == s0.events.push(e));
                    assert forall|i: int| 0 <= i < s1.events.len() implies sound_pass(
                        config,
                        #[trigger] s1.events[i],
                    ) && s1.events[i].end_time < limit by {
                        if i < s0.events.len() {
                            assert(s1.events[i] == s0.events[i]);
                        }
                    }
                    assert forall|i: int, j: int| 0 <= i < j < s1.events.len() implies (
                    #[trigger] s1.events[i]).end_time < (#[trigger] s1.events[j]).start_time by {
                        assert(s1.events[i] == s0.events[i]);
                        if j < s0.events.len() {
                            assert(s1.events[j] == s0.events[j]);
                        }
                    }
                },
                None => {
                    assert(s1.events == s0.events);
                },
            }
        }
    }
}

/// Fed observations in time order, all before the end of the window, a scan
/// returns passes that are sound, lie inside the window, and follow one
/// another without overlap.
pub proof fn lemma_passes_in_order(
    config: ScanConfig,
    observations: Seq<Observation>,
    window_end: i64,
)
    requires
        in_time_order(observations, window_end as int),
    ensures
        forall|i: int|
            0 <= i < predicted_passes(config, observations, window_end).len() ==> sound_pass(
                config,
                #[trigger] predicted_passes(config, observations, window_end)[i],
            ) && predicted_passes(config, observations, window_end)[i].end_time <= window_end,
        forall|i: int, j: int|
            0 <= i < j < predicted_passes(config, observations, window_end).len() ==> (
            #[trigger] predicted_passes(config, observations, window_end)[i]).end_time < (
            #[trigger] predicted_passes(config, observations, window_end)[j]).start_time,
{
    lemma_scan_orderly(config, observations, window_end as int);
    let s = scan(config, observations);
    let out = predicted_passes(config, observations, window_end);
    assert forall|i: int| 0 <= i < out.len() implies sound_pass(config, #[trigger] out[i])
        && out[i].end_time <= window_end by {
        if i < s.events.len() {
            assert(out[i] == s.events[i]);
        }
    }
    assert forall|i: int, j: int| 0 <= i < j < out.len() implies (#[trigger] out[i]).end_time < (
    #[trigger] out[j]).start_time by {
        assert(out[i] == s.events[i]);
        if j < s.events.len() {
            assert(out[j] == s.events[j]);
        }
    }
}

/// Elevation of an observation that has a sighting.
pub open spec fn elevation_of(obs: Observation) -> i64 {
    obs.sighting->0.elevation
}

/// The highest elevation among the observations from `from` up to `to`,
/// where there is at least one.
pub open spec fn highest(observations: Seq<Observation>, from: int, to: int) -> i64
    decreases to - from,
{
    if to - from <= 1 {
        elevation_of(observations[from])
    } else {
        let before = highest(observations, from, to - 1);
        let last = elevation_of(observations[to - 1]);
        if last > before {
            last
        } else {
            before
        }
    }
}

/// Whether the satellite is, by these observations, at or below the
/// minimum elevation before `rise`, above it from `rise` up to `set`, and
/// at or below it again at `set`. Every observation up to `set` has a
/// sighting.
pub open spec fn one_pass(config: ScanConfig, observations: Seq<Observation>, rise: int, set: int) -> bool {
    &&& 0 <= rise < set < observations.len()
    &&& forall|i: int| 0 <= i <= set ==> (#[trigger] observations[i]).sighting is Some
    &&& forall|i: int|
        0 <= i < rise ==> elevation_of(#[trigger] observations[i]) <= config.min_elevation
    &&& forall|i: int|
        rise <= i < set ==> elevation_of(#[trigger] observations[i]) > config.min_elevation
    &&& elevation_of(observations[set]) <= config.min_elevation
}

proof fn lemma_idle_until_rise(config: ScanConfig, observations: Seq<Observation>, rise: int, n: int)
    requires
        config.max_passes >= 1,
        0 <= n <= rise <= observations.len(),
        forall|i: int| 0 <= i < rise ==> (#[trigger] observations[i]).sighting is Some,
        forall|i: int|
            0 <= i < rise ==> elevation_of(#[trigger] observations[i]) <= config.min_elevation,
    ensures
        scan(config, observations.take(n)) == (Scan {
            events: Seq::empty(),
            state: ScanState::Idle,
        }),
    decreases n,
{
    if n > 0 {
        lemma_idle_until_rise(config, observations, rise, n - 1);
        assert(observations.take(n).drop_last() =~= observations.take(n - 1));
        assert(observations.take(n).last() == observations[n - 1]);
    }
}

proof fn lemma_in_pass_until_set(
    config: ScanConfig,
    observations: Seq<Observation>,
    rise: int,
    set: int,
    n: int,
)
    requires
        config.max_passes >= 1,
        one_pass(config, observations, rise, set),
        rise < n <= set,
    ensures
        scan(config, observations.take(n)) == (Scan {
            events: Seq::empty(),
            state: ScanState::InPass {
                start_time: observations[rise].time,
                start_azimuth: observations[rise].sighting->0.azimuth,
                peak: highest(observations, rise, n),
            },
        }),
    decreases n,
{
    assert(observations.take(n).drop_last() =~= observations.take(n - 1));
    assert(observations.take(n).last() == observations[n - 1]);
    if n == rise + 1 {
        lemma_idle_until_rise(config, observations, rise, rise);
    } else {
        lemma_in_pass_until_set(config, observations, rise, set, n - 1);
    }
}

/// Where the observations show one pass, the scan reports exactly that
/// pass: it starts at the first observation above the minimum elevation,
/// with the azimuth seen there, ends at the first observation at or below
/// it, and peaks at the highest elevation seen in between.
pub proof fn lemma_one_pass_is_reported(
    config: ScanConfig,
    observations: Seq<Observation>,
    rise: int,
    set: int,
)
    requires
        config.max_passes >= 1,
        one_pass(config, observations, rise, set),
    ensures
        scan(config, observations.take(set + 1)) == (Scan {
            events: seq![
                closed_pass(
                    config,
                    observations[rise].time,
                    observations[rise].sighting->0.azimuth,
                    highest(observations, rise, set),
                    observations[set].time,
                ),
            ],
            state: ScanState::Idle,
        }),
{
    lemma_in_pass_until_set(config, observations, rise, set, set);
    assert(observations.take(set + 1).drop_last() =~= observations.take(set));
    assert(observations.take(set + 1).last() == observations[set]);
    let before = scan(config, observations.take(set));
    assert(before.events.push(
        closed_pass(
            config,
            observations[rise].time,
            observations[rise].sighting->0.azimuth,
            highest(observations, rise, set),
            observations[set].time,
        ),
    ) =~= seq![
        closed_pass(
            config,
            observations[rise].time,
            observations[rise].sighting->0.azimuth,
            highest(observations, rise, set),
            observations[set].time,
        ),
    ]);
}

} // verus!
