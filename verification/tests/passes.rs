use earthpulse::passes::{
    advance, detect_passes, elevation_angle, is_overhead, predict_passes, Observation, PassEvent,
    PassScanner, ScanConfig, ScanState, Sighting, DEFAULT_MAX_PASSES, DEFAULT_MIN_ELEVATION,
    DEFAULT_VISIBLE_THRESHOLD, OVERHEAD_DISTANCE_M, SCAN_STEP_SECONDS, ZENITH,
};

const DEGREE: i64 = 1_000_000;

fn seen(time: i64, elevation_deg: i64, azimuth_deg: i64) -> Observation {
    Observation {
        time,
        sighting: Some(Sighting { elevation: elevation_deg * DEGREE, azimuth: azimuth_deg * DEGREE }),
    }
}

fn unseen(time: i64) -> Observation {
    Observation { time, sighting: None }
}

fn one_pass_profile() -> Vec<Observation> {
    vec![
        seen(0, 0, 170),
        seen(100, 6, 180),
        seen(200, 20, 190),
        seen(300, 35, 200),
        seen(400, 45, 210),
        seen(500, 35, 220),
        seen(600, 20, 230),
        seen(700, 4, 240),
        seen(800, 0, 250),
    ]
}

fn repeated_passes(count: i64) -> Vec<Observation> {
    let mut all = Vec::new();
    for k in 0..count {
        let base = k * 300;
        all.push(seen(base, 1, 10));
        all.push(seen(base + 100, 30, 20));
        all.push(seen(base + 200, 2, 30));
    }
    all
}

#[test]
fn standard_config_holds_the_documented_defaults() {
    let config = ScanConfig::standard();
    assert_eq!(config.min_elevation, 5 * DEGREE);
    assert_eq!(config.visible_threshold, 10 * DEGREE);
    assert_eq!(config.max_passes, 10);
    assert_eq!(DEFAULT_MIN_ELEVATION, 5_000_000);
    assert_eq!(DEFAULT_VISIBLE_THRESHOLD, 10_000_000);
    assert_eq!(DEFAULT_MAX_PASSES, 10);
    assert_eq!(SCAN_STEP_SECONDS, 30);
}

#[test]
fn synthetic_profile_gives_one_visible_pass() {
    let events = detect_passes(&ScanConfig::standard(), &one_pass_profile(), 900);
    assert_eq!(
        events,
        vec![PassEvent {
            start_time: 100,
            end_time: 700,
            max_elevation: 45 * DEGREE,
            start_azimuth: 180 * DEGREE,
            is_visible: true,
        }]
    );
}

#[test]
fn low_pass_is_reported_but_not_visible() {
    let observations = vec![seen(0, 1, 0), seen(30, 7, 90), seen(60, 10, 95), seen(90, 3, 100)];
    let events = detect_passes(&ScanConfig::standard(), &observations, 120);
    assert_eq!(events.len(), 1);
    assert_eq!(events[0].max_elevation, 10 * DEGREE);
    assert!(!events[0].is_visible);
    assert_eq!(events[0].start_time, 30);
    assert_eq!(events[0].end_time, 90);
}

#[test]
fn elevation_at_the_minimum_is_not_a_pass() {
    let observations = vec![seen(0, 5, 0), seen(30, 5, 0), seen(60, 4, 0)];
    assert!(detect_passes(&ScanConfig::standard(), &observations, 90).is_empty());
}

#[test]
fn cap_limits_the_number_of_passes() {
    let observations = repeated_passes(12);
    let events = detect_passes(&ScanConfig::standard(), &observations, 12 * 300);
    assert_eq!(events.len(), 10);
    let uncapped = ScanConfig { max_passes: 100, ..ScanConfig::standard() };
    let all = detect_passes(&uncapped, &observations, 12 * 300);
    assert_eq!(all.len(), 12);
    assert_eq!(events[..], all[..10]);
}

#[test]
fn cap_of_zero_returns_nothing() {
    let config = ScanConfig { max_passes: 0, ..ScanConfig::standard() };
    assert!(detect_passes(&config, &one_pass_profile(), 900).is_empty());
}

#[test]
fn pass_open_at_the_end_of_the_window_is_closed_there() {
    let observations = vec![seen(0, 1, 0), seen(30, 20, 45), seen(60, 30, 50)];
    let events = detect_passes(&ScanConfig::standard(), &observations, 90);
    assert_eq!(
        events,
        vec![PassEvent {
            start_time: 30,
            end_time: 90,
            max_elevation: 30 * DEGREE,
            start_azimuth: 45 * DEGREE,
            is_visible: true,
        }]
    );
}

#[test]
fn open_pass_is_dropped_once_the_cap_is_reached() {
    let config = ScanConfig { max_passes: 1, ..ScanConfig::standard() };
    let observations =
        vec![seen(0, 20, 0), seen(30, 1, 0), seen(60, 25, 0), seen(90, 26, 0)];
    let events = detect_passes(&config, &observations, 120);
    assert_eq!(events.len(), 1);
    assert_eq!(events[0].start_time, 0);
    assert_eq!(events[0].end_time, 30);
}

#[test]
fn failed_samples_are_skipped() {
    let observations = vec![
        seen(0, 1, 0),
        seen(30, 20, 45),
        unseen(60),
        seen(90, 40, 50),
        unseen(120),
        seen(150, 2, 60),
    ];
    let events = detect_passes(&ScanConfig::standard(), &observations, 180);
    assert_eq!(events.len(), 1);
    assert_eq!(events[0].start_time, 30);
    assert_eq!(events[0].end_time, 150);
    assert_eq!(events[0].max_elevation, 40 * DEGREE);
}

#[test]
fn no_observations_no_passes() {
    assert!(detect_passes(&ScanConfig::standard(), &Vec::new(), 0).is_empty());
    let only_failures = vec![unseen(0), unseen(30)];
    assert!(detect_passes(&ScanConfig::standard(), &only_failures, 60).is_empty());
}

#[test]
fn scanner_fed_step_by_step_agrees_with_the_batch_scan() {
    let observations = repeated_passes(12);
    let mut scanner = PassScanner::new(ScanConfig::standard());
    let mut fed = 0;
    for o in &observations {
        if scanner.is_done() {
            break;
        }
        scanner.observe(*o);
        fed += 1;
    }
    assert_eq!(fed, 30);
    let stepwise = scanner.finish(12 * 300);
    assert_eq!(stepwise, detect_passes(&ScanConfig::standard(), &observations, 12 * 300));
}

#[test]
fn transition_function_follows_the_state_machine() {
    let config = ScanConfig::standard();
    let (state, event) = advance(&config, ScanState::Idle, &seen(10, 6, 123));
    assert_eq!(
        state,
        ScanState::InPass { start_time: 10, start_azimuth: 123 * DEGREE, peak: 6 * DEGREE }
    );
    assert_eq!(event, None);
    let (state, event) = advance(&config, state, &seen(40, 50, 200));
    assert_eq!(
        state,
        ScanState::InPass { start_time: 10, start_azimuth: 123 * DEGREE, peak: 50 * DEGREE }
    );
    assert_eq!(event, None);
    let (state, event) = advance(&config, state, &seen(70, 30, 210));
    assert_eq!(
        state,
        ScanState::InPass { start_time: 10, start_azimuth: 123 * DEGREE, peak: 50 * DEGREE }
    );
    assert_eq!(event, None);
    let (state, event) = advance(&config, state, &unseen(100));
    assert_eq!(
        state,
        ScanState::InPass { start_time: 10, start_azimuth: 123 * DEGREE, peak: 50 * DEGREE }
    );
    assert_eq!(event, None);
    let (state, event) = advance(&config, state, &seen(130, 5, 220));
    assert_eq!(state, ScanState::Idle);
    assert_eq!(
        event,
        Some(PassEvent {
            start_time: 10,
            end_time: 130,
            max_elevation: 50 * DEGREE,
            start_azimuth: 123 * DEGREE,
            is_visible: true,
        })
    );
    let (state, event) = advance(&config, state, &seen(160, 5, 220));
    assert_eq!(state, ScanState::Idle);
    assert_eq!(event, None);
}

#[test]
fn overhead_satellite_stands_at_the_zenith() {
    assert_eq!(ZENITH, 90_000_000);
    assert_eq!(OVERHEAD_DISTANCE_M, 1_000);
    assert_eq!(elevation_angle(0, 0), 90_000_000);
    assert_eq!(elevation_angle(0, -12_345), 90_000_000);
    assert_eq!(elevation_angle(999, 12_000_000), 90_000_000);
    assert_eq!(elevation_angle(1_000, 12_000_000), 12_000_000);
    assert_eq!(elevation_angle(2_500_000, 7_654_321), 7_654_321);
    assert!(is_overhead(0));
    assert!(is_overhead(999));
    assert!(!is_overhead(1_000));
}

#[test]
fn predictions_carry_the_names_of_the_satellite() {
    let predictions = predict_passes(
        "sat-25544",
        "ISS (ZARYA)",
        &ScanConfig::standard(),
        &one_pass_profile(),
        900,
    );
    assert_eq!(predictions.len(), 1);
    let p = &predictions[0];
    assert_eq!(p.satellite_id, "sat-25544");
    assert_eq!(p.name, "ISS (ZARYA)");
    assert_eq!(p.start_time, 100);
    assert_eq!(p.end_time, 700);
    assert_eq!(p.max_elevation, 45 * DEGREE);
    assert_eq!(p.start_azimuth, 180 * DEGREE);
    assert!(p.is_visible);
}

#[test]
fn passes_follow_one_another_without_overlap() {
    let uncapped = ScanConfig { max_passes: 100, ..ScanConfig::standard() };
    let events = detect_passes(&uncapped, &repeated_passes(20), 20 * 300);
    assert_eq!(events.len(), 20);
    for e in &events {
        assert!(e.start_time < e.end_time);
        assert!(e.max_elevation > uncapped.min_elevation);
        assert_eq!(e.is_visible, e.max_elevation > uncapped.visible_threshold);
    }
    for pair in events.windows(2) {
        assert!(pair[0].end_time < pair[1].start_time);
    }
}
