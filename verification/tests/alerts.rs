use earthpulse::alerts::{
    azimuth_to_cardinal, next_pass_of, next_visible_pass, pass_alert, storm_alert, PassAlert,
    PASS_ALERT_LEAD_SECONDS, STORM_KP, STORM_KP_STEP,
};
use earthpulse::passes::{sort_by_start_time, PassPrediction};
use earthpulse::sidereal::{sidereal_angle, J2000_UNIX, SIDEREAL_AT_J2000, SIDEREAL_RANGE_SECONDS};
use earthpulse::units::{floor_div, floor_mod};

const DEGREE: i64 = 1_000_000;

fn pass(id: &str, start_time: i64, visible: bool, azimuth_deg: i64) -> PassPrediction {
    PassPrediction {
        satellite_id: id.to_string(),
        name: format!("name of {}", id),
        start_time,
        end_time: start_time + 300,
        max_elevation: if visible { 40 * DEGREE } else { 7 * DEGREE },
        start_azimuth: azimuth_deg * DEGREE,
        is_visible: visible,
    }
}

#[test]
fn compass_points_cover_the_circle() {
    let expected = |d: i64| match d {
        0..=22 | 338..=359 => "N",
        23..=67 => "NE",
        68..=112 => "E",
        113..=157 => "SE",
        158..=202 => "S",
        203..=247 => "SW",
        248..=292 => "W",
        _ => "NW",
    };
    for d in 0..360 {
        assert_eq!(azimuth_to_cardinal(d * DEGREE), expected(d), "{} degrees", d);
        assert_eq!(azimuth_to_cardinal(d * DEGREE + 999_999), expected(d));
        assert_eq!(azimuth_to_cardinal(d * DEGREE + 360 * DEGREE), expected(d));
        assert_eq!(azimuth_to_cardinal(d * DEGREE - 720 * DEGREE), expected(d));
    }
    assert_eq!(azimuth_to_cardinal(-10 * DEGREE), "N");
    assert_eq!(azimuth_to_cardinal(-90 * DEGREE), "W");
    assert_eq!(azimuth_to_cardinal(-1), "N");
    assert_eq!(azimuth_to_cardinal(22_999_999), "N");
    assert_eq!(azimuth_to_cardinal(23_000_000), "NE");
    assert_eq!(azimuth_to_cardinal(337_999_999), "NW");
    assert_eq!(azimuth_to_cardinal(338_000_000), "N");
    let _ = azimuth_to_cardinal(i64::MIN);
    let _ = azimuth_to_cardinal(i64::MAX);
}

#[test]
fn next_visible_pass_is_the_first_within_a_quarter_of_an_hour() {
    assert_eq!(PASS_ALERT_LEAD_SECONDS, 900);
    let now = 10_000;
    let passes = vec![
        pass("a", 9_000, true, 0),
        pass("b", 10_000, true, 0),
        pass("c", 10_100, false, 0),
        pass("d", 10_901, true, 0),
        pass("e", 10_900, true, 0),
        pass("f", 10_050, true, 0),
    ];
    assert_eq!(next_visible_pass(&passes, now), Some(4));
    assert_eq!(next_visible_pass(&passes[..4].to_vec(), now), None);
    assert_eq!(next_visible_pass(&Vec::new(), now), None);
    let far = vec![pass("x", i64::MAX, true, 0)];
    assert_eq!(next_visible_pass(&far, i64::MIN), None);
}

#[test]
fn a_pass_is_announced_once() {
    let now = 10_000;
    let passes = vec![pass("a", 9_000, true, 0), pass("b", 10_610, true, 200)];
    assert_eq!(
        pass_alert(&passes, now, None),
        Some(PassAlert { index: 1, start_time: 10_610, minutes: 10, direction: "S" })
    );
    assert_eq!(
        pass_alert(&passes, now, Some(9_000)),
        Some(PassAlert { index: 1, start_time: 10_610, minutes: 10, direction: "S" })
    );
    assert_eq!(pass_alert(&passes, now, Some(10_610)), None);
    assert_eq!(pass_alert(&passes, 10_610, None), None);
    assert_eq!(pass_alert(&passes, 10_609, None).unwrap().minutes, 0);
    assert_eq!(pass_alert(&passes, 9_710, None).unwrap().minutes, 15);
    assert_eq!(pass_alert(&passes, 9_709, None), None);
}

#[test]
fn next_pass_of_one_satellite() {
    let passes = vec![
        pass("sat-20580", 10_500, true, 0),
        pass("sat-25544", 9_000, true, 0),
        pass("sat-25544", 13_700, false, 0),
        pass("sat-25544", 20_000, true, 0),
    ];
    assert_eq!(next_pass_of(&passes, "sat-25544", 10_000), Some((2, 61)));
    assert_eq!(next_pass_of(&passes, "sat-20580", 10_000), Some((0, 8)));
    assert_eq!(next_pass_of(&passes, "sat-25544", 13_700), Some((3, 105)));
    assert_eq!(next_pass_of(&passes, "sat-25544", 20_000), None);
    assert_eq!(next_pass_of(&passes, "sat-48274", 0), None);
    assert_eq!(next_pass_of(&passes, "sat-2554", 0), None);
    let far = vec![pass("s", i64::MAX, true, 0)];
    assert_eq!(
        next_pass_of(&far, "s", i64::MIN),
        Some((0, (i64::MAX as i128 - i64::MIN as i128) / 60))
    );
}

#[test]
fn storms_are_announced_when_they_set_in_or_grow() {
    assert_eq!(STORM_KP, 5_000);
    assert_eq!(STORM_KP_STEP, 1_000);
    assert_eq!(storm_alert(None, 4_999), (None, false));
    assert_eq!(storm_alert(None, 5_000), (Some(5_000), true));
    assert_eq!(storm_alert(Some(5_000), 5_670), (Some(5_000), false));
    assert_eq!(storm_alert(Some(5_000), 5_999), (Some(5_000), false));
    assert_eq!(storm_alert(Some(5_000), 6_000), (Some(6_000), true));
    assert_eq!(storm_alert(Some(6_000), 5_000), (Some(6_000), false));
    assert_eq!(storm_alert(Some(6_000), 4_330), (None, false));
    assert_eq!(storm_alert(Some(i64::MAX), i64::MAX), (Some(i64::MAX), false));
    assert_eq!(storm_alert(Some(i64::MIN), 5_000), (Some(5_000), true));
}

#[test]
fn passes_of_several_satellites_are_put_in_order() {
    let passes = vec![
        pass("c", 300, true, 0),
        pass("a", 100, true, 0),
        pass("d", 300, false, 0),
        pass("b", 200, true, 0),
        pass("e", 100, false, 0),
        pass("f", -5, true, 0),
    ];
    let sorted = sort_by_start_time(passes.clone());
    let ids: Vec<&str> = sorted.iter().map(|p| p.satellite_id.as_str()).collect();
    assert_eq!(ids, vec!["f", "a", "e", "b", "c", "d"]);
    let mut expected = passes.clone();
    expected.sort_by(|a, b| a.start_time.cmp(&b.start_time));
    let expected_ids: Vec<&str> = expected.iter().map(|p| p.satellite_id.as_str()).collect();
    assert_eq!(ids, expected_ids);
    assert!(sort_by_start_time(Vec::new()).is_empty());
    assert_eq!(sort_by_start_time(vec![pass("x", 1, true, 0)]).len(), 1);
}

#[test]
fn quotients_are_rounded_down() {
    assert_eq!(floor_div(7, 2), 3);
    assert_eq!(floor_div(-7, 2), -4);
    assert_eq!(floor_div(-8, 2), -4);
    assert_eq!(floor_div(-1, 86_400), -1);
    assert_eq!(floor_div(0, 5), 0);
    assert_eq!(floor_div(i128::MIN, 1), i128::MIN);
    assert_eq!(floor_div(i128::MAX, 1), i128::MAX);
    assert_eq!(floor_div(i128::MIN, i128::MAX), -2);
    for a in -50..50_i128 {
        for b in 1..9_i128 {
            assert_eq!(floor_div(a, b), a.div_euclid(b));
        }
    }
}

fn sidereal_in_floating_point(unix: i64) -> f64 {
    let jd = unix as f64 / 86400.0 + 2440587.5;
    let t = (jd - 2451545.0) / 36525.0;
    let gmst = 280.46061837 + 360.98564736629 * (jd - 2451545.0) + 0.000387933 * t * t
        - t * t * t / 38710000.0;
    gmst.rem_euclid(360.0)
}

#[test]
fn sidereal_angle_at_known_instants() {
    assert_eq!(J2000_UNIX, 946_728_000);
    assert_eq!(SIDEREAL_AT_J2000, 280_460_618);
    assert_eq!(sidereal_angle(J2000_UNIX), Some(280_460_618));
    assert_eq!(sidereal_angle(J2000_UNIX + 86_400), Some(281_446_265));
    assert_eq!(sidereal_angle(J2000_UNIX - 86_400), Some(279_474_971));
    assert_eq!(sidereal_angle(J2000_UNIX + 1), Some(280_464_796));
}

#[test]
fn sidereal_angle_follows_the_polynomial() {
    for unix in [
        -2_000_000_000_i64,
        -1,
        0,
        946_684_800,
        946_728_000,
        1_221_913_540,
        1_700_000_000,
        1_782_000_000,
        2_147_483_647,
        4_102_444_800,
    ] {
        let angle = sidereal_angle(unix).unwrap();
        assert!(0 <= angle && angle < 360 * DEGREE);
        let float = sidereal_in_floating_point(unix) * 1e6;
        let mut difference = (angle as f64 - float).abs();
        if difference > 180e6 {
            difference = 360e6 - difference;
        }
        assert!(difference < 50.0, "at {}: {} against {}", unix, angle, float);
    }
}

#[test]
fn sidereal_angle_is_evaluated_within_its_range_only() {
    assert_eq!(SIDEREAL_RANGE_SECONDS, 100_000_000_000);
    assert!(sidereal_angle(J2000_UNIX + SIDEREAL_RANGE_SECONDS).is_some());
    assert!(sidereal_angle(J2000_UNIX - SIDEREAL_RANGE_SECONDS).is_some());
    assert!(sidereal_angle(J2000_UNIX + SIDEREAL_RANGE_SECONDS + 1).is_none());
    assert!(sidereal_angle(J2000_UNIX - SIDEREAL_RANGE_SECONDS - 1).is_none());
    assert!(sidereal_angle(i64::MAX).is_none());
    assert!(sidereal_angle(i64::MIN).is_none());
}

#[test]
fn remainders_lie_between_zero_and_the_divisor() {
    assert_eq!(floor_mod(7, 3), 1);
    assert_eq!(floor_mod(-7, 3), 2);
    assert_eq!(floor_mod(-9, 3), 0);
    assert_eq!(floor_mod(0, 3), 0);
    assert_eq!(floor_mod(i128::MIN, 3), i128::MIN.rem_euclid(3));
    assert_eq!(floor_mod(i128::MIN, i128::MAX), i128::MAX - 1);
    assert_eq!(floor_mod(i128::MAX, i128::MAX), 0);
    for a in -50..50_i128 {
        for b in 1..9_i128 {
            assert_eq!(floor_mod(a, b), a.rem_euclid(b));
        }
    }
}
