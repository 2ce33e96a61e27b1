use earthpulse::elements::{has_tle_line_shape, OrbitalElementSet, TLE_LINE_LENGTH};
use earthpulse::epoch::CalendarEpoch;
use earthpulse::error::OrbitError;
use earthpulse::geodetic::inertial_to_geodetic;
use earthpulse::propagation::{
    integer_sqrt, is_plausible_radius, magnitude, propagate_position, propagation_result,
    speed_km_per_h, InertialState, PropagationResult, Vector3, MAX_ORBIT_RADIUS_M,
    MIN_ORBIT_RADIUS_M,
};

const ISS_1: &str = "1 25544U 98067A   08264.51782528 -.00002182  00000-0 -11606-4 0  2927";
const ISS_2: &str = "2 25544  51.6416 247.4627 0006703 130.5360 325.0288 15.72125391563537";
const LEO_1: &str = "1 28057U 03049A   06177.78615833  .00000060  00000-0  35940-4 0  1836";
const LEO_2: &str = "2 28057  98.4283 247.6961 0000884  88.1964 271.9322 14.35478080140550";
const MEO_1: &str = "1 28129U 03058A   06175.57071136 -.00000104  00000-0  10000-3 0   459";
const MEO_2: &str = "2 28129  54.7298 324.8098 0048506 266.2640  93.1663  2.00562768 18443";
const GEO_1: &str = "1 26900U 01039A   06106.74503247  .00000045  00000-0  10000-3 0  8290";
const GEO_2: &str = "2 26900   0.0164 266.5378 0003319  86.1794 182.2590  1.00273847 16981";

#[test]
fn element_set_is_parsed_with_its_fields() {
    let set = OrbitalElementSet::parse("ISS (ZARYA)", ISS_1, ISS_2).unwrap();
    assert_eq!(set.name(), "ISS (ZARYA)");
    assert_eq!(set.line1(), ISS_1);
    assert_eq!(set.line2(), ISS_2);
    assert_eq!(set.catalog_number(), 25544);
    let epoch = set.epoch();
    assert_eq!(epoch.year, 2008);
    assert_eq!(epoch.month, 9);
    assert_eq!(epoch.day, 20);
    assert_eq!(epoch.hour, 12);
    assert_eq!(epoch.minute, 25);
    assert_eq!(epoch.second, 40);
    assert_eq!(set.epoch_instant(), Ok(1_221_913_540));
}

#[test]
fn parsed_fields_are_those_of_the_parser() {
    for (l1, l2) in [(ISS_1, ISS_2), (LEO_1, LEO_2), (MEO_1, MEO_2), (GEO_1, GEO_2)] {
        let set = OrbitalElementSet::parse("x", l1, l2).unwrap();
        let direct = sgp4::Elements::from_tle(None, l1.as_bytes(), l2.as_bytes()).unwrap();
        assert_eq!(set.catalog_number(), direct.norad_id);
        let d = direct.datetime;
        assert_eq!(
            set.epoch(),
            CalendarEpoch {
                year: chrono::Datelike::year(&d),
                month: chrono::Datelike::month(&d),
                day: chrono::Datelike::day(&d),
                hour: chrono::Timelike::hour(&d),
                minute: chrono::Timelike::minute(&d),
                second: chrono::Timelike::second(&d),
                nanosecond: chrono::Timelike::nanosecond(&d),
            }
        );
        assert_eq!(set.epoch_instant(), Ok(d.and_utc().timestamp()));
    }
}

#[test]
fn malformed_lines_are_rejected() {
    let malformed = OrbitError::MalformedElementSet;
    let cases: Vec<(String, String)> = vec![
        (String::new(), String::new()),
        (ISS_1.to_string(), String::new()),
        (String::new(), ISS_2.to_string()),
        (ISS_2.to_string(), ISS_1.to_string()),
        (ISS_1[..68].to_string(), ISS_2.to_string()),
        (format!("{} ", ISS_1), ISS_2.to_string()),
        (ISS_1.replace("2927", "2928"), ISS_2.to_string()),
        (ISS_1.to_string(), ISS_2.replace("563537", "563530")),
        (ISS_1.replace("2927", "292 "), ISS_2.to_string()),
        (ISS_1.replace("2927", "292x"), ISS_2.to_string()),
        (ISS_1.replace("25544U", "25545U"), ISS_2.to_string()),
        (ISS_1.replace("08264", "08400"), ISS_2.to_string()),
        (ISS_1.replace("98067A", "9806é"), ISS_2.to_string()),
        ("garbage".to_string(), "more garbage".to_string()),
    ];
    for (l1, l2) in cases {
        match OrbitalElementSet::parse("sat", &l1, &l2) {
            Err(e) => assert_eq!(e, malformed),
            Ok(_) => panic!("accepted {:?} / {:?}", l1, l2),
        }
    }
}

#[test]
fn line_shape_is_69_ascii_characters_ending_in_a_digit() {
    assert_eq!(TLE_LINE_LENGTH, 69);
    assert!(has_tle_line_shape(ISS_1));
    assert!(has_tle_line_shape(ISS_2));
    assert!(!has_tle_line_shape(""));
    assert!(!has_tle_line_shape(&ISS_1[..68]));
    assert!(!has_tle_line_shape(&format!("{}0", ISS_1)));
    assert!(!has_tle_line_shape(&ISS_1.replace("2927", "292 ")));
    assert!(!has_tle_line_shape(&ISS_1.replace("2927", "292/")));
    assert!(!has_tle_line_shape(&ISS_1.replace("2927", "292:")));
    assert!(has_tle_line_shape(&ISS_1.replace("2927", "2920")));
    assert!(has_tle_line_shape(&ISS_1.replace("2927", "2929")));
    assert!(!has_tle_line_shape(&ISS_1.replace("98067A", "9806é")));
    assert!(has_tle_line_shape(&"7".repeat(69)));
}

#[test]
fn descriptions_of_the_failures() {
    assert_eq!(OrbitError::MalformedElementSet.description(), "malformed element set");
    assert_eq!(OrbitError::MalformedEpoch.description(), "malformed epoch");
    assert_eq!(OrbitError::PropagationFailed.description(), "propagation failed");
}

#[test]
fn square_roots_are_rounded_down() {
    assert_eq!(integer_sqrt(0), 0);
    assert_eq!(integer_sqrt(1), 1);
    assert_eq!(integer_sqrt(2), 1);
    assert_eq!(integer_sqrt(3), 1);
    assert_eq!(integer_sqrt(4), 2);
    assert_eq!(integer_sqrt(24), 4);
    assert_eq!(integer_sqrt(25), 5);
    assert_eq!(integer_sqrt(26), 5);
    assert_eq!(integer_sqrt(1_000_000_000_000), 1_000_000);
    assert_eq!(integer_sqrt(999_999_999_999), 999_999);
    assert_eq!(integer_sqrt(u64::MAX as u128 * u64::MAX as u128), u64::MAX);
    assert_eq!(integer_sqrt(u64::MAX as u128 * u64::MAX as u128 - 1), u64::MAX - 1);
    assert_eq!(integer_sqrt(u128::MAX), u64::MAX);
}

#[test]
fn length_of_a_vector() {
    assert_eq!(magnitude(&Vector3 { x: 0, y: 0, z: 0 }), 0);
    assert_eq!(magnitude(&Vector3 { x: 3, y: 4, z: 0 }), 5);
    assert_eq!(magnitude(&Vector3 { x: -3, y: 0, z: -4 }), 5);
    assert_eq!(magnitude(&Vector3 { x: 1, y: 1, z: 1 }), 1);
    assert_eq!(magnitude(&Vector3 { x: 2, y: 3, z: 6 }), 7);
    assert_eq!(magnitude(&Vector3 { x: 6_771_000, y: 0, z: 0 }), 6_771_000);
    let extreme = magnitude(&Vector3 { x: i64::MIN, y: i64::MIN, z: i64::MIN });
    let n = 3 * (1_u128 << 126);
    assert!((extreme as u128) * (extreme as u128) <= n);
    assert!(n - (extreme as u128) * (extreme as u128) <= 2 * extreme as u128);
}

#[test]
fn failed_propagation_is_reported_as_such() {
    let state = InertialState {
        position: Vector3 { x: 1, y: 2, z: 3 },
        velocity: Vector3 { x: 4, y: 5, z: 6 },
    };
    assert_eq!(
        propagation_result(77, Some(state)),
        Ok(PropagationResult {
            instant: 77,
            position: Vector3 { x: 1, y: 2, z: 3 },
            velocity: Vector3 { x: 4, y: 5, z: 6 },
        })
    );
    assert_eq!(propagation_result(77, None), Err(OrbitError::PropagationFailed));
}

#[test]
fn plausible_radii_run_from_low_to_geostationary_orbit() {
    assert_eq!(MIN_ORBIT_RADIUS_M, 6_400_000);
    assert_eq!(MAX_ORBIT_RADIUS_M, 45_000_000);
    assert!(!is_plausible_radius(0));
    assert!(!is_plausible_radius(6_399_999));
    assert!(is_plausible_radius(6_400_000));
    assert!(is_plausible_radius(42_164_000));
    assert!(is_plausible_radius(45_000_000));
    assert!(!is_plausible_radius(45_000_001));
}

#[test]
fn speed_in_kilometres_per_hour() {
    assert_eq!(speed_km_per_h(0), 0);
    assert_eq!(speed_km_per_h(1_000_000), 3_600);
    assert_eq!(speed_km_per_h(7_660_000), 27_576);
    assert_eq!(speed_km_per_h(277), 0);
    assert_eq!(speed_km_per_h(278), 1);
    assert_eq!(speed_km_per_h(u64::MAX), 66_408_278_665_354_385);
}

fn metres(km: f64) -> i64 {
    (km * 1000.0).round() as i64
}

fn state_at(constants: &sgp4::Constants, minutes: f64) -> Option<InertialState> {
    let p = constants.propagate(sgp4::MinutesSinceEpoch(minutes)).ok()?;
    Some(InertialState {
        position: Vector3 {
            x: metres(p.position[0]),
            y: metres(p.position[1]),
            z: metres(p.position[2]),
        },
        velocity: Vector3 {
            x: (p.velocity[0] * 1e6).round() as i64,
            y: (p.velocity[1] * 1e6).round() as i64,
            z: (p.velocity[2] * 1e6).round() as i64,
        },
    })
}

#[test]
fn propagated_positions_lie_between_low_and_geostationary_orbit() {
    for (l1, l2) in [(LEO_1, LEO_2), (MEO_1, MEO_2), (GEO_1, GEO_2)] {
        let set = OrbitalElementSet::parse("sat", l1, l2).unwrap();
        let elements =
            sgp4::Elements::from_tle(None, set.line1().as_bytes(), set.line2().as_bytes()).unwrap();
        let constants = sgp4::Constants::from_elements(&elements).unwrap();
        let epoch = set.epoch_instant().unwrap();
        for days in [-30_i64, -7, -1, 0, 1, 7, 30] {
            let target = epoch + days * 86_400;
            let minutes = seconds_to_minutes(epoch, target);
            let result = propagation_result(target, state_at(&constants, minutes)).unwrap();
            assert_eq!(result.instant, target);
            let radius = magnitude(&result.position);
            assert!(is_plausible_radius(radius), "radius {} m", radius);
        }
    }
}

fn seconds_to_minutes(epoch: i64, target: i64) -> f64 {
    earthpulse::epoch::seconds_since_epoch(epoch, target) as f64 / 60.0
}

#[test]
fn propagation_is_repeatable() {
    let elements = sgp4::Elements::from_tle(None, ISS_1.as_bytes(), ISS_2.as_bytes()).unwrap();
    let constants = sgp4::Constants::from_elements(&elements).unwrap();
    for minutes in [-1440.0, 0.0, 0.5, 92.0, 1440.0] {
        let a = constants.propagate(sgp4::MinutesSinceEpoch(minutes)).unwrap();
        let b = constants.propagate(sgp4::MinutesSinceEpoch(minutes)).unwrap();
        for k in 0..3 {
            assert_eq!(a.position[k].to_bits(), b.position[k].to_bits());
            assert_eq!(a.velocity[k].to_bits(), b.velocity[k].to_bits());
        }
        let first = propagation_result(5, state_at(&constants, minutes));
        let second = propagation_result(5, state_at(&constants, minutes));
        assert_eq!(first, second);
    }
}

#[test]
fn position_of_a_satellite_is_described() {
    let elements = sgp4::Elements::from_tle(None, ISS_1.as_bytes(), ISS_2.as_bytes()).unwrap();
    let constants = sgp4::Constants::from_elements(&elements).unwrap();
    let state = state_at(&constants, 0.0).unwrap();
    let p = state.position;
    let (x, y, z) = (p.x as f64, p.y as f64, p.z as f64);
    let right_ascension = (y.atan2(x).to_degrees() * 1e6).round() as i64;
    let declination = (z.atan2((x * x + y * y).sqrt()).to_degrees() * 1e6).round() as i64;
    let fix = inertial_to_geodetic(right_ascension, declination, magnitude(&p), 123_456_789).unwrap();
    assert!(fix.latitude().abs() <= 51_700_000);
    assert!(fix.longitude() > -180_000_000 && fix.longitude() <= 180_000_000);
    assert!(fix.altitude_m() > 300_000 && fix.altitude_m() < 450_000);
    let position = propagate_position("sat-25544", "ISS (ZARYA)", 1_221_913_540, &fix, &state.velocity);
    assert_eq!(position.id, "sat-25544");
    assert_eq!(position.name, "ISS (ZARYA)");
    assert_eq!(position.latitude, fix.latitude());
    assert_eq!(position.longitude, fix.longitude());
    assert_eq!(position.altitude_m, fix.altitude_m());
    assert_eq!(position.timestamp, 1_221_913_540);
    assert_eq!(position.speed_mm_s, magnitude(&state.velocity));
    let kmh = speed_km_per_h(position.speed_mm_s);
    assert!(kmh > 27_000 && kmh < 28_500, "speed {} km/h", kmh);
}
