use earthpulse::epoch::{
    epoch_to_instant, seconds_since_epoch, CalendarEpoch, MAX_YEAR, MIN_YEAR, UNIX_EPOCH_DAY,
};
use earthpulse::error::OrbitError;
use earthpulse::timeline::{instants_through, sample_instants, scan_instants, window_end};

fn at(year: i32, month: u32, day: u32, hour: u32, minute: u32, second: u32) -> CalendarEpoch {
    CalendarEpoch { year, month, day, hour, minute, second, nanosecond: 0 }
}

fn chrono_seconds(e: &CalendarEpoch) -> Option<i64> {
    let date = chrono::NaiveDate::from_ymd_opt(e.year, e.month, e.day)?;
    let moment = date.and_hms_nano_opt(e.hour, e.minute, e.second, e.nanosecond)?;
    Some(moment.and_utc().timestamp())
}

#[test]
fn known_instants_have_their_unix_seconds() {
    assert_eq!(epoch_to_instant(&at(1970, 1, 1, 0, 0, 0)), Ok(0));
    assert_eq!(epoch_to_instant(&at(1970, 1, 1, 0, 0, 1)), Ok(1));
    assert_eq!(epoch_to_instant(&at(1969, 12, 31, 23, 59, 59)), Ok(-1));
    assert_eq!(epoch_to_instant(&at(2000, 1, 1, 12, 0, 0)), Ok(946_728_000));
    assert_eq!(epoch_to_instant(&at(2000, 1, 1, 0, 0, 0)), Ok(946_684_800));
    assert_eq!(epoch_to_instant(&at(2008, 9, 20, 12, 25, 40)), Ok(1_221_913_540));
    assert_eq!(epoch_to_instant(&at(2024, 2, 29, 0, 0, 0)), Ok(1_709_164_800));
    assert_eq!(epoch_to_instant(&at(2038, 1, 19, 3, 14, 8)), Ok(2_147_483_648));
    assert_eq!(UNIX_EPOCH_DAY, 719_163);
}

#[test]
fn fraction_of_a_second_is_dropped() {
    let mut e = at(2008, 9, 20, 12, 25, 40);
    e.nanosecond = 999_999_999;
    assert_eq!(epoch_to_instant(&e), Ok(1_221_913_540));
    let mut leap = at(2016, 12, 31, 23, 59, 59);
    leap.nanosecond = 1_500_000_000;
    assert_eq!(epoch_to_instant(&leap), Ok(1_483_228_799));
}

#[test]
fn fields_that_name_no_instant_are_a_malformed_epoch() {
    let bad = [
        at(2023, 0, 1, 0, 0, 0),
        at(2023, 13, 1, 0, 0, 0),
        at(2023, 1, 0, 0, 0, 0),
        at(2023, 1, 32, 0, 0, 0),
        at(2023, 4, 31, 0, 0, 0),
        at(2023, 2, 29, 0, 0, 0),
        at(1900, 2, 29, 0, 0, 0),
        at(2023, 1, 1, 24, 0, 0),
        at(2023, 1, 1, 0, 60, 0),
        at(2023, 1, 1, 0, 0, 60),
        at(MAX_YEAR + 1, 1, 1, 0, 0, 0),
        at(MIN_YEAR - 1, 1, 1, 0, 0, 0),
        at(i32::MAX, 1, 1, 0, 0, 0),
        at(i32::MIN, 12, 31, 0, 0, 0),
    ];
    for e in bad {
        assert_eq!(epoch_to_instant(&e), Err(OrbitError::MalformedEpoch));
    }
    let mut nanos = at(2023, 1, 1, 0, 0, 58);
    nanos.nanosecond = 1_000_000_000;
    assert_eq!(epoch_to_instant(&nanos), Err(OrbitError::MalformedEpoch));
    let mut too_many = at(2023, 1, 1, 0, 0, 59);
    too_many.nanosecond = 2_000_000_000;
    assert_eq!(epoch_to_instant(&too_many), Err(OrbitError::MalformedEpoch));
}

#[test]
fn leap_days_exist_where_the_calendar_has_them() {
    assert!(epoch_to_instant(&at(2000, 2, 29, 0, 0, 0)).is_ok());
    assert!(epoch_to_instant(&at(2004, 2, 29, 0, 0, 0)).is_ok());
    assert!(epoch_to_instant(&at(2100, 2, 29, 0, 0, 0)).is_err());
    assert!(epoch_to_instant(&at(-4, 2, 29, 0, 0, 0)).is_ok());
    assert!(epoch_to_instant(&at(0, 2, 29, 0, 0, 0)).is_ok());
    assert!(epoch_to_instant(&at(MAX_YEAR, 12, 31, 23, 59, 59)).is_ok());
    assert!(epoch_to_instant(&at(MIN_YEAR, 1, 1, 0, 0, 0)).is_ok());
}

#[test]
fn instants_agree_with_the_calendar_arithmetic() {
    fn leap(y: i64) -> bool {
        y.rem_euclid(4) == 0 && (y.rem_euclid(100) != 0 || y.rem_euclid(400) == 0)
    }
    fn days_before_year(y: i64) -> i64 {
        let p = y - 1;
        365 * p + p.div_euclid(4) - p.div_euclid(100) + p.div_euclid(400)
    }
    let lengths = [31, 28, 31, 30, 31, 30, 31, 31, 30, 31, 30, 31];
    for year in [-262_143_i64, -400, -1, 0, 1, 1582, 1900, 1969, 1970, 2000, 2024, 2100, 262_142] {
        let mut before = 0;
        for month in 1..=12_i64 {
            let length = lengths[(month - 1) as usize] + if month == 2 && leap(year) { 1 } else { 0 };
            for day in [1, length] {
                let e = CalendarEpoch {
                    year: year as i32,
                    month: month as u32,
                    day: day as u32,
                    hour: 13,
                    minute: 7,
                    second: 11,
                    nanosecond: 5,
                };
                let days = days_before_year(year) + before + day - 719_163;
                let expected = days * 86_400 + 13 * 3_600 + 7 * 60 + 11;
                assert_eq!(epoch_to_instant(&e), Ok(expected));
                assert_eq!(chrono_seconds(&e), Some(expected));
            }
            let past_end = CalendarEpoch {
                year: year as i32,
                month: month as u32,
                day: (length + 1) as u32,
                hour: 0,
                minute: 0,
                second: 0,
                nanosecond: 0,
            };
            assert_eq!(epoch_to_instant(&past_end), Err(OrbitError::MalformedEpoch));
            before += length;
        }
    }
}

#[test]
fn offset_from_the_epoch_is_signed() {
    assert_eq!(seconds_since_epoch(1_000, 1_600), 600);
    assert_eq!(seconds_since_epoch(1_600, 1_000), -600);
    assert_eq!(seconds_since_epoch(5, 5), 0);
    assert_eq!(seconds_since_epoch(i64::MIN, i64::MAX), i64::MAX as i128 - i64::MIN as i128);
    assert_eq!(seconds_since_epoch(i64::MAX, i64::MIN), i64::MIN as i128 - i64::MAX as i128);
}

#[test]
fn track_is_sampled_from_start_through_end() {
    let instants = sample_instants(1_000, 92, 30);
    assert_eq!(instants.len(), 185);
    assert_eq!(instants[0], 1_000);
    assert_eq!(instants[1], 1_030);
    assert_eq!(instants[184], 6_520);
    for (i, t) in instants.iter().enumerate() {
        assert_eq!(*t, 1_000 + 30 * i as i64);
    }
}

#[test]
fn track_window_edge_cases() {
    assert_eq!(sample_instants(500, 0, 30), vec![500]);
    assert_eq!(sample_instants(500, 1, 30), vec![500, 530, 560]);
    assert_eq!(sample_instants(500, 1, 45), vec![500, 545]);
    assert_eq!(sample_instants(500, 1, 60), vec![500, 560]);
    assert_eq!(sample_instants(500, 1, 61), vec![500]);
    assert!(sample_instants(500, -1, 30).is_empty());
    assert!(sample_instants(500, -1, 120).is_empty());
    assert_eq!(sample_instants(-90, 1, 30), vec![-90, -60, -30]);
    assert_eq!(sample_instants(i64::MAX - 60, 1, 30), vec![i64::MAX - 60, i64::MAX - 30, i64::MAX]);
}

#[test]
fn scan_looks_every_step_before_the_end_of_the_window() {
    let end = window_end(0, 24).unwrap();
    assert_eq!(end, 86_400);
    let instants = scan_instants(0, end, 30);
    assert_eq!(instants.len(), 2_880);
    assert_eq!(instants[0], 0);
    assert_eq!(instants[2_879], 86_370);
    assert_eq!(scan_instants(100, 190, 30), vec![100, 130, 160]);
    assert_eq!(scan_instants(100, 191, 30), vec![100, 130, 160, 190]);
    assert_eq!(scan_instants(100, 101, 30), vec![100]);
    assert!(scan_instants(100, 100, 30).is_empty());
    assert!(scan_instants(100, 50, 30).is_empty());
    assert!(scan_instants(i64::MIN, i64::MIN, 1).is_empty());
    assert_eq!(scan_instants(i64::MAX - 1, i64::MAX, 30), vec![i64::MAX - 1]);
}

#[test]
fn window_end_is_refused_where_it_cannot_be_held() {
    assert_eq!(window_end(1_700_000_000, 24), Some(1_700_086_400));
    assert_eq!(window_end(1_700_000_000, 0), Some(1_700_000_000));
    assert_eq!(window_end(1_700_000_000, -1), Some(1_699_996_400));
    assert_eq!(window_end(i64::MAX, 1), None);
    assert_eq!(window_end(0, i64::MAX), None);
    assert_eq!(window_end(i64::MIN, -1), None);
    assert_eq!(window_end(i64::MAX - 3_600, 1), Some(i64::MAX));
}

#[test]
fn run_of_instants_is_inclusive() {
    assert_eq!(instants_through(0, 0, 10), vec![0]);
    assert_eq!(instants_through(0, 9, 10), vec![0]);
    assert_eq!(instants_through(0, 10, 10), vec![0, 10]);
    assert_eq!(instants_through(-5, 5, 5), vec![-5, 0, 5]);
    assert!(instants_through(1, 0, 10).is_empty());
    assert_eq!(instants_through(i64::MIN, i64::MIN + 2, 1).len(), 3);
    assert_eq!(instants_through(i64::MIN, i64::MAX, i64::MAX), vec![i64::MIN, -1, i64::MAX - 1]);
}
