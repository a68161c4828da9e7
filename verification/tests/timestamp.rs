use chrono::{DateTime, Utc};
use feattle_core::{Timestamp, FIRST_SECOND, LAST_SECOND};

fn held(seconds: i64, nanos: u32) -> bool {
    Timestamp { seconds, nanos }.is_in_range()
}

#[test]
fn range_ends_where_the_years_of_chrono_end() {
    assert_eq!(DateTime::<Utc>::MIN_UTC.timestamp(), FIRST_SECOND);
    assert_eq!(DateTime::<Utc>::MAX_UTC.timestamp(), LAST_SECOND);
    assert_eq!(FIRST_SECOND, -8_334_601_228_800);
    assert_eq!(LAST_SECOND, 8_210_266_876_799);
}

#[test]
fn times_within_the_range_are_held() {
    assert!(held(0, 0));
    assert!(held(1_700_000_000, 999_999_999));
    assert!(held(-1, 0));
    assert!(held(FIRST_SECOND, 0));
    assert!(held(LAST_SECOND, 999_999_999));
}

#[test]
fn times_outside_the_range_are_not_held() {
    assert!(!held(FIRST_SECOND - 1, 0));
    assert!(!held(FIRST_SECOND - 1, 999_999_999));
    assert!(!held(LAST_SECOND + 1, 0));
    assert!(!held(i64::MIN, 0));
    assert!(!held(i64::MAX, 0));
}

#[test]
fn a_second_of_nanoseconds_or_more_is_held_only_in_the_last_second_of_a_minute() {
    assert!(held(59, 1_000_000_000));
    assert!(held(59, 1_999_999_999));
    assert!(held(119, 1_500_000_000));
    assert!(held(-1, 1_000_000_000));
    assert!(held(-61, 1_999_999_999));
    assert!(held(LAST_SECOND, 1_999_999_999));
    assert!(!held(58, 1_000_000_000));
    assert!(!held(0, 1_000_000_000));
    assert!(!held(60, 1_000_000_000));
    assert!(!held(-2, 1_000_000_000));
    assert!(!held(-60, 1_000_000_000));
    assert!(!held(59, 2_000_000_000));
    assert!(!held(0, 2_000_000_000));
    assert!(!held(59, u32::MAX));
}

#[test]
fn range_is_what_chrono_makes_a_time_of() {
    let seconds = [
        i64::MIN,
        FIRST_SECOND - 86_400,
        FIRST_SECOND - 1,
        FIRST_SECOND,
        FIRST_SECOND + 59,
        -86_401,
        -61,
        -60,
        -2,
        -1,
        0,
        1,
        58,
        59,
        60,
        86_399,
        86_400,
        1_700_000_000,
        LAST_SECOND - 60,
        LAST_SECOND - 1,
        LAST_SECOND,
        LAST_SECOND + 1,
        LAST_SECOND + 86_400,
        i64::MAX,
    ];
    let nanos = [0, 1, 999_999_999, 1_000_000_000, 1_999_999_999, 2_000_000_000, u32::MAX];
    for second in seconds {
        for nano in nanos {
            assert_eq!(
                held(second, nano),
                DateTime::from_timestamp(second, nano).is_some(),
                "at {} s and {} ns",
                second,
                nano
            );
        }
    }
}

#[test]
fn time_held_by_chrono_comes_back_from_its_seconds_and_nanoseconds() {
    for (seconds, nanos) in [(0, 0), (1_700_000_000, 123_456_789), (-1, 999_999_999), (59, 1_500_000_000)] {
        let time = DateTime::from_timestamp(seconds, nanos).unwrap();
        assert_eq!(time.timestamp(), seconds);
        assert_eq!(time.timestamp_subsec_nanos(), nanos);
        assert!(held(time.timestamp(), time.timestamp_subsec_nanos()));
    }
}
