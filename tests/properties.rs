use simple_duration::{Duration, DurationError};
use std::time::SystemTime;

#[test]
fn seconds_read_back_unchanged() {
    for s in [0u64, 1, 59, 60, 3599, 3600, 86_399, u64::MAX - 1, u64::MAX] {
        assert_eq!(Duration::from_seconds(s).as_seconds(), s);
    }
}

#[test]
fn parts_rebuild_total() {
    for s in [0u64, 1, 61, 3661, 45_296, 89_999, u64::MAX] {
        let d = Duration::from_seconds(s);
        assert!(d.minutes_part() < 60);
        assert!(d.seconds_part() < 60);
        assert_eq!(d.hours_part(), d.as_hours());
        let rebuilt = d.hours_part() as u128 * 3600 + d.minutes_part() as u128 * 60
            + d.seconds_part() as u128;
        assert_eq!(rebuilt, s as u128);
    }
}

#[test]
fn largest_duration_parts() {
    let d = Duration::from_seconds(u64::MAX);
    assert_eq!(d.hours_part(), 5_124_095_576_030_431);
    assert_eq!(d.minutes_part(), 0);
    assert_eq!(d.seconds_part(), 15);
    assert_eq!(d.format(), "5124095576030431:00:15");
}

#[test]
fn parse_of_format_round_trips() {
    for (h, m, s) in [(0u64, 0u64, 0u64), (1, 2, 3), (99, 59, 59), (100, 0, 0), (123_456, 7, 8)] {
        let d = Duration::from_hms(h, m, s);
        assert_eq!(Duration::parse(&d.format()), Ok(d));
    }
    let max = Duration::from_seconds(u64::MAX);
    assert_eq!(Duration::parse(&max.format()), Ok(max));
}

#[test]
fn parse_and_format_example() {
    let d = Duration::parse("12:34:56").unwrap();
    assert_eq!(d.as_seconds(), 45296);
    assert_eq!(d.format(), "12:34:56");
}

#[test]
fn parse_errors() {
    assert_eq!(Duration::parse("1:2"), Err(DurationError::InvalidFormat));
    assert_eq!(Duration::parse("1:60:30"), Err(DurationError::InvalidValue));
    assert_eq!(Duration::parse("1:30:60"), Err(DurationError::InvalidValue));
    assert_eq!(Duration::parse("24:59:59").unwrap().as_seconds(), 89999);
}

#[test]
fn parse_format_errors() {
    assert_eq!(Duration::parse(""), Err(DurationError::InvalidFormat));
    assert_eq!(Duration::parse("invalid"), Err(DurationError::InvalidFormat));
    assert_eq!(Duration::parse("1:2:3:4"), Err(DurationError::InvalidFormat));
    assert_eq!(Duration::parse("::"), Err(DurationError::InvalidValue));
}

#[test]
fn parse_value_errors() {
    assert_eq!(Duration::parse("-1:00:00"), Err(DurationError::InvalidValue));
    assert_eq!(Duration::parse(" 1:00:00"), Err(DurationError::InvalidValue));
    assert_eq!(Duration::parse("1:0a:00"), Err(DurationError::InvalidValue));
    assert_eq!(Duration::parse("1::00"), Err(DurationError::InvalidValue));
    assert_eq!(
        Duration::parse("18446744073709551616:00:00"),
        Err(DurationError::InvalidValue)
    );
    assert_eq!(Duration::parse("1:00:99999999999999999999"), Err(DurationError::InvalidValue));
}

#[test]
fn parse_accepts_unpadded_and_long_hours() {
    assert_eq!(Duration::parse("1:2:3").unwrap().as_seconds(), 3723);
    assert_eq!(Duration::parse("100:00:00").unwrap().as_seconds(), 360_000);
    assert_eq!(Duration::parse("0001:02:03").unwrap().as_seconds(), 3723);
}

#[test]
fn parse_wraps_huge_hours() {
    let d = Duration::parse("18446744073709551615:00:00").unwrap();
    assert_eq!(d.as_seconds(), u64::MAX.wrapping_mul(3600));
}

#[test]
fn saturating_add_holds_at_max() {
    let sum = Duration::from_seconds(u64::MAX) + Duration::from_seconds(1);
    assert_eq!(sum, Duration::from_seconds(u64::MAX));
    assert_eq!(
        Duration::from_seconds(7).saturating_add(Duration::from_seconds(5)),
        Duration::from_seconds(12)
    );
}

#[test]
fn saturating_sub_holds_at_zero() {
    let diff = Duration::from_seconds(50) - Duration::from_seconds(100);
    assert_eq!(diff, Duration::from_seconds(0));
    assert_eq!(
        Duration::from_seconds(100).saturating_sub(Duration::from_seconds(100)),
        Duration::zero()
    );
}

#[test]
fn zero_is_zero() {
    assert!(Duration::zero().is_zero());
    assert!(!Duration::from_seconds(1).is_zero());
}

#[test]
fn order_follows_seconds() {
    let values = [0u64, 1, 59, 3600, u64::MAX];
    for a in values {
        for b in values {
            let da = Duration::from_seconds(a);
            let db = Duration::from_seconds(b);
            assert_eq!(da < db, a < b);
            assert_eq!(da <= db, a <= b);
            assert_eq!(da > db, a > b);
            assert_eq!(da == db, a == b);
            assert_eq!(da.partial_cmp(&db), a.partial_cmp(&b));
            assert_eq!(da.cmp(&db), a.cmp(&b));
        }
    }
}

#[test]
fn format_has_two_separators_and_digit_fields() {
    for s in [0u64, 5, 3661, 359_999, 360_000, u64::MAX] {
        let text = Duration::from_seconds(s).format();
        let fields: Vec<&str> = text.split(':').collect();
        assert_eq!(fields.len(), 3);
        for f in fields {
            assert!(f.len() >= 2);
            assert!(f.chars().all(|c| c.is_ascii_digit()));
        }
    }
}

#[test]
fn format_pads_and_grows() {
    assert_eq!(Duration::from_hours(100).format(), "100:00:00");
    assert_eq!(Duration::from_seconds(9).format(), "00:00:09");
    assert_eq!(Duration::from_seconds(36_000 + 600 + 10).format(), "10:10:10");
}

#[test]
fn from_hms_normalizes() {
    assert_eq!(Duration::from_hms(0, 90, 0), Duration::from_hms(1, 30, 0));
    assert_eq!(Duration::from_hms(0, 0, 3661).format(), "01:01:01");
    assert_eq!(Duration::from_minutes(90).as_seconds(), 5400);
    assert_eq!(Duration::from_hours(2).as_seconds(), 7200);
}

#[test]
fn unit_constructors_wrap() {
    assert_eq!(Duration::from_minutes(u64::MAX).as_seconds(), u64::MAX.wrapping_mul(60));
    assert_eq!(Duration::from_hours(u64::MAX).as_seconds(), u64::MAX.wrapping_mul(3600));
    assert_eq!(
        Duration::from_hms(0, 0, u64::MAX).as_seconds(),
        u64::MAX
    );
    assert_eq!(Duration::from_hms(0, 1, u64::MAX).as_seconds(), 59);
}

#[test]
fn elapsed_seconds_map_to_durations() {
    assert_eq!(Duration::from_elapsed_secs(Some(42)), Some(Duration::from_seconds(42)));
    assert_eq!(Duration::from_elapsed_secs(None), None);
}

#[test]
fn system_time_inverted_is_none() {
    let start = SystemTime::now();
    let end = start + std::time::Duration::from_millis(100_500);
    assert_eq!(Duration::from_system_time_diff(start, end), Some(Duration::from_seconds(100)));
    assert_eq!(Duration::from_system_time_diff(end, start), None);
}
