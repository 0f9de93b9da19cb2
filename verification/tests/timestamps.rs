use eacal::timestamp::{Timestamp, DAY, MAX_LOCAL, MIN_LOCAL};

#[test]
fn range_ends_are_the_ends_of_the_four_digit_years() {
    let first = chrono::NaiveDate::from_ymd_opt(0, 1, 1).unwrap().and_hms_opt(0, 0, 0).unwrap();
    let last = chrono::NaiveDate::from_ymd_opt(9999, 12, 31).unwrap().and_hms_opt(23, 59, 59).unwrap();
    assert_eq!(MIN_LOCAL, first.and_utc().timestamp());
    assert_eq!(MAX_LOCAL, last.and_utc().timestamp());
    assert_eq!(DAY, 86_400);
}

#[test]
fn new_takes_valid_parts() {
    let t = Timestamp::new(1_710_489_600, 0, 3600).unwrap();
    assert_eq!((t.secs, t.nanos, t.offset), (1_710_489_600, 0, 3600));
    assert!(Timestamp::new(0, 1_999_999_999, 0).is_some());
    assert!(Timestamp::new(0, 0, 86_399).is_some());
    assert!(Timestamp::new(0, 0, -86_399).is_some());
    assert!(Timestamp::new(MIN_LOCAL, 0, 0).is_some());
    assert!(Timestamp::new(MAX_LOCAL, 0, 0).is_some());
    assert!(Timestamp::new(MAX_LOCAL + 10, 0, -10).is_some());
}

#[test]
fn new_refuses_invalid_parts() {
    assert!(Timestamp::new(0, 2_000_000_000, 0).is_none());
    assert!(Timestamp::new(0, 0, 86_400).is_none());
    assert!(Timestamp::new(0, 0, -86_400).is_none());
    assert!(Timestamp::new(MIN_LOCAL - 1, 0, 0).is_none());
    assert!(Timestamp::new(MAX_LOCAL + 1, 0, 0).is_none());
    assert!(Timestamp::new(MAX_LOCAL, 0, 1).is_none());
    assert!(Timestamp::new(i64::MAX, 0, 1).is_none());
    assert!(Timestamp::new(i64::MIN, 0, -1).is_none());
}

#[test]
fn is_valid_tests_a_timestamp_made_by_hand() {
    assert!(Timestamp { secs: 0, nanos: 0, offset: 0 }.is_valid());
    assert!(!Timestamp { secs: 0, nanos: 0, offset: 90_000 }.is_valid());
}

#[test]
fn local_time_adds_the_offset() {
    let t = Timestamp::new(1_710_489_600, 0, 3600).unwrap();
    assert_eq!(t.local(), 1_710_493_200);
    assert_eq!(t.time_of_day(), 9 * 3600);
    let before_epoch = Timestamp::new(-1, 0, 0).unwrap();
    assert_eq!(before_epoch.local(), -1);
    assert_eq!(before_epoch.time_of_day(), 86_399);
    let west = Timestamp::new(0, 0, -3600).unwrap();
    assert_eq!(west.time_of_day(), 23 * 3600);
}

#[test]
fn instants_compare_without_the_offset() {
    let a = Timestamp::new(100, 5, 0).unwrap();
    let b = Timestamp::new(100, 5, 7200).unwrap();
    let c = Timestamp::new(100, 6, 0).unwrap();
    let d = Timestamp::new(101, 0, 0).unwrap();
    assert!(a.is_same_instant(&b));
    assert!(!a.is_same_instant(&c));
    assert!(a.is_earlier_than(&c));
    assert!(c.is_earlier_than(&d));
    assert!(!a.is_earlier_than(&b));
    assert!(!d.is_earlier_than(&a));
}
