use gmap::model::{DateRange, Timestamp, SCHEMA_VERSION};

fn at(secs: i64) -> Timestamp {
    Timestamp::from_secs(secs)
}

#[test]
fn open_range_contains_every_instant() {
    let range = DateRange::new();
    assert!(range.contains(&at(i64::MIN)));
    assert!(range.contains(&at(0)));
    assert!(range.contains(&at(i64::MAX)));
    let default = DateRange::default();
    assert!(default.since.is_none() && default.until.is_none());
}

#[test]
fn range_bounds_are_inclusive() {
    let range = DateRange::new().with_since(at(100)).with_until(at(200));
    assert!(!range.contains(&at(99)));
    assert!(range.contains(&at(100)));
    assert!(range.contains(&at(150)));
    assert!(range.contains(&at(200)));
    assert!(!range.contains(&at(201)));
}

#[test]
fn range_with_one_bound_is_open_on_the_other_side() {
    let since = DateRange::new().with_since(at(100));
    assert!(!since.contains(&at(99)));
    assert!(since.contains(&at(i64::MAX)));
    let until = DateRange::new().with_until(at(100));
    assert!(until.contains(&at(i64::MIN)));
    assert!(!until.contains(&at(101)));
}

#[test]
fn range_compares_fractions_of_a_second() {
    let half = Timestamp { secs: 100, nanos: 500_000_000 };
    let range = DateRange::new().with_since(half).with_until(half);
    assert!(range.contains(&half));
    assert!(!range.contains(&at(100)));
    assert!(!range.contains(&Timestamp { secs: 100, nanos: 500_000_001 }));
    assert!(!range.contains(&at(101)));
    let wide = DateRange::new().with_since(at(100)).with_until(at(101));
    assert!(wide.contains(&half));
}

#[test]
fn empty_range_contains_nothing() {
    let range = DateRange::new().with_since(at(200)).with_until(at(100));
    assert!(!range.contains(&at(100)));
    assert!(!range.contains(&at(150)));
    assert!(!range.contains(&at(200)));
}

#[test]
fn timestamps_are_ordered_by_seconds_then_nanoseconds() {
    assert!(at(1).before(&at(2)));
    assert!(!at(2).before(&at(1)));
    assert!(!at(1).before(&at(1)));
    assert!(Timestamp { secs: 1, nanos: 999_999_999 }.before(&at(2)));
    assert!(Timestamp { secs: 1, nanos: 1 }.before(&Timestamp { secs: 1, nanos: 2 }));
    assert!(at(-5).before(&at(-4)));
}

#[test]
fn schema_version_is_one() {
    assert_eq!(SCHEMA_VERSION, 1);
}
