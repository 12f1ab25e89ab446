use veddb_core::clock::{millis_of_reading, secs_of_reading, utc_millis, unix_millis, unix_secs};

#[test]
fn reading_seconds() {
    assert_eq!(secs_of_reading(Some((1_700_000_000, 999_999_999))), 1_700_000_000);
    assert_eq!(secs_of_reading(None), 0);
}

#[test]
fn reading_millis() {
    assert_eq!(millis_of_reading(Some((1_700_000_000, 123_456_789))), 1_700_000_000_123);
    assert_eq!(millis_of_reading(None), 0);
    // Past 64 bits the count wraps.
    let s = u64::MAX / 1000 + 1;
    let exact = s as u128 * 1000 + 5;
    assert_eq!(millis_of_reading(Some((s, 5_000_000))), exact as u64);
}

#[test]
fn utc_millis_saturates() {
    assert_eq!(utc_millis(1_700_000_000, 250_000_000), 1_700_000_000_250);
    assert_eq!(utc_millis(-2, 500_000_000), -1_500);
    assert_eq!(utc_millis(i64::MAX, 0), i64::MAX);
    assert_eq!(utc_millis(i64::MIN, 999_999_999), i64::MIN);
}

#[test]
fn clock_reads_after_the_epoch() {
    assert!(unix_secs() > 1_600_000_000);
    assert!(unix_millis() / 1000 >= 1_600_000_000);
}
