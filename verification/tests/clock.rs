use pg_ha::clock::{current_millis, millis_of};

#[test]
fn test_nanoseconds_become_milliseconds() {
    assert_eq!(millis_of(Some(1_700_000_000_123_999_999)), 1_700_000_000_123);
    assert_eq!(millis_of(Some(999_999)), 0);
    assert_eq!(millis_of(None), 0);
}

#[test]
fn test_only_the_low_bits_are_kept() {
    let wrapped: u128 = (u64::MAX as u128 + 1) * 1_000_000;
    assert_eq!(millis_of(Some(wrapped)), 0);
    assert_eq!(millis_of(Some(wrapped + 7_000_000)), 7);
}

#[test]
fn test_the_clock_is_read() {
    let a = current_millis();
    let b = current_millis();
    assert!(a > 1_600_000_000_000);
    assert!(b < a + 60_000);
}
