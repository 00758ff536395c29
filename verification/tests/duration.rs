use retry_block::duration::Duration;

const MAX_NANOS: u128 = u64::MAX as u128 * 1_000_000_000 + 999_999_999;

#[test]
fn duration_from_secs_counts_nanoseconds() {
    assert_eq!(Duration::from_secs(3).as_nanos(), 3_000_000_000);
    assert_eq!(Duration::from_secs(0), Duration::zero());
    assert_eq!(Duration::from_secs(u64::MAX).as_secs(), u64::MAX);
}

#[test]
fn duration_from_millis_splits_into_parts() {
    let duration = Duration::from_millis(1_500);
    assert_eq!(duration.as_secs(), 1);
    assert_eq!(duration.subsec_nanos(), 500_000_000);
    assert_eq!(duration.as_millis(), 1_500);
    assert_eq!(duration.as_nanos(), 1_500_000_000);
    assert_eq!(Duration::from_millis(u64::MAX).as_millis(), u64::MAX as u128);
}

#[test]
fn duration_new_carries_whole_seconds() {
    assert_eq!(Duration::new(1, 2_500_000_000), Duration::from_millis(3_500));
    assert_eq!(Duration::new(0, 999_999_999).as_nanos(), 999_999_999);
    assert_eq!(Duration::new(u64::MAX, 999_999_999), Duration::max());
}

#[test]
fn duration_agrees_with_std() {
    let ours = Duration::from_millis(12_345);
    let std = std::time::Duration::from_millis(12_345);
    assert_eq!(ours.as_secs(), std.as_secs());
    assert_eq!(ours.subsec_nanos(), std.subsec_nanos());
    assert_eq!(ours.as_millis(), std.as_millis());
    assert_eq!(ours.as_nanos(), std.as_nanos());
    assert_eq!(Duration::max().as_nanos(), std::time::Duration::MAX.as_nanos());
}

#[test]
fn duration_zero_max_and_default() {
    assert_eq!(Duration::zero().as_nanos(), 0);
    assert_eq!(Duration::default(), Duration::zero());
    assert_eq!(Duration::max().as_nanos(), MAX_NANOS);
    assert_eq!(Duration::max().as_secs(), u64::MAX);
    assert_eq!(Duration::max().subsec_nanos(), 999_999_999);
}

#[test]
fn duration_checked_add_carries() {
    let sum = Duration::new(1, 600_000_000).checked_add(Duration::new(2, 700_000_000));
    assert_eq!(sum, Some(Duration::new(4, 300_000_000)));
    let sum = Duration::from_millis(400).checked_add(Duration::from_millis(600));
    assert_eq!(sum, Some(Duration::from_secs(1)));
}

#[test]
fn duration_checked_add_detects_overflow() {
    assert_eq!(Duration::max().checked_add(Duration::new(0, 1)), None);
    assert_eq!(Duration::max().checked_add(Duration::zero()), Some(Duration::max()));
    assert_eq!(Duration::from_secs(u64::MAX).checked_add(Duration::from_secs(1)), None);
    // the carry of the sub-second parts is what overflows
    let nearly = Duration::new(u64::MAX, 500_000_000);
    assert_eq!(nearly.checked_add(Duration::new(0, 500_000_000)), None);
    assert_eq!(nearly.checked_add(Duration::new(0, 499_999_999)), Some(Duration::max()));
}

#[test]
fn duration_saturating_add_holds_at_max() {
    assert_eq!(Duration::max().saturating_add(Duration::max()), Duration::max());
    assert_eq!(Duration::max().saturating_add(Duration::new(0, 1)), Duration::max());
    assert_eq!(
        Duration::from_secs(1).saturating_add(Duration::from_secs(2)),
        Duration::from_secs(3)
    );
}

#[test]
fn duration_le_orders_by_length() {
    assert!(Duration::from_millis(999).le(&Duration::from_secs(1)));
    assert!(Duration::from_secs(1).le(&Duration::from_secs(1)));
    assert!(!Duration::new(1, 1).le(&Duration::from_secs(1)));
    assert!(!Duration::from_secs(2).le(&Duration::new(1, 999_999_999)));
    assert!(Duration::zero().le(&Duration::max()));
}

#[test]
fn duration_checked_mul_multiplies_or_gives_nothing() {
    assert_eq!(Duration::from_millis(1_500).checked_mul(3), Some(Duration::from_millis(4_500)));
    assert_eq!(Duration::from_secs(7).checked_mul(0), Some(Duration::zero()));
    assert_eq!(Duration::max().checked_mul(1), Some(Duration::max()));
    assert_eq!(Duration::max().checked_mul(2), None);
    assert_eq!(Duration::from_secs(u64::MAX / 2 + 1).checked_mul(2), None);
    assert_eq!(
        Duration::new(u64::MAX / 2, 500_000_000).checked_mul(2),
        Some(Duration::from_secs(u64::MAX))
    );
    assert_eq!(Duration::zero().checked_mul(u32::MAX), Some(Duration::zero()));
}

#[test]
fn duration_from_nanos_u128_splits_into_parts() {
    assert_eq!(Duration::from_nanos_u128(1_500_000_001), Duration::new(1, 500_000_001));
    assert_eq!(Duration::from_nanos_u128(MAX_NANOS), Duration::max());
    assert_eq!(Duration::from_nanos_u128(0), Duration::zero());
}
