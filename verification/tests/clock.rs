use imessage_rs::clock::{
    clock_value, current_unix_ms, monotonic_ms, saturate_ms, unix_ms_from_millis,
};

#[test]
fn clock_reading_converts_to_millis() {
    assert_eq!(unix_ms_from_millis(Some(1_700_000_000_123)), 1_700_000_000_123);
    assert_eq!(unix_ms_from_millis(None), 0);
    assert_eq!(unix_ms_from_millis(Some(1u128 << 64)), 0);
    assert_eq!(unix_ms_from_millis(Some((1u128 << 63) + 5)), i64::MIN + 5);
}

#[test]
fn clock_value_clamps_negative() {
    assert_eq!(clock_value(-5), 0);
    assert_eq!(clock_value(0), 0);
    assert_eq!(clock_value(42), 42);
}

#[test]
fn clock_reads_after_2020() {
    assert!(current_unix_ms() > 1_577_836_800_000);
}

#[test]
fn millis_saturate_at_u64_max() {
    assert_eq!(saturate_ms(1234), 1234);
    assert_eq!(saturate_ms(u64::MAX as u128), u64::MAX);
    assert_eq!(saturate_ms(u64::MAX as u128 + 1), u64::MAX);
}

#[test]
fn monotonic_clock_starts_near_zero() {
    let origin = std::time::Instant::now();
    let a = monotonic_ms(&origin);
    let b = monotonic_ms(&origin);
    assert!(a <= b);
    assert!(b < 60_000);
}
