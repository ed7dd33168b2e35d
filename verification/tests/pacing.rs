use subscan::pacing::{
    allowance, elapsed_between, ConfigError, DEFAULT_QPS, IDLE_SLEEP_MILLIS, NANOS_PER_SEC,
};

#[test]
fn constants_have_their_documented_values() {
    assert_eq!(NANOS_PER_SEC, 1_000_000_000);
    assert_eq!(DEFAULT_QPS, 10);
    assert_eq!(IDLE_SLEEP_MILLIS, 20);
}

#[test]
fn nothing_is_allowed_before_an_interval_has_passed() {
    assert_eq!(allowance(0, 10), Ok(0));
    assert_eq!(allowance(99_999_999, 10), Ok(0));
    assert_eq!(allowance(999_999_999, 1), Ok(0));
}

#[test]
fn nothing_is_allowed_at_exactly_one_interval() {
    assert_eq!(allowance(100_000_000, 10), Ok(0));
    assert_eq!(allowance(1_000_000_000, 1), Ok(0));
}

#[test]
fn one_is_allowed_just_after_one_interval() {
    assert_eq!(allowance(100_000_001, 10), Ok(1));
    assert_eq!(allowance(1_000_000_001, 1), Ok(1));
}

#[test]
fn allowance_is_the_number_of_whole_intervals() {
    assert_eq!(allowance(2_000_000_000, 3), Ok(6));
    assert_eq!(allowance(999_999_999, 3), Ok(2));
    assert_eq!(allowance(1_000_000_000, 10), Ok(10));
    assert_eq!(allowance(1_250_000_000, 10), Ok(12));
    assert_eq!(allowance(20_000_000, 1000), Ok(20));
}

#[test]
fn allowance_accumulates_without_a_cap() {
    assert_eq!(allowance(3_600_000_000_000, 10), Ok(36_000));
}

#[test]
fn allowance_holds_for_the_largest_inputs() {
    let expected = (u64::MAX as u128) * (u32::MAX as u128) / 1_000_000_000;
    assert_eq!(allowance(u64::MAX, u32::MAX), Ok(expected));
    assert_eq!(allowance(1, u32::MAX), Ok(4));
}

#[test]
fn zero_rate_is_refused() {
    assert_eq!(allowance(0, 0), Err(ConfigError::ZeroRate));
    assert_eq!(allowance(5_000_000_000, 0), Err(ConfigError::ZeroRate));
}

#[test]
fn elapsed_is_the_difference_of_the_readings() {
    assert_eq!(elapsed_between(5, 12), 7);
    assert_eq!(elapsed_between(0, u64::MAX), u64::MAX);
    assert_eq!(elapsed_between(9, 9), 0);
}

#[test]
fn elapsed_is_zero_when_the_clock_reads_earlier() {
    assert_eq!(elapsed_between(12, 5), 0);
    assert_eq!(elapsed_between(u64::MAX, 0), 0);
}
