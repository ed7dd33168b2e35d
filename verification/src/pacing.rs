//! Pacing: how many lookups a rate permits after a stretch of time.
//!
//! Time is counted in nanoseconds. A rate of `qps` lookups per second earns one
//! lookup per interval of `1 / qps` seconds, so after `elapsed` nanoseconds the
//! credit is `elapsed * qps / 1_000_000_000`, rounded down. Nothing is permitted
//! until more than one interval has passed.

use vstd::prelude::*;

verus! {

/// Nanoseconds in one second.
pub const NANOS_PER_SEC: u64 = 1_000_000_000;

/// The rate of a run that names none.
pub const DEFAULT_QPS: u32 = 10;

/// How long the caller sleeps when there is nothing to wait for, in milliseconds.
pub const IDLE_SLEEP_MILLIS: u64 = 20;

/// Why a run cannot be set up.
#[derive(Debug, Clone, Copy, PartialEq, Eq, Structural)]
pub enum ConfigError {
    /// The rate is zero lookups per second.
    ZeroRate,
}

/// The number of whole intervals of `1 / qps` seconds in `elapsed` nanoseconds.
pub open spec fn credit(elapsed: int, qps: int) -> int {
    (elapsed * qps) / (NANOS_PER_SEC as int)
}

/// Whether `elapsed` nanoseconds are more than one interval of `1 / qps` seconds.
pub open spec fn interval_passed(elapsed: int, qps: int) -> bool {
    elapsed * qps > NANOS_PER_SEC
}

/// The number of new lookups permitted `elapsed` nanoseconds after the last
/// dispatch: the credit once more than one interval has passed, nothing before.
pub open spec fn allowance_spec(elapsed: int, qps: int) -> int {
    if interval_passed(elapsed, qps) {
        credit(elapsed, qps)
    } else {
        0
    }
}

/// The time that has passed at `now` since `since`; none if the clock reads earlier.
pub open spec fn elapsed_spec(since: int, now: int) -> int {
    if now >= since {
        now - since
    } else {
        0
    }
}

/// Nanoseconds from `since` to `now`, zero where `now` is the earlier of the two.
pub fn elapsed_between(since: u64, now: u64) -> (elapsed: u64)
    ensures
        elapsed == elapsed_spec(since as int, now as int),
{
    if now >= since {
        now - since
    } else {
        0
    }
}

/// The product of a clock difference and a rate fits in 128 bits.
proof fn lemma_product_bound(elapsed: int, qps: int)
    requires
        0 <= elapsed <= u64::MAX,
        0 <= qps <= u32::MAX,
    ensures
        0 <= elapsed * qps <= 0xffff_ffff_ffff_ffff * 0xffff_ffff,
{
    assert(0 <= elapsed * qps <= 0xffff_ffff_ffff_ffff * 0xffff_ffff) by (nonlinear_arith)
        requires
            0 <= elapsed <= 0xffff_ffff_ffff_ffff,
            0 <= qps <= 0xffff_ffff,
    ;
}

/// The pacing controller: the number of lookups that may start when `elapsed`
/// nanoseconds have passed since the last dispatch, at `qps` lookups per second.
/// A rate of zero is refused; every other rate has an allowance.
pub fn allowance(elapsed: u64, qps: u32) -> (allowed: Result<u128, ConfigError>)
    ensures
        qps == 0 <==> allowed is Err,
        allowed matches Err(error) ==> error == ConfigError::ZeroRate,
        allowed matches Ok(count) ==> count == allowance_spec(elapsed as int, qps as int),
{
    if qps == 0 {
        return Err(ConfigError::ZeroRate);
    }
    proof {
        lemma_product_bound(elapsed as int, qps as int);
    }
    let product: u128 = (elapsed as u128) * (qps as u128);
    if product > NANOS_PER_SEC as u128 {
        Ok(product / (NANOS_PER_SEC as u128))
    } else {
        Ok(0)
    }
}

/// The allowance never exceeds the credit and falls short of it by at most one
/// lookup; it falls short only when exactly one interval has passed.
pub proof fn lemma_allowance_tracks_credit(elapsed: int, qps: int)
    requires
        0 <= elapsed,
        0 < qps,
    ensures
        credit(elapsed, qps) - 1 <= allowance_spec(elapsed, qps) <= credit(elapsed, qps),
        elapsed * qps != NANOS_PER_SEC ==> allowance_spec(elapsed, qps) == credit(elapsed, qps),
{
    assert(0 <= elapsed * qps) by (nonlinear_arith)
        requires
            0 <= elapsed,
            0 < qps,
    ;
}

/// What is permitted stays within the time that has passed: `allowed` lookups
/// take up at most `elapsed` nanoseconds at `qps` lookups per second.
pub proof fn lemma_allowance_within_budget(elapsed: int, qps: int)
    requires
        0 <= elapsed,
        0 < qps,
    ensures
        0 <= allowance_spec(elapsed, qps),
        allowance_spec(elapsed, qps) * NANOS_PER_SEC <= elapsed * qps,
{
    assert(0 <= elapsed * qps) by (nonlinear_arith)
        requires
            0 <= elapsed,
            0 < qps,
    ;
}

/// Once more than one interval has passed, at least one lookup is permitted.
pub proof fn lemma_allowance_after_interval(elapsed: int, qps: int)
    requires
        interval_passed(elapsed, qps),
    ensures
        allowance_spec(elapsed, qps) >= 1,
{
}

} // verus!
