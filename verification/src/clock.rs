//! The clocks: the wall clock, read in milliseconds since the Unix epoch,
//! and the monotonic clock, read in milliseconds since a starting instant.
use vstd::prelude::*;
use std::time::{Duration, Instant, SystemTime};

verus! {

#[verifier::external_type_specification]
#[verifier::external_body]
pub struct ExSystemTime(SystemTime);

#[verifier::external_type_specification]
#[verifier::external_body]
pub struct ExInstant(Instant);

/// Trusted: calls `Instant::now`; nothing is claimed of the instant read.
#[verifier::external_body]
pub(crate) fn instant_now() -> Instant {
    Instant::now()
}

/// Trusted: calls `Instant::elapsed`; nothing is claimed of the duration.
#[verifier::external_body]
fn elapsed_since(origin: &Instant) -> Duration {
    origin.elapsed()
}

/// Trusted: calls `SystemTime::now`; nothing is claimed of the time read.
#[verifier::external_body]
fn system_now() -> SystemTime {
    SystemTime::now()
}

/// Trusted: calls `SystemTime::duration_since` against the Unix epoch, mapping
/// its error (a time before the epoch) to none; nothing is claimed of the
/// duration.
#[verifier::external_body]
fn since_unix_epoch(t: &SystemTime) -> Option<Duration> {
    match t.duration_since(std::time::UNIX_EPOCH) {
        Ok(d) => Some(d),
        Err(_) => None,
    }
}

/// Trusted: calls `Duration::as_millis`; nothing is claimed of the count.
#[verifier::external_body]
fn whole_millis(d: &Duration) -> u128 {
    d.as_millis()
}

/// The millisecond count a clock reading gives: the whole milliseconds since
/// the Unix epoch taken modulo 2^64 as an `i64` (as `as i64` does), and 0 for
/// a clock set before the epoch.
pub open spec fn unix_ms_of(millis: Option<u128>) -> i64 {
    match millis {
        Some(m) => m as i64,
        None => 0,
    }
}

/// The millisecond count of a clock reading (see [`unix_ms_of`]).
pub fn unix_ms_from_millis(millis: Option<u128>) -> (r: i64)
    ensures
        r == unix_ms_of(millis),
{
    match millis {
        Some(m) => m as i64,
        None => 0,
    }
}

/// A millisecond count as a non-negative clock value: 0 for a negative one.
pub open spec fn clock_of(t: i64) -> u64 {
    if t < 0 {
        0
    } else {
        t as u64
    }
}

/// A millisecond count as a non-negative clock value (see [`clock_of`]).
pub fn clock_value(t: i64) -> (r: u64)
    ensures
        r == clock_of(t),
{
    if t < 0 {
        0
    } else {
        t as u64
    }
}

/// Milliseconds since the Unix epoch as an `i64` (see [`unix_ms_of`]): the
/// clock is read, then converted.
pub fn current_unix_ms() -> (r: i64)
    ensures
        exists|m: Option<u128>| r == unix_ms_of(m),
{
    let now = system_now();
    let millis = match since_unix_epoch(&now) {
        Some(d) => Some(whole_millis(&d)),
        None => None,
    };
    unix_ms_from_millis(millis)
}

/// The clock as a non-negative millisecond count (0 before the epoch).
pub fn clock_ms() -> (r: u64)
    ensures
        exists|t: i64| r == clock_of(t),
{
    let t = current_unix_ms();
    clock_value(t)
}

/// A millisecond count as a `u64`, saturated at its largest value.
pub open spec fn saturated_ms(m: u128) -> u64 {
    if m > u64::MAX {
        u64::MAX
    } else {
        m as u64
    }
}

/// A millisecond count as a `u64` (see [`saturated_ms`]).
pub fn saturate_ms(m: u128) -> (r: u64)
    ensures
        r == saturated_ms(m),
{
    if m > u64::MAX as u128 {
        u64::MAX
    } else {
        m as u64
    }
}

/// Milliseconds since `origin` by the monotonic clock, which setting the
/// wall clock does not move: the elapsed time is read, then converted.
pub fn monotonic_ms(origin: &Instant) -> (r: u64)
    ensures
        exists|m: u128| r == saturated_ms(m),
{
    let d = elapsed_since(origin);
    saturate_ms(whole_millis(&d))
}

} // verus!
