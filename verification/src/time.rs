//! Durations and the monotonic clock of `std`, as numbers of nanoseconds.
use std::time::{Duration, Instant};
use vstd::prelude::*;

verus! {

/// `std::time::Instant`, a reading of the monotonic clock.
#[verifier::external_type_specification]
#[verifier::external_body]
pub struct ExInstant(std::time::Instant);

/// The number of nanoseconds in a duration.
pub uninterp spec fn nanos(duration: Duration) -> nat;

/// Nanoseconds in one second.
pub const NANOS_PER_SEC: u64 = 1000000000;

/// The longest duration in nanoseconds: `u64::MAX` seconds and 999 999 999
/// nanoseconds.
pub const MAX_NANOS: u128 = 18446744073709551615999999999;

/// `Duration::as_nanos`: the total number of nanoseconds, at most that of
/// `Duration::MAX`.
pub assume_specification[ Duration::as_nanos ](duration: &Duration) -> (n: u128)
    ensures
        n == nanos(*duration),
        n <= MAX_NANOS,
;

/// `Duration::from_secs`: that many whole seconds.
pub assume_specification[ Duration::from_secs ](secs: u64) -> (duration: Duration)
    ensures
        nanos(duration) == secs * NANOS_PER_SEC,
;

/// `Duration::from_nanos`: that many nanoseconds.
pub assume_specification[ Duration::from_nanos ](n: u64) -> (duration: Duration)
    ensures
        nanos(duration) == n,
;

/// `Instant::now`: a reading of the clock, of which nothing is promised.
#[verifier::external_body]
pub(crate) fn clock_reading() -> (now: Instant) {
    Instant::now()
}

/// `Instant::elapsed`: the time since a reading, of which nothing is promised.
#[verifier::external_body]
pub(crate) fn time_since(reading: &Instant) -> (elapsed: Duration) {
    reading.elapsed()
}

/// The clock has shown that this much time had elapsed since a reading.
pub closed spec fn has_elapsed(reading: Instant, elapsed: Duration) -> bool {
    call_ensures(time_since, (&reading,), elapsed)
}

/// The result of a call, known to be one.
fn outcome<F: Fn(&Instant) -> Duration>(clock: F, reading: &Instant) -> (elapsed: Duration)
    requires
        call_requires(clock, (reading,)),
    ensures
        call_ensures(clock, (reading,), elapsed),
{
    clock(reading)
}

/// The time since a reading.
pub(crate) fn elapsed_since(reading: &Instant) -> (elapsed: Duration)
    ensures
        has_elapsed(*reading, elapsed),
        call_ensures(time_since, (reading,), elapsed),
{
    outcome(time_since, reading)
}

/// The time that has elapsed since a reading is what a call of the clock has returned.
pub(crate) proof fn lemma_elapsed_by_the_clock(reading: Instant, elapsed: Duration)
    ensures
        has_elapsed(reading, elapsed) ==> call_ensures(time_since, (&reading,), elapsed),
{
}

} // verus!
