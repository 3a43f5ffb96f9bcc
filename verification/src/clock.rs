//! The monotonic clock of the standard library.
use vstd::prelude::*;

verus! {

/// `std::time::Instant`, a reading of the monotonic clock.
#[verifier::external_type_specification]
#[verifier::external_body]
pub struct ExInstant(std::time::Instant);

/// Calls `Instant::now`. The reading depends on the time of the call, so
/// nothing is stated of it.
#[verifier::external_body]
pub(crate) fn clock_start() -> std::time::Instant {
    std::time::Instant::now()
}

/// Calls `Instant::elapsed`: the time since `start`. It depends on the time
/// of the call, so nothing is stated of it.
#[verifier::external_body]
pub(crate) fn elapsed(start: &std::time::Instant) -> std::time::Duration {
    start.elapsed()
}

/// Calls `Duration::as_nanos`: the whole nanoseconds of `d`. `Duration` is
/// opaque here, so nothing is stated of the number.
#[verifier::external_body]
pub(crate) fn as_nanos(d: &std::time::Duration) -> u128 {
    d.as_nanos()
}

} // verus!
