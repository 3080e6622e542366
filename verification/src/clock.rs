//! The wall clock, behind trusted wrappers.
//!
//! Timing is inherently outside any contract: nothing can be promised of what
//! the clock reads, so these wrappers promise nothing, and everything proved
//! about the benchmark driver holds whatever durations come back.

use vstd::prelude::*;

verus! {

#[verifier::external_type_specification]
#[verifier::external_body]
pub struct ExInstant(std::time::Instant);

/// Relies on `std::time::Instant::now`.
#[verifier::external_body]
pub fn now() -> std::time::Instant {
    std::time::Instant::now()
}

/// Relies on `Instant::elapsed`: the time since `start`, as the clock saw it.
#[verifier::external_body]
pub fn elapsed(start: &std::time::Instant) -> std::time::Duration {
    start.elapsed()
}

/// Relies on `Duration::as_nanos`: the duration in whole nanoseconds.
#[verifier::external_body]
pub fn duration_nanos(d: &std::time::Duration) -> u128 {
    d.as_nanos()
}

} // verus!
