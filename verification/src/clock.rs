//! Trusted wall-clock readings for the iterative-deepening time gate.
//!
//! The clock is nondeterministic, so nothing is promised of the values; the
//! search only compares them against its budget.
use vstd::prelude::*;

verus! {

#[verifier::external_type_specification]
#[verifier::external_body]
pub struct ExInstant(std::time::Instant);

/// Relies on `std::time::Instant::now`; no two readings are related.
#[verifier::external_body]
pub fn clock_now() -> std::time::Instant {
    std::time::Instant::now()
}

/// Relies on `std::time::Instant::elapsed`: milliseconds since the reading
/// was taken, saturated to the integer ceiling.
#[verifier::external_body]
pub fn elapsed_ms(start: &std::time::Instant) -> u64 {
    u64::try_from(start.elapsed().as_millis()).unwrap_or(u64::MAX)
}

} // verus!
