//! The monotonic clock, read in whole nanoseconds from an origin.

use std::time::Instant;
use vstd::prelude::*;

verus! {

/// `std::time::Instant`, carried as it is; nothing is known of its inside.
#[verifier::external_type_specification]
#[verifier::external_body]
pub struct ExInstant(Instant);

/// `Instant::now`: the reading of the monotonic clock.
#[verifier::external_body]
pub(crate) fn clock_start() -> Instant {
    Instant::now()
}

/// `Instant::elapsed`: the nanoseconds that have passed since `origin`.
#[verifier::external_body]
pub(crate) fn clock_elapsed(origin: &Instant) -> u128 {
    origin.elapsed().as_nanos()
}

} // verus!
