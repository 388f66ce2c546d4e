//! Monotonic time, for stage timings.

use vstd::prelude::*;
use std::time::Instant;

verus! {

/// `std::time::Instant`, carried through opaquely.
#[verifier::external_type_specification]
#[verifier::external_body]
pub struct ExInstant(std::time::Instant);

/// `Instant::now()`. Nothing is promised of the reading.
#[verifier::external_body]
pub(crate) fn now() -> Instant {
    Instant::now()
}

/// `since.elapsed()` in nanoseconds. Nothing is promised of the reading.
#[verifier::external_body]
pub(crate) fn elapsed_nanos(since: &Instant) -> u128 {
    since.elapsed().as_nanos()
}

} // verus!
