//! Readings of the monotonic clock.

use std::time::{Duration, Instant};
use vstd::prelude::*;

verus! {

#[verifier::external_type_specification]
#[verifier::external_body]
pub struct ExInstant(Instant);

/// `Instant::now`: the present reading of the clock. Nothing is claimed of it.
pub assume_specification[ Instant::now ]() -> Instant;

/// `Instant::checked_sub` with a span given in milliseconds: the reading that
/// lies that far before `at`, where the clock can express it. Nothing is
/// claimed of which readings it can.
#[verifier::external_body]
pub(crate) fn instant_before(at: Instant, millis: u64) -> Option<Instant> {
    at.checked_sub(Duration::from_millis(millis))
}

/// `Instant::elapsed`, in nanoseconds: the time that has passed since `start`.
/// Nothing is claimed of it.
#[verifier::external_body]
pub(crate) fn elapsed_nanos(start: &Instant) -> u128 {
    start.elapsed().as_nanos()
}

} // verus!
