//! The monotonic clock that the fall timer is read from.

use std::time::Duration;
use std::time::Instant;
use vstd::prelude::*;

verus! {

/// A point on the monotonic clock of `std::time`. Nothing is known of what
/// it holds.
#[verifier::external_type_specification]
#[verifier::external_body]
pub struct ExInstant(std::time::Instant);

/// `Instant::now` returns the present point on the clock. It depends on the
/// time alone, so nothing is claimed of it.
pub assume_specification[ Instant::now ]() -> (t: Instant);

/// `Instant::elapsed` returns the time that has passed since the instant,
/// zero if the clock reads less now. It depends on the time, so nothing is
/// claimed of it.
pub assume_specification[ Instant::elapsed ](t: &Instant) -> (d: Duration);

/// `Duration::as_nanos` returns the whole of the duration in nanoseconds.
/// Nothing is claimed of the number.
pub assume_specification[ Duration::as_nanos ](d: &Duration) -> (n: u128);

/// The time since `origin`, in nanoseconds.
pub(crate) fn nanos_since(origin: &Instant) -> (n: u128) {
    origin.elapsed().as_nanos()
}

} // verus!
