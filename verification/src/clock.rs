//! The monotonic clock, seen through the standard library's `Instant`.

use std::time::Instant;
use vstd::prelude::*;

verus! {

#[verifier::external_type_specification]
#[verifier::external_body]
pub struct ExInstant(std::time::Instant);

/// Calls `Instant::now`. Nothing is claimed of the instant returned: it
/// depends on when the call happens.
#[verifier::external_body]
pub(crate) fn instant_now() -> (now: Instant) {
    Instant::now()
}

/// Calls `Instant::elapsed` on `start` and reads the duration as whole
/// nanoseconds (`Duration::as_nanos`). Nothing is claimed of the value: it
/// depends on when the call happens.
#[verifier::external_body]
pub(crate) fn nanos_since(start: &Instant) -> (nanos: u128) {
    start.elapsed().as_nanos()
}

} // verus!
