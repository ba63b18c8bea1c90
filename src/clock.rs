//! The wall clock and the monotonic clock.
use std::time::Instant;
use vstd::prelude::*;

verus! {

#[verifier::external_type_specification]
#[verifier::external_body]
pub struct ExInstant(Instant);

/// Relies on SystemTime::now: seconds since the Unix epoch, zero when the
/// clock stands before it. Nothing is promised of the value.
#[verifier::external_body]
pub(crate) fn unix_now_secs() -> (r: i64) {
    std::time::SystemTime::now().duration_since(std::time::UNIX_EPOCH).unwrap_or_default().as_secs() as i64
}

/// Relies on Instant::elapsed: milliseconds since `start`. Nothing is promised
/// of the value.
#[verifier::external_body]
pub(crate) fn elapsed_millis(start: &Instant) -> (r: u128) {
    start.elapsed().as_millis()
}

} // verus!
