//! The trusted boundary to the clocks: wall-clock timestamps and monotonic
//! elapsed time.  Nothing can be promised of what a clock reads, so the
//! contracts state only what holds of every outcome.

use vstd::prelude::*;

verus! {

#[verifier::external_type_specification]
#[verifier::external_body]
pub struct ExInstant(std::time::Instant);

/// Relies on `SystemTime::now` and `duration_since(UNIX_EPOCH)`: the wall
/// clock as microseconds since the epoch.  Whatever the clock reads, the
/// result is nonnegative: a clock before the epoch reads as zero, and one
/// beyond the widest representable instant saturates.
#[verifier::external_body]
pub(crate) fn epoch_micros() -> (r: i64)
    ensures
        r >= 0,
{
    match std::time::SystemTime::now().duration_since(std::time::UNIX_EPOCH) {
        Ok(d) => i64::try_from(d.as_micros()).unwrap_or(i64::MAX),
        Err(_) => 0,
    }
}

/// Relies on `Instant::now`: an opaque reading of the monotonic clock.
#[verifier::external_body]
pub(crate) fn monotonic_now() -> std::time::Instant {
    std::time::Instant::now()
}

/// Relies on `Instant::elapsed`: the time since `start` in microseconds.
/// `elapsed` never goes backwards, so the result is nonnegative; a span
/// longer than the widest representable duration saturates.
#[verifier::external_body]
pub(crate) fn elapsed_micros(start: &std::time::Instant) -> (r: i64)
    ensures
        r >= 0,
{
    i64::try_from(start.elapsed().as_micros()).unwrap_or(i64::MAX)
}

} // verus!
