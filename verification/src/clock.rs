//! The two time sources the limiter and the catalogue rely on: a monotonic
//! clock for window arithmetic and the wall clock for externally reported
//! timestamps. Nothing is assumed of either reading.

use vstd::prelude::*;

verus! {

#[verifier::external_type_specification]
#[verifier::external_body]
pub struct ExInstant(std::time::Instant);

/// Relies on std::time::Instant::now: an opaque reading of the monotonic
/// clock, used only as the origin that later readings are measured against.
#[verifier::external_body]
pub(crate) fn instant_now() -> std::time::Instant {
    std::time::Instant::now()
}

/// Relies on std::time::Instant::elapsed: whole seconds of monotonic time
/// since `earlier`. No bound is assumed on the reading.
#[verifier::external_body]
pub(crate) fn secs_since(earlier: &std::time::Instant) -> u64 {
    earlier.elapsed().as_secs()
}

/// Relies on std::time::SystemTime::now: the wall clock as whole seconds
/// since the Unix epoch, negative where the clock reads before it. Both sides
/// of `duration_since` are taken, so the reading is total on every host
/// clock; no bound is assumed on it.
#[verifier::external_body]
pub(crate) fn utc_now_secs() -> i64 {
    match std::time::SystemTime::now().duration_since(std::time::UNIX_EPOCH) {
        Ok(since) => i64::try_from(since.as_secs()).unwrap_or(i64::MAX),
        Err(before) => -i64::try_from(before.duration().as_secs()).unwrap_or(i64::MAX),
    }
}

} // verus!
