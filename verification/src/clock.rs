//! The wall clock, read at the edges of the services.
use vstd::prelude::*;

verus! {

/// Milliseconds since the Unix epoch, or 0 when the clock reads earlier.
///
/// Trusted: `SystemTime::now().duration_since(UNIX_EPOCH)` and
/// `Duration::as_millis`. Nothing is stated of the value: it depends on the
/// machine's clock.
#[verifier::external_body]
pub fn now_ms() -> u128 {
    std::time::SystemTime::now().duration_since(std::time::UNIX_EPOCH).unwrap_or_default().as_millis()
}

/// A point of the monotonic clock.
#[verifier::external_type_specification]
#[verifier::external_body]
pub struct ExInstant(std::time::Instant);

/// The current point of the monotonic clock.
///
/// Trusted: `Instant::now`. Nothing is stated of it: it depends on the
/// machine's clock.
#[verifier::external_body]
pub(crate) fn instant_now() -> std::time::Instant {
    std::time::Instant::now()
}

/// Nanoseconds of the monotonic clock since `epoch`.
///
/// Trusted: `Instant::elapsed` and `Duration::as_nanos`. Nothing is stated
/// of the value: it depends on when it is read. (The monotonic clock never
/// goes back, so later readings are never smaller; that is not stated
/// either, as each reading stands alone.)
#[verifier::external_body]
pub(crate) fn nanos_since(epoch: &std::time::Instant) -> u128 {
    epoch.elapsed().as_nanos()
}

} // verus!
