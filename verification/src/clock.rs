//! Monotonic clock readings used for timing state and operations.

use vstd::prelude::*;

verus! {

/// A monotonic clock reading (`std::time::Instant`).
#[verifier::external_type_specification]
#[verifier::external_body]
pub struct ExInstant(std::time::Instant);

/// Calls `Instant::now`. It reads the clock, so nothing is promised of the
/// reading.
#[verifier::external_body]
pub(crate) fn instant_now() -> (r: std::time::Instant) {
    std::time::Instant::now()
}

/// Calls `Instant::elapsed`: the time since `start`, read from the clock, so
/// nothing is promised of it.
#[verifier::external_body]
pub(crate) fn instant_elapsed(start: &std::time::Instant) -> (r: std::time::Duration) {
    start.elapsed()
}

/// The whole nanoseconds of a duration, as `Duration::as_nanos` counts
/// them: a function of the duration alone.
pub uninterp spec fn duration_nanos(d: std::time::Duration) -> u128;

/// Calls `Duration::as_nanos`: the duration's whole nanoseconds.
#[verifier::external_body]
pub(crate) fn duration_as_nanos(d: &std::time::Duration) -> (r: u128)
    ensures
        r == duration_nanos(*d),
{
    d.as_nanos()
}

/// Calls `Duration::as_millis`: the duration's whole milliseconds, that is
/// its whole nanoseconds divided by a million, rounded down.
#[verifier::external_body]
pub(crate) fn duration_as_millis(d: &std::time::Duration) -> (r: u128)
    ensures
        r == duration_nanos(*d) / 1000000,
{
    d.as_millis()
}

} // verus!
