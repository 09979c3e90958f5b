use vstd::prelude::*;

use rand::Rng;
use std::time::Duration;

verus! {

#[verifier::external_type_specification]
#[verifier::external_body]
pub struct ExStdInstant(std::time::Instant);

#[verifier::external_type_specification]
#[verifier::external_body]
pub struct ExTokioInstant(tokio::time::Instant);

/// Calls `std::time::Instant::now`. The result is the current time: nothing
/// is claimed of it.
#[verifier::external_body]
pub(crate) fn std_now() -> std::time::Instant {
    std::time::Instant::now()
}

/// Calls `std::time::Instant::elapsed`: the time since `since`, which
/// depends on the clock, so nothing is claimed of it.
#[verifier::external_body]
pub(crate) fn std_elapsed(since: &std::time::Instant) -> Duration {
    since.elapsed()
}

/// The whole nanoseconds in a duration, as `std::time::Duration::as_nanos`
/// returns them.
pub uninterp spec fn duration_nanos_of(d: Duration) -> u128;

/// Calls `std::time::Duration::as_nanos`: the whole nanoseconds in `d`, a
/// value that depends on `d` alone.
#[verifier::external_body]
pub(crate) fn duration_nanos(d: &Duration) -> (r: u128)
    ensures
        r == duration_nanos_of(*d),
{
    d.as_nanos()
}

/// Calls `tokio::time::Instant::now`. The result is the current time:
/// nothing is claimed of it.
#[verifier::external_body]
pub(crate) fn tokio_now() -> tokio::time::Instant {
    tokio::time::Instant::now()
}

/// Calls `tokio::time::Instant::elapsed`: the time since `since`, which
/// depends on the clock, so nothing is claimed of it.
#[verifier::external_body]
pub(crate) fn tokio_elapsed(since: &tokio::time::Instant) -> Duration {
    since.elapsed()
}

/// Calls `rand::Rng::random_range` on the thread-local generator of
/// `rand::rng()` with the range `0..bound`. The value is random; the crate
/// documents that it lies in the range, and that the call panics on an empty
/// range, which `requires` leaves out.
#[verifier::external_body]
pub(crate) fn random_below(bound: u64) -> (r: u64)
    requires
        bound > 0,
    ensures
        r < bound,
{
    rand::rng().random_range(0..bound)
}

} // verus!
