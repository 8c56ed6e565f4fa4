use vstd::prelude::*;
use std::time::{Duration, Instant};

verus! {

/// `std::time::Instant`, an opaque point on the monotonic clock.
#[verifier::external_type_specification]
#[verifier::external_body]
pub struct ExInstant(Instant);

/// Calls `std::time::Instant::now`. The result depends on the time of the
/// call, so nothing is stated of it.
#[verifier::external_body]
pub(crate) fn instant_now() -> Instant {
    Instant::now()
}

/// Calls `std::time::Instant::elapsed`: the time that passed since `origin`.
/// The result depends on the time of the call, so nothing is stated of it.
#[verifier::external_body]
pub(crate) fn elapsed_since(origin: &Instant) -> Duration {
    origin.elapsed()
}

/// Calls `std::time::Duration::as_nanos`. `Duration` is opaque here, so
/// nothing is stated of the number of nanoseconds.
#[verifier::external_body]
pub(crate) fn duration_as_nanos(d: &Duration) -> u128 {
    d.as_nanos()
}

/// Reads the monotonic clock: nanoseconds since `origin`.
pub(crate) fn nanos_since(origin: &Instant) -> u128 {
    let d = elapsed_since(origin);
    duration_as_nanos(&d)
}

} // verus!
