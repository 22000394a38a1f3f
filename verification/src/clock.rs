//! Reading the clocks: wall-clock milliseconds and elapsed time.
use vstd::prelude::*;
use std::time::{Duration, Instant, SystemTime, SystemTimeError};

verus! {

#[verifier::external_type_specification]
#[verifier::external_body]
pub struct ExInstant(Instant);

#[verifier::external_type_specification]
#[verifier::external_body]
pub struct ExSystemTime(SystemTime);

#[verifier::external_type_specification]
#[verifier::external_body]
pub struct ExSystemTimeError(SystemTimeError);

/// `std::time::Instant::now`: the current monotonic instant. Nothing is stated of it.
#[verifier::external_body]
pub(crate) fn instant_now() -> Instant {
    Instant::now()
}

/// `std::time::Instant::elapsed`: time since `start`. Nothing is stated of it.
#[verifier::external_body]
pub(crate) fn elapsed_since(start: &Instant) -> Duration {
    start.elapsed()
}

/// `std::time::Duration::as_nanos`: the whole nanoseconds in `d`. A `Duration` is opaque
/// here, so nothing is stated of the number.
#[verifier::external_body]
pub(crate) fn duration_nanos(d: &Duration) -> u128 {
    d.as_nanos()
}

/// `std::time::Duration::as_millis`: the whole milliseconds in `d`. A `Duration` is opaque
/// here, so nothing is stated of the number.
#[verifier::external_body]
pub(crate) fn duration_millis(d: &Duration) -> u128 {
    d.as_millis()
}

/// `std::time::SystemTime::now`: the current wall-clock time. Nothing is stated of it.
#[verifier::external_body]
pub(crate) fn system_now() -> SystemTime {
    SystemTime::now()
}

/// `std::time::SystemTime::duration_since` taken from the Unix epoch: an error where the
/// clock stands before the epoch. Nothing is stated of either outcome.
#[verifier::external_body]
pub(crate) fn since_unix_epoch(t: &SystemTime) -> Result<Duration, SystemTimeError> {
    t.duration_since(SystemTime::UNIX_EPOCH)
}

/// Milliseconds since the Unix epoch, cut to 64 bits; 0 where the clock stands before the
/// epoch.
pub(crate) fn now_ms() -> u64 {
    match since_unix_epoch(&system_now()) {
        Ok(d) => duration_millis(&d) as u64,
        Err(_) => 0,
    }
}

} // verus!
