//! The wall clock in Unix seconds.
use std::time::{Duration, SystemTime, SystemTimeError};
use vstd::prelude::*;

verus! {

/// The outside type `std::time::SystemTime`, opaque here.
#[verifier::external_type_specification]
#[verifier::external_body]
pub struct ExSystemTime(SystemTime);

/// The outside type `std::time::SystemTimeError`, opaque here.
#[verifier::external_type_specification]
#[verifier::external_body]
pub struct ExSystemTimeError(SystemTimeError);

/// The whole seconds of a duration.
pub uninterp spec fn whole_seconds(duration: Duration) -> u64;

/// The whole seconds from the Unix epoch to a time; `None` for a time before the epoch.
pub uninterp spec fn epoch_seconds(time: SystemTime) -> Option<u64>;

/// `SystemTime::now`. What it returns is up to the clock.
#[verifier::external_body]
fn system_now() -> (time: SystemTime) {
    SystemTime::now()
}

/// `SystemTime::duration_since` the Unix epoch: an error for a time before it.
#[verifier::external_body]
fn since_epoch(time: SystemTime) -> (elapsed: Result<Duration, SystemTimeError>)
    ensures
        (match elapsed {
            Ok(duration) => Some(whole_seconds(duration)),
            Err(_) => None,
        }) == epoch_seconds(time),
{
    time.duration_since(SystemTime::UNIX_EPOCH)
}

/// `Duration::as_secs`: the whole seconds of a duration.
#[verifier::external_body]
fn as_seconds(duration: Duration) -> (seconds: u64)
    ensures
        seconds == whole_seconds(duration),
{
    duration.as_secs()
}

/// The stamp of a reading of the clock: its seconds, `0` for a clock before the epoch.
pub open spec fn stamp(elapsed: Option<u64>) -> u64 {
    match elapsed {
        Some(seconds) => seconds,
        None => 0,
    }
}

/// Whether a count of seconds is the stamp of some reading of the clock.
pub open spec fn is_reading(seconds: u64) -> bool {
    exists|time: SystemTime| seconds == stamp(#[trigger] epoch_seconds(time))
}

/// Readings of the clock exist.
pub proof fn lemma_reading_exists() -> (seconds: u64)
    ensures
        is_reading(seconds),
{
    let time: SystemTime = arbitrary();
    stamp(epoch_seconds(time))
}

/// The Unix seconds of a time; `0` if it is before the epoch.
pub fn unix_seconds(time: SystemTime) -> (seconds: u64)
    ensures
        seconds == stamp(epoch_seconds(time)),
{
    match since_epoch(time) {
        Ok(duration) => as_seconds(duration),
        Err(_) => 0,
    }
}

/// Unix seconds now; `0` if the clock is before the epoch.
pub fn now_unix() -> (seconds: u64)
    ensures
        is_reading(seconds),
{
    unix_seconds(system_now())
}

} // verus!
