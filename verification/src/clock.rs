//! The wall clock, read in whole seconds since the Unix epoch.
//!
//! Nothing is claimed of what the clock says: the functions that stamp a
//! block with the current time are specified for every timestamp.

use std::time::{Duration, SystemTime};
use vstd::prelude::*;

verus! {

#[verifier::external_type_specification]
#[verifier::external_body]
pub struct ExSystemTime(SystemTime);

/// Calls `SystemTime::now`. Nothing is claimed of the time returned.
#[verifier::external_body]
pub(crate) fn now() -> SystemTime {
    SystemTime::now()
}

/// Calls `SystemTime::duration_since` with the Unix epoch. Nothing is
/// claimed of the duration returned; there is none where the time lies
/// before the epoch.
#[verifier::external_body]
pub(crate) fn since_epoch(time: &SystemTime) -> Option<Duration> {
    time.duration_since(SystemTime::UNIX_EPOCH).ok()
}

/// Calls `Duration::as_secs`. Nothing is claimed of the number returned.
#[verifier::external_body]
pub(crate) fn whole_seconds(elapsed: &Duration) -> u64 {
    elapsed.as_secs()
}

/// The current time in seconds since the Unix epoch; a clock set before the
/// epoch reads as 0. Nothing holds of every reading of the clock, so nothing
/// is promised of the result.
pub(crate) fn unix_time() -> u64 {
    let reading = match since_epoch(&now()) {
        Some(elapsed) => Some(whole_seconds(&elapsed)),
        None => None,
    };
    seconds_of(reading)
}

/// The timestamp that a reading of the clock stands for: the seconds read,
/// and 0 where the clock gave none because it is set before the epoch.
pub fn seconds_of(reading: Option<u64>) -> (seconds: u64)
    ensures
        seconds == match reading {
            Some(elapsed) => elapsed,
            None => 0,
        },
{
    match reading {
        Some(elapsed) => elapsed,
        None => 0,
    }
}

} // verus!
