//! Wall-clock time, as seconds since the Unix epoch.

use std::time::{SystemTime, UNIX_EPOCH};
use vstd::prelude::*;

verus! {

/// Reads the system clock with `SystemTime::now` and measures it against
/// `UNIX_EPOCH` with `duration_since`, in whole seconds (`Duration::as_secs`).
/// `None` stands for a clock that reads earlier than the epoch. Nothing is
/// claimed of the number: two readings may differ in any way.
#[verifier::external_body]
fn read_system_clock() -> (secs: Option<u64>) {
    SystemTime::now().duration_since(UNIX_EPOCH).ok().map(|d| d.as_secs())
}

/// The current time in seconds since the Unix epoch. A clock that reads
/// earlier than the epoch counts as the epoch itself.
pub(crate) fn unix_time_secs() -> u64 {
    seconds_or_epoch(read_system_clock())
}

/// The time that a reading of the clock stands for, in seconds since the Unix
/// epoch: the reading itself, or the epoch where the clock read earlier than
/// that.
pub fn seconds_or_epoch(reading: Option<u64>) -> (secs: u64)
    ensures
        secs == (match reading {
            Some(read) => read,
            None => 0,
        }),
{
    match reading {
        Some(read) => read,
        None => 0,
    }
}

} // verus!
