use std::time::{Duration, SystemTime, SystemTimeError};
use vstd::prelude::*;

verus! {

#[verifier::external_type_specification]
#[verifier::external_body]
pub struct ExSystemTime(SystemTime);

#[verifier::external_type_specification]
#[verifier::external_body]
pub struct ExSystemTimeError(SystemTimeError);

/// Calls `SystemTime::now`.  Nothing is claimed of the time that comes
/// back: it is whatever the clock says.
#[verifier::external_body]
fn now() -> (time: SystemTime) {
    SystemTime::now()
}

/// Calls `SystemTime::duration_since` with `SystemTime::UNIX_EPOCH`: the
/// time that has passed since the epoch, or an error for a time before it.
/// Nothing is claimed of either.
#[verifier::external_body]
fn since_epoch(time: &SystemTime) -> (elapsed: Result<Duration, SystemTimeError>) {
    time.duration_since(SystemTime::UNIX_EPOCH)
}

/// Calls `Duration::as_secs`: the whole seconds of a duration.  Nothing is
/// claimed of the number.
#[verifier::external_body]
fn whole_secs(elapsed: &Duration) -> (secs: u64) {
    elapsed.as_secs()
}

/// The whole seconds that have passed since the Unix epoch, by the system
/// clock.  A clock that is set before the epoch reads as the epoch itself.
pub fn secs_from_epoch() -> (secs: u64) {
    let time = now();
    let elapsed = match since_epoch(&time) {
        Ok(elapsed) => Some(whole_secs(&elapsed)),
        Err(_) => None,
    };
    elapsed_secs(elapsed)
}

/// The seconds to count for a clock, given the whole seconds by which it is
/// past the epoch, or `None` where it is set before the epoch: such a clock
/// reads as the epoch itself.
pub fn elapsed_secs(elapsed: Option<u64>) -> (secs: u64)
    ensures
        secs == (match elapsed {
            Some(past) => past,
            None => 0,
        }),
{
    match elapsed {
        Some(past) => past,
        None => 0,
    }
}

} // verus!
