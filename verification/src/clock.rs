//! The time of day.

use vstd::prelude::*;
use std::time::{Duration, SystemTime, SystemTimeError};

verus! {

/// `std::time::SystemTime`, a reading of the system clock. Nothing inside it
/// is visible here.
#[verifier::external_type_specification]
#[verifier::external_body]
pub struct ExSystemTime(SystemTime);

/// `std::time::SystemTimeError`, the error of a clock that ran backwards.
/// Nothing inside it is visible here.
#[verifier::external_type_specification]
#[verifier::external_body]
pub struct ExSystemTimeError(SystemTimeError);

/// `SystemTime::now` reads the system clock. Nothing is claimed of what it
/// shows.
pub assume_specification[ SystemTime::now ]() -> (now: SystemTime);

/// `SystemTime::duration_since` gives the time that passed from `earlier`
/// to `this`, or an error where `earlier` is the later one. Nothing is
/// claimed of either.
pub assume_specification[ SystemTime::duration_since ](
    this: &SystemTime,
    earlier: SystemTime,
) -> (elapsed: Result<Duration, SystemTimeError>);

/// The whole seconds that a duration holds, as `Duration::as_secs` counts
/// them.
pub uninterp spec fn duration_secs(duration: Duration) -> u64;

/// `Duration::as_secs` gives the whole seconds of a duration, the same for
/// the same duration. Their number goes by the name [`duration_secs`].
pub assume_specification[ Duration::as_secs ](duration: &Duration) -> (seconds: u64)
    ensures
        seconds == duration_secs(*duration),
;

/// The start of unix time, `SystemTime::UNIX_EPOCH`.
#[verifier::external_body]
fn unix_epoch() -> (epoch: SystemTime) {
    SystemTime::UNIX_EPOCH
}

/// The whole seconds of a measured time. A measurement that failed has none
/// and is left out.
pub fn whole_seconds(elapsed: Result<Duration, SystemTimeError>) -> (seconds: u64)
    requires
        elapsed is Ok,
    ensures
        seconds == duration_secs(elapsed->Ok_0),
{
    elapsed.unwrap().as_secs()
}

/// What a measured time reads as: its whole seconds, and nothing where the
/// measurement failed.
pub open spec fn seconds_in(elapsed: Result<Duration, SystemTimeError>) -> Option<u64> {
    match elapsed {
        Ok(duration) => Some(duration_secs(duration)),
        Err(_) => None,
    }
}

/// The current time in unix seconds, as the system clock shows it. `None`
/// where the clock stands before 1970: then there is no such time.
///
/// The clock is read once and the time since the start of unix time is
/// measured; the result is what that measurement reads as. Which measurement
/// the clock gives is open: every call may see another.
pub fn unixtime_now() -> (now: Option<u64>)
    ensures
        exists|elapsed: Result<Duration, SystemTimeError>| now == #[trigger] seconds_in(elapsed),
{
    let elapsed = SystemTime::now().duration_since(unix_epoch());
    let ghost measured = elapsed;
    let now = if elapsed.is_ok() {
        Some(whole_seconds(elapsed))
    } else {
        None
    };
    assert(now == seconds_in(measured));
    now
}

} // verus!
