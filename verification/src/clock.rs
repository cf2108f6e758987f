//! The wall clock, and the timestamp derived from it.

use crate::layout::BitConfig;
use std::time::Duration;
use std::time::SystemTime;
use std::time::SystemTimeError;
use std::time::UNIX_EPOCH;
use vstd::prelude::*;

verus! {

#[verifier::external_type_specification]
#[verifier::external_body]
pub struct ExSystemTime(SystemTime);

#[verifier::external_type_specification]
#[verifier::external_body]
pub struct ExSystemTimeError(SystemTimeError);

/// Why no identifier could be issued.
#[derive(Debug, Clone, Copy, PartialEq, Eq, Structural)]
pub enum GenerateError {
    /// The wall clock reports an instant before the Unix epoch.
    ClockBeforeUnixEpoch,
    /// The wall clock reports an instant before the configured epoch.
    ClockBeforeCustomEpoch,
    /// The wall clock lies so far after the configured epoch that the
    /// timestamp no longer fits its field, or so far after the Unix epoch
    /// that its milliseconds no longer fit 64 bits.
    ClockBeyondRange,
    /// No identifier came out of `u64::MAX` attempts in a row.
    ClockStalled,
}

/// `SystemTime::now`: the instant the system clock reports. Nothing is
/// claimed of it.
#[verifier::external_body]
pub(crate) fn wall_clock_now() -> (now: SystemTime) {
    SystemTime::now()
}

/// `SystemTime::duration_since` with `UNIX_EPOCH` as the earlier instant:
/// the time elapsed since the Unix epoch, or the error std gives when
/// `instant` lies before it. Nothing is claimed of either.
#[verifier::external_body]
pub(crate) fn since_unix_epoch(instant: &SystemTime) -> (elapsed: Result<Duration, SystemTimeError>) {
    instant.duration_since(UNIX_EPOCH)
}

/// `Duration::as_millis`: the whole milliseconds in `elapsed`. Nothing is
/// claimed of the number.
#[verifier::external_body]
pub(crate) fn whole_millis(elapsed: &Duration) -> (millis: u128) {
    elapsed.as_millis()
}

/// The timestamp for a clock reading of `unix_millis` milliseconds since the
/// Unix epoch: the milliseconds elapsed since `custom_epoch`. A reading
/// that does not fit 64 bits is beyond every timestamp, and a reading before
/// `custom_epoch` has none.
pub open spec fn spec_relative_time(unix_millis: u128, custom_epoch: u64) -> Result<
    u64,
    GenerateError,
> {
    if unix_millis > u64::MAX {
        Err(GenerateError::ClockBeyondRange)
    } else if unix_millis < custom_epoch {
        Err(GenerateError::ClockBeforeCustomEpoch)
    } else {
        Ok((unix_millis - custom_epoch) as u64)
    }
}

/// Computes the timestamp for a clock reading of `unix_millis` milliseconds
/// since the Unix epoch.
pub fn relative_time(unix_millis: u128, custom_epoch: u64) -> (r: Result<u64, GenerateError>)
    ensures
        r == spec_relative_time(unix_millis, custom_epoch),
{
    if unix_millis > u64::MAX as u128 {
        return Err(GenerateError::ClockBeyondRange);
    }
    let millis: u64 = unix_millis as u64;
    if millis < custom_epoch {
        Err(GenerateError::ClockBeforeCustomEpoch)
    } else {
        Ok(millis - custom_epoch)
    }
}

/// What is left of a clock reading once it is held against the timestamp
/// field of `layout`: a timestamp that does not fit becomes
/// `ClockBeyondRange`; any other reading stays what it is.
pub open spec fn spec_checked_reading(layout: BitConfig, reading: Result<u64, GenerateError>) -> Result<
    u64,
    GenerateError,
> {
    match reading {
        Ok(timestamp) => if timestamp > layout.timestamp_mask {
            Err(GenerateError::ClockBeyondRange)
        } else {
            Ok(timestamp)
        },
        Err(e) => Err(e),
    }
}

} // verus!
