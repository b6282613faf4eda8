//! The wall clock, read as milliseconds since the Unix epoch.

use std::time::{Duration, SystemTime, SystemTimeError};
use vstd::prelude::*;

verus! {

/// A point in time as the system clock reports it. Nothing is known of
/// what a value holds.
#[verifier::external_type_specification]
#[verifier::external_body]
pub struct ExSystemTime(SystemTime);

/// The error of a time difference that would be negative. Nothing is known
/// of what a value holds.
#[verifier::external_type_specification]
#[verifier::external_body]
pub struct ExSystemTimeError(SystemTimeError);

/// `SystemTime::now` reads the system clock. Nothing is promised of the
/// time it returns.
pub assume_specification[ SystemTime::now ]() -> (now: SystemTime)
;

/// Calls `SystemTime::duration_since` with the Unix epoch as the earlier
/// time: the time elapsed from the epoch to `time`, or an error when `time`
/// lies before the epoch. Nothing is promised of which it returns.
#[verifier::external_body]
fn since_epoch(time: &SystemTime) -> (elapsed: Result<Duration, SystemTimeError>) {
    time.duration_since(SystemTime::UNIX_EPOCH)
}

/// `Duration::as_millis` gives the whole milliseconds in a duration.
/// Nothing is promised of the number.
pub assume_specification[ Duration::as_millis ](span: &Duration) -> (millis: u128)
;

/// The time on the system clock in milliseconds since the Unix epoch: 0
/// for a clock set before the epoch, and the largest `i64` for a time too
/// far ahead to count.
pub fn now_millis() -> (millis: i64)
    ensures
        millis >= 0,
{
    let now = SystemTime::now();
    let elapsed = match since_epoch(&now) {
        Ok(span) => Some(span.as_millis()),
        Err(_) => None,
    };
    timestamp_of(elapsed)
}

/// The timestamp for a clock that stands `elapsed` milliseconds after the
/// Unix epoch, or before the epoch when `elapsed` is `None`: 0 before the
/// epoch, and else the count capped at the largest `i64`.
pub fn timestamp_of(elapsed: Option<u128>) -> (millis: i64)
    ensures
        millis == match elapsed {
            Some(count) => if count <= i64::MAX {
                count as int
            } else {
                i64::MAX as int
            },
            None => 0,
        },
{
    match elapsed {
        Some(count) => millis_of(count),
        None => 0,
    }
}

/// A count of milliseconds as an `i64`, capped at the largest `i64`.
pub fn millis_of(count: u128) -> (millis: i64)
    ensures
        millis == if count <= i64::MAX { count as int } else { i64::MAX as int },
{
    if count <= i64::MAX as u128 {
        count as i64
    } else {
        i64::MAX
    }
}

} // verus!
