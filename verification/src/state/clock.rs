//! The wall clock.
//!
//! A function of this library that depends on the time takes the time as an
//! argument, and its contract says exactly what it does at that time. Where
//! the name of such a function ends in `_at`, a twin without the ending reads
//! the clock and hands the reading on: the twin's contract says that it does
//! what the first does at some time within the clock's range.
use crate::state::expires::clock_in_range;
use std::time::Duration;
use std::time::SystemTime;
use vstd::prelude::*;

verus! {

/// Declares `std::time::SystemTime`, a reading of the wall clock.
#[verifier::external_type_specification]
#[verifier::external_body]
pub struct ExSystemTime(SystemTime);

/// Calls `SystemTime::now`. Nothing is claimed of the reading.
#[verifier::external_body]
fn system_now() -> SystemTime {
    SystemTime::now()
}

/// Calls `SystemTime::duration_since` with the Unix epoch. Nothing is
/// claimed of the result, which is `None` for a reading before the epoch.
#[verifier::external_body]
fn since_epoch(reading: &SystemTime) -> Option<Duration> {
    reading.duration_since(SystemTime::UNIX_EPOCH).ok()
}

/// Calls `Duration::as_millis`. Nothing is claimed of the result.
#[verifier::external_body]
fn millis_of(elapsed: &Duration) -> u128 {
    elapsed.as_millis()
}

/// The greatest time that the clock is read as.
pub const CLOCK_MAX: u64 = 0xFFFF_FFFF_0000_0000;

/// The time now, in milliseconds since the Unix epoch: what the clock gives,
/// read as `clock_reading` reads it, so that a span of 32 bits can always be
/// added to the reading.
pub fn now_ms() -> (now: u64)
    ensures
        clock_in_range(now),
        exists|elapsed: Option<u128>| now == #[trigger] reading_of(elapsed),
{
    let reading = system_now();
    let elapsed: Option<u128> = match since_epoch(&reading) {
        Some(since) => {
            let ms: u128 = millis_of(&since);
            Some(ms)
        },
        None => None,
    };
    let now = clock_reading(elapsed);
    assert(now == reading_of(elapsed));
    now
}

/// The time that the clock is read as, given the milliseconds that it
/// stands after the Unix epoch, or `None` where it stands before the epoch:
/// a clock before the epoch is read as 0, one beyond `CLOCK_MAX` as
/// `CLOCK_MAX`, and any other as it stands.
pub open spec fn reading_of(elapsed: Option<u128>) -> u64 {
    match elapsed {
        Some(ms) => if ms > CLOCK_MAX {
            CLOCK_MAX
        } else {
            ms as u64
        },
        None => 0,
    }
}

/// Reads a time off the clock's milliseconds since the Unix epoch, which are
/// `None` where the clock stands before the epoch.
pub fn clock_reading(elapsed: Option<u128>) -> (now: u64)
    ensures
        now == reading_of(elapsed),
        clock_in_range(now),
{
    match elapsed {
        Some(ms) => {
            if ms > 0xFFFF_FFFF_0000_0000u128 {
                CLOCK_MAX
            } else {
                ms as u64
            }
        },
        None => 0,
    }
}

} // verus!
