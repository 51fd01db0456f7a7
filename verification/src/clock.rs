//! The wall clock that `GETDATE()` reads.

use std::time::{Duration, SystemTime, SystemTimeError, UNIX_EPOCH};

use vstd::prelude::*;

verus! {

#[verifier::external_type_specification]
#[verifier::external_body]
pub struct ExSystemTime(SystemTime);

#[verifier::external_type_specification]
#[verifier::external_body]
pub struct ExSystemTimeError(SystemTimeError);

/// `SystemTime::now`: the time of the system clock when it is called.
/// Nothing is claimed of its value.
#[verifier::external_body]
fn system_time_now() -> (t: SystemTime) {
    SystemTime::now()
}

/// `SystemTime::duration_since` with `UNIX_EPOCH` as the earlier time: the
/// time elapsed since 1970-01-01 00:00:00 UTC, or an error when the clock is
/// set before it. Nothing is claimed of which, nor of the duration.
#[verifier::external_body]
fn since_unix_epoch(t: &SystemTime) -> (d: Result<Duration, SystemTimeError>) {
    t.duration_since(UNIX_EPOCH)
}

/// `Duration::as_millis`: the whole milliseconds of a duration. Nothing is
/// claimed of its value.
#[verifier::external_body]
fn duration_millis(d: &Duration) -> (ms: u128) {
    d.as_millis()
}

/// The clock's reading in milliseconds, from the whole milliseconds elapsed
/// since 1970-01-01 00:00:00 UTC (`None` for a clock set before then): 0 for a
/// clock before 1970, the elapsed time where it fits in `i64`, else the largest
/// `i64`.
pub open spec fn clock_reading(elapsed: Option<u128>) -> i64 {
    match elapsed {
        None => 0,
        Some(m) => if m <= 9223372036854775807u128 {
            m as i64
        } else {
            9223372036854775807i64
        },
    }
}

/// The clock's reading in milliseconds for a given elapsed time.
pub fn millis_reading(elapsed: Option<u128>) -> (ms: i64)
    ensures
        ms == clock_reading(elapsed),
        ms >= 0,
{
    match elapsed {
        Some(m) => {
            if m <= 9223372036854775807u128 {
                m as i64
            } else {
                9223372036854775807i64
            }
        },
        None => 0,
    }
}

/// The current time in milliseconds since 1970-01-01 00:00:00 UTC, as
/// `millis_reading` turns the elapsed time that the system clock gives. Which
/// instant the clock gives is not stated.
pub fn current_millis() -> (ms: i64)
    ensures
        ms >= 0,
{
    let t = system_time_now();
    let elapsed = match since_unix_epoch(&t) {
        Ok(d) => Some(duration_millis(&d)),
        Err(_) => None,
    };
    millis_reading(elapsed)
}

} // verus!
