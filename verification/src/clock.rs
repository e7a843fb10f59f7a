//! The wall clock, read for the time stamps of video packets.
use vstd::prelude::*;
use std::time::{Duration, SystemTime};

verus! {

/// The system clock's time type, carried through opaquely.
#[verifier::external_type_specification]
#[verifier::external_body]
pub struct ExSystemTime(SystemTime);

/// Calls `SystemTime::now()`. What the clock reads is not stated.
#[verifier::external_body]
fn system_time_now() -> SystemTime {
    SystemTime::now()
}

/// Calls `SystemTime::duration_since(UNIX_EPOCH)` on `t`; the error it
/// returns for a time before the epoch becomes `None`. Nothing is stated of
/// the duration.
#[verifier::external_body]
fn duration_since_epoch(t: &SystemTime) -> Option<Duration> {
    t.duration_since(std::time::UNIX_EPOCH).ok()
}

/// Calls `Duration::as_micros` on `d`. Nothing is stated of the result:
/// a duration is opaque here.
#[verifier::external_body]
fn duration_micros(d: &Duration) -> u128 {
    d.as_micros()
}

/// The time stamp for a clock reading given as whole microseconds since the
/// Unix epoch (`None` for a reading before the epoch): 0 before the epoch,
/// otherwise the microseconds cut to 64 bits.
pub open spec fn pts_of_micros(micros: Option<u128>) -> u64 {
    match micros {
        Some(m) => m as u64,
        None => 0,
    }
}

/// Turns a clock reading in microseconds since the epoch into a time stamp;
/// see `pts_of_micros`.
pub fn pts_from_micros(micros: Option<u128>) -> (pts: u64)
    ensures
        pts == pts_of_micros(micros),
{
    match micros {
        Some(m) => m as u64,
        None => 0,
    }
}

/// Microseconds since the Unix epoch by the system clock, turned into a
/// time stamp by `pts_from_micros`. What the clock reads is not stated.
pub fn now_micros() -> u64 {
    let t = system_time_now();
    let micros = match duration_since_epoch(&t) {
        Some(d) => Some(duration_micros(&d)),
        None => None,
    };
    pts_from_micros(micros)
}

} // verus!
