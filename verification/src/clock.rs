//! The wall clock, the one source of timestamps in the library.

use vstd::prelude::*;

use std::time::{Duration, SystemTime, SystemTimeError};

verus! {

#[verifier::external_type_specification]
#[verifier::external_body]
pub struct ExSystemTime(std::time::SystemTime);

#[verifier::external_type_specification]
#[verifier::external_body]
pub struct ExSystemTimeError(std::time::SystemTimeError);

/// `std::time::SystemTime::now`: the system clock's reading. Nothing is
/// promised of it.
#[verifier::external_body]
fn system_now() -> SystemTime {
    SystemTime::now()
}

/// `SystemTime::duration_since(UNIX_EPOCH)` for `t`: the time elapsed since
/// the Unix epoch, or an error when `t` is earlier. Nothing more is claimed
/// of it here.
#[verifier::external_body]
fn since_epoch(t: &SystemTime) -> Result<Duration, SystemTimeError> {
    t.duration_since(std::time::UNIX_EPOCH)
}

/// `std::time::Duration::as_millis`: the whole milliseconds in `d`. Nothing
/// is claimed of the number here, `Duration` being opaque to the library.
#[verifier::external_body]
fn whole_millis(d: &Duration) -> u128 {
    d.as_millis()
}

/// Milliseconds since the Unix epoch by the system clock, truncated to 64
/// bits; 0 if the clock reads earlier than the epoch.
pub fn now_ms() -> u64 {
    match since_epoch(&system_now()) {
        Ok(elapsed) => {
            let ms = whole_millis(&elapsed);
            #[verifier::truncate]
            (ms as u64)
        },
        Err(_) => 0,
    }
}

} // verus!
