use vstd::prelude::*;

pub mod auth;
pub mod error;
pub mod handlers;
pub mod models;
pub mod store;

verus! {

use crate::error::AppError;

pub type AppResult<T> = Result<T, AppError>;

/// Lifetime of a session token, in seconds.
pub const EIGHT_HOURS_IN_SECONDS: u64 = 28800;

/// What `timestamp_after_8_hours_from` returns: the timestamp eight hours
/// later, saturating at the largest representable timestamp.
pub open spec fn spec_timestamp_after_8_hours_from(now: u64) -> u64 {
    if now + EIGHT_HOURS_IN_SECONDS <= u64::MAX {
        (now + EIGHT_HOURS_IN_SECONDS) as u64
    } else {
        u64::MAX
    }
}

/// Relies on std::time::SystemTime::now, whose result is converted to whole
/// seconds since the Unix epoch; nothing is assumed about the clock's value.
#[verifier::external_body]
fn current_unix_seconds() -> u64 {
    match std::time::SystemTime::now().duration_since(std::time::UNIX_EPOCH) {
        Ok(d) => d.as_secs(),
        Err(_) => 0,
    }
}

/// The expiry a session issued at time `now` carries.
pub fn timestamp_after_8_hours_from(now: u64) -> (r: u64)
    ensures
        r == spec_timestamp_after_8_hours_from(now),
{
    if now <= u64::MAX - EIGHT_HOURS_IN_SECONDS {
        now + EIGHT_HOURS_IN_SECONDS
    } else {
        u64::MAX
    }
}

/// The expiry a session issued right now carries: eight hours from the
/// current time. Only the lower bound can be stated, since the clock's
/// value is unknown.
pub fn get_timestamp_after_8_hours() -> (r: u64)
    ensures
        r >= EIGHT_HOURS_IN_SECONDS,
{
    timestamp_after_8_hours_from(current_unix_seconds())
}

} // verus!
