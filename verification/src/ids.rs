//! Fresh identifiers and the current time, from outside sources.
//!
//! Nothing can be promised of a random identifier or of the clock, so these
//! wrappers carry no claims; every function that uses their results states
//! what holds whatever value came back.

use vstd::prelude::*;

verus! {

/// Relies on uuid::Uuid::new_v4 and its hyphenated text form for a fresh
/// random identifier. The result is random: no two calls are related.
#[verifier::external_body]
pub fn new_uuid_string() -> (r: String) {
    uuid::Uuid::new_v4().to_string()
}

/// Relies on chrono::Utc::now for the current time as whole seconds since
/// the Unix epoch. The result depends on the clock.
#[verifier::external_body]
pub fn unix_time_seconds() -> (r: i64) {
    chrono::Utc::now().timestamp()
}

/// Relies on chrono::Utc::now for the current time in milliseconds since
/// the Unix epoch. The result depends on the clock.
#[verifier::external_body]
pub fn unix_time_millis() -> (r: i64) {
    chrono::Utc::now().timestamp_millis()
}

/// The current time clamped to an unsigned value, zero before the epoch.
pub fn unix_time_millis_u64() -> (r: u64) {
    let t = unix_time_millis();
    if t < 0 {
        0
    } else {
        t as u64
    }
}

/// The current time in whole seconds, clamped to an unsigned value.
pub fn unix_time_seconds_u64() -> (r: u64) {
    let t = unix_time_seconds();
    if t < 0 {
        0
    } else {
        t as u64
    }
}

} // verus!
