//! Identifiers and timestamps from the outside world.
//!
//! Both depend on chance or on the clock, so their contracts promise nothing
//! about the value returned.
use vstd::prelude::*;

verus! {

/// Calls `uuid::Uuid::new_v4` and renders the identifier as text. The value
/// is random: nothing is stated about it.
#[verifier::external_body]
pub fn new_uuid() -> (id: String) {
    uuid::Uuid::new_v4().to_string()
}

/// Calls `chrono::Utc::now` and returns it as milliseconds since the Unix
/// epoch. The value depends on the clock: nothing is stated about it.
#[verifier::external_body]
pub fn now_millis() -> (t: i64) {
    chrono::Utc::now().timestamp_millis()
}

/// Calls `chrono::Utc::now` and renders it as RFC 3339 text. The value
/// depends on the clock: nothing is stated about it.
#[verifier::external_body]
pub fn now_rfc3339() -> (t: String) {
    chrono::Utc::now().to_rfc3339()
}

} // verus!
