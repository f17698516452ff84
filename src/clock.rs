//! The wall clock, read through chrono. Nothing is promised of the values: a
//! caller states what holds whatever time came back.
use vstd::prelude::*;

verus! {

/// Relies on `chrono::Local::now` and `DateTime::timestamp`: the current time
/// in whole seconds since the Unix epoch.
#[verifier::external_body]
pub fn get_timestamp() -> (r: i64) {
    chrono::Local::now().timestamp()
}

/// Relies on `chrono::Utc::now` and `DateTime::to_rfc3339`: the current time as
/// an RFC 3339 date-time string.
#[verifier::external_body]
pub(crate) fn now_rfc3339() -> (r: String) {
    chrono::Utc::now().to_rfc3339()
}

} // verus!
