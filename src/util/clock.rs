//! The wall clock, read at the edge of the library.
use vstd::prelude::*;
use std::time::{SystemTime, UNIX_EPOCH};

verus! {

/// Relies on `std::time::SystemTime::now` and `duration_since(UNIX_EPOCH)`:
/// whole seconds since the Unix epoch, or 0 for a clock set before it. Nothing
/// is promised of the value.
#[verifier::external_body]
pub(crate) fn unix_now_secs() -> (r: u64) {
    SystemTime::now().duration_since(UNIX_EPOCH).map_or(0, |d| d.as_secs())
}

/// Relies on chrono's `DateTime::from_timestamp` (which returns `None`
/// rather than panicking out of range) and `format("%H:%M:%S")`: the UTC time
/// of day at `secs` seconds after the Unix epoch; `00:00:00` when chrono
/// cannot represent that time. Nothing is promised of the text.
#[verifier::external_body]
pub(crate) fn utc_clock_stamp(secs: u64) -> (r: String) {
    match chrono::DateTime::from_timestamp(secs as i64, 0) {
        Some(t) => t.format("%H:%M:%S").to_string(),
        None => String::from("00:00:00"),
    }
}

/// Relies on chrono's `DateTime::from_timestamp` (which returns `None`
/// rather than panicking out of range) and `to_rfc3339`: the UTC time `secs`
/// seconds after the Unix epoch as RFC 3339 text; the epoch when chrono cannot
/// represent that time. Nothing is promised of the text.
#[verifier::external_body]
pub(crate) fn utc_rfc3339(secs: u64) -> (r: String) {
    match chrono::DateTime::from_timestamp(secs as i64, 0) {
        Some(t) => t.to_rfc3339(),
        None => String::from("1970-01-01T00:00:00+00:00"),
    }
}

} // verus!
