//! The wall clock and calendar rendering of timestamps.

use vstd::prelude::*;

verus! {

/// Relies on `chrono::Utc::now` and `DateTime::timestamp`: the current time
/// in whole seconds since the Unix epoch. Nothing is promised of its value.
#[verifier::external_body]
pub fn unix_now() -> (r: i64) {
    chrono::Utc::now().timestamp()
}

/// The UTC calendar rendering `YYYY-MM-DD HH:MM:SS` of a Unix timestamp in
/// seconds, or none when the timestamp lies outside the calendar's range.
pub uninterp spec fn utc_text_of(secs: i64) -> Option<Seq<char>>;

/// Relies on `chrono::DateTime::from_timestamp` and
/// `DateTime::format("%Y-%m-%d %H:%M:%S")`: the UTC rendering of a
/// timestamp, or none when the timestamp is out of chrono's range.
#[verifier::external_body]
pub fn utc_text(secs: i64) -> (r: Option<String>)
    ensures
        r.deep_view() == utc_text_of(secs),
{
    match chrono::DateTime::from_timestamp(secs, 0) {
        Some(dt) => Some(dt.format("%Y-%m-%d %H:%M:%S").to_string()),
        None => None,
    }
}

} // verus!
