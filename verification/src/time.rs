//! Timestamp parsing for the URL-filter log's `YYYY-MM-DD HH:MM:SS` header,
//! delegated to the calendar library.

use vstd::prelude::*;

verus! {

/// The UTC millisecond timestamp of the text `s` when it parses against the
/// fixed pattern `%Y-%m-%d %H:%M:%S`: what chrono computes from the
/// characters alone.
pub uninterp spec fn utc_millis_of(s: Seq<char>) -> Option<i64>;

/// Relies on chrono's `NaiveDateTime::parse_from_str` with the fixed format
/// `"%Y-%m-%d %H:%M:%S"`, and on `NaiveDateTime::and_utc` and
/// `DateTime::timestamp_millis`, which read that wall-clock time as UTC and
/// return its Unix-epoch milliseconds: the result depends on the characters
/// of `s` alone.
#[verifier::external_body]
pub(crate) fn utc_millis(s: &str) -> (r: Option<i64>)
    ensures
        r == utc_millis_of(s@),
{
    match chrono::NaiveDateTime::parse_from_str(s, "%Y-%m-%d %H:%M:%S") {
        Ok(t) => Some(t.and_utc().timestamp_millis()),
        Err(_) => None,
    }
}

} // verus!
