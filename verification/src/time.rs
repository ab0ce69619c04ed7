//! Access to the wall clock, and human-readable timestamp formatting.
//! Both depend on the machine (its clock and its time zone), so nothing
//! beyond their types is assumed about the results.

use vstd::prelude::*;

verus! {

/// Relies on chrono::Utc::now: the current wall-clock time as a Unix
/// timestamp in seconds. The result depends on the machine's clock, so
/// nothing is assumed about it.
#[verifier::external_body]
pub(crate) fn current_timestamp() -> i64 {
    chrono::Utc::now().timestamp()
}

/// Relies on chrono's calendar conversion and formatting: renders a Unix
/// timestamp in the machine's local time zone as `YYYY-MM-DD HH:MM:SS`,
/// or a fixed placeholder when the timestamp is out of chrono's range.
/// The result depends on the machine's time zone, so nothing is assumed
/// about it.
#[verifier::external_body]
pub fn format_timestamp(timestamp: i64) -> String {
    match chrono::DateTime::from_timestamp(timestamp, 0) {
        Some(dt) => dt.with_timezone(&chrono::Local).format("%Y-%m-%d %H:%M:%S").to_string(),
        None => "Invalid date".to_string(),
    }
}

} // verus!
