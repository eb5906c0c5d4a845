//! The wall clock, read through std, and the calendar, taken from chrono.

use crate::metrics::Timestamp;
use std::time::SystemTime;
use vstd::prelude::*;

verus! {

/// The pattern under which instants are put into words.
pub open spec fn time_pattern() -> Seq<char> {
    "%Y-%m-%d %H:%M:%S UTC"@
}

/// The calendar form of the instant `secs` seconds after the Unix epoch, as
/// chrono prints it under `pattern`; `None` where the instant lies outside
/// the years that chrono can express.
pub uninterp spec fn utc_text(secs: i64, pattern: Seq<char>) -> Option<Seq<char>>;

/// The characters of an optional string.
pub open spec fn text_view(t: Option<String>) -> Option<Seq<char>> {
    match t {
        Some(s) => Some(s@),
        None => None,
    }
}

/// The reading of the system clock, opaque to the proofs.
#[verifier::external_type_specification]
#[verifier::external_body]
pub struct ExSystemTime(SystemTime);

/// Reads the system clock with `std::time::SystemTime::now`. Nothing is
/// claimed of the reading.
#[verifier::external_body]
pub(crate) fn system_now() -> (t: SystemTime) {
    SystemTime::now()
}

/// Turns a clock reading into seconds and nanoseconds since the epoch:
/// measured from `UNIX_EPOCH` with `SystemTime::duration_since`, checked
/// with `chrono::DateTime::from_timestamp`, and read back with
/// `DateTime::timestamp` and `timestamp_subsec_nanos`. A reading before the
/// epoch, or outside the years that chrono can express, gives `None`. The
/// contract claims nothing of the result.
#[verifier::external_body]
pub(crate) fn instant_of(t: &SystemTime) -> (r: Option<Timestamp>) {
    match t.duration_since(std::time::UNIX_EPOCH) {
        Ok(d) => match chrono::DateTime::from_timestamp(d.as_secs() as i64, d.subsec_nanos()) {
            Some(at) => Some(Timestamp { secs: at.timestamp(), nanos: at.timestamp_subsec_nanos() }),
            None => None,
        },
        Err(_) => None,
    }
}

/// Builds the instant with `chrono::DateTime::from_timestamp_secs` and prints
/// it with `chrono::DateTime::format` under the pattern given. Trusted: the
/// text depends on `secs` and the pattern alone, there is none exactly where
/// chrono cannot build the instant, and under this pattern, which holds
/// numeric fields and plain text only, printing does not fail.
#[verifier::external_body]
pub(crate) fn calendar_text(secs: i64, pattern: &str) -> (r: Option<String>)
    requires
        pattern@ == time_pattern(),
    ensures
        text_view(r) == utc_text(secs, pattern@),
{
    match chrono::DateTime::from_timestamp_secs(secs) {
        Some(t) => Some(t.format(pattern).to_string()),
        None => None,
    }
}

/// The current time in UTC, where the clock gives one that the calendar can
/// express.
pub fn utc_now() -> (r: Option<Timestamp>) {
    let reading = system_now();
    instant_of(&reading)
}

} // verus!
