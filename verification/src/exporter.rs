//! The days of which an export is asked.

use crate::time::{parse_rfc3339, rfc3339_instant, Timestamp};
use vstd::prelude::*;
use vstd::string::*;

verus! {

/// Why the days of an export were refused.
#[derive(Debug)]
pub enum ExportError {
    /// The first day does not read as a date; it is handed back.
    BadStartDate(String),
    /// The last day does not read as a date; it is handed back.
    BadEndDate(String),
}

/// The start of the first hour of the day.
pub open spec fn start_of_day(day: Seq<char>) -> Option<Timestamp> {
    rfc3339_instant(day + "T00:00:00Z"@)
}

/// The start of the last hour of the day.
pub open spec fn last_hour_of_day(day: Seq<char>) -> Option<Timestamp> {
    rfc3339_instant(day + "T23:00:00Z"@)
}

/// The times between which the events of the given days lie: from the start
/// of the first day to the last hour of the last. The days are written as
/// year, month and day with hyphens between them.
pub fn export_window(start_date: &str, end_date: &str) -> (window: Result<
    (Timestamp, Timestamp),
    ExportError,
>)
    ensures
        start_of_day(start_date@) is None ==> (window matches Err(ExportError::BadStartDate(day))
            && day@ == start_date@),
        start_of_day(start_date@) is Some && last_hour_of_day(end_date@) is None ==> (
        window matches Err(ExportError::BadEndDate(day)) && day@ == end_date@),
        start_of_day(start_date@) is Some && last_hour_of_day(end_date@) is Some ==> window == Ok::<
            (Timestamp, Timestamp),
            ExportError,
        >((start_of_day(start_date@)->0, last_hour_of_day(end_date@)->0)),
{
    let mut first = start_date.to_owned();
    first.append("T00:00:00Z");
    let start = match parse_rfc3339(first.as_str()) {
        Some(t) => t,
        None => {
            return Err(ExportError::BadStartDate(start_date.to_owned()));
        },
    };
    let mut last = end_date.to_owned();
    last.append("T23:00:00Z");
    let end = match parse_rfc3339(last.as_str()) {
        Some(t) => t,
        None => {
            return Err(ExportError::BadEndDate(end_date.to_owned()));
        },
    };
    Ok((start, end))
}

} // verus!
