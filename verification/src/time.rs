//! Instants as the export tells them, and their text forms.

use crate::fields::text_view;
use std::fmt::Write;
use vstd::prelude::*;

verus! {

/// An instant: whole seconds since the start of 1970 (UTC), and the
/// nanoseconds that follow them. During a leap second `nanos` runs past
/// 999,999,999.
#[derive(Clone, Copy, Debug, PartialEq, Eq, Structural)]
pub struct Timestamp {
    pub secs: i64,
    pub nanos: u32,
}

/// The instant that `text` tells when it is read by the pattern `format`, if
/// it tells one. The patterns are those of the `chrono` crate.
pub uninterp spec fn datetime_of_text(text: Seq<char>, format: Seq<char>) -> Option<Timestamp>;

/// The text that the pattern `format` gives for the instant `secs`, `nanos`,
/// if the calendar can tell that instant and the pattern is a valid one.
pub uninterp spec fn datetime_text(secs: int, nanos: int, format: Seq<char>) -> Option<Seq<char>>;

/// The instant that `text` tells as a date and time of RFC 3339, if it tells
/// one.
pub uninterp spec fn rfc3339_instant(text: Seq<char>) -> Option<Timestamp>;

/// The pattern of a time in an export file, once " +0000" has been put
/// behind it.
pub open spec fn export_time_pattern() -> Seq<char> {
    "%Y-%m-%d %H:%M:%S%.6f %z"@
}

/// The pattern by which a time is written to an export file.
pub open spec fn export_time_layout() -> Seq<char> {
    "%Y-%m-%d %H:%M:%S%.6f"@
}

/// The instant that the text of an export file's time field tells.
pub open spec fn export_time_of_text(text: Seq<char>) -> Option<Timestamp> {
    datetime_of_text(text + " +0000"@, export_time_pattern())
}

impl Timestamp {
    /// `self` comes strictly before `other`.
    pub open spec fn is_before(self, other: Timestamp) -> bool {
        self.secs < other.secs || (self.secs == other.secs && self.nanos < other.nanos)
    }

    /// Milliseconds since the start of 1970, rounded down.
    pub open spec fn millis(self) -> int {
        self.secs * 1000 + self.nanos / 1_000_000
    }

    /// Whether `self` comes strictly before `other`.
    pub fn before(&self, other: &Timestamp) -> (earlier: bool)
        ensures
            earlier == self.is_before(*other),
    {
        self.secs < other.secs || (self.secs == other.secs && self.nanos < other.nanos)
    }

    /// Milliseconds since the start of 1970, rounded down; `None` where that
    /// number does not fit in an `i64`.
    pub fn timestamp_millis(&self) -> (ms: Option<i64>)
        ensures
            ms matches Some(m) ==> m == self.millis(),
            ms is None <==> !(i64::MIN <= self.millis() <= i64::MAX),
    {
        let total: i128 = (self.secs as i128) * 1000 + ((self.nanos / 1_000_000) as i128);
        if total < (i64::MIN as i128) || total > (i64::MAX as i128) {
            None
        } else {
            Some(total as i64)
        }
    }
}

/// `a` comes strictly before `b`, where a missing time comes before every
/// time.
pub open spec fn option_is_before(a: Option<Timestamp>, b: Option<Timestamp>) -> bool {
    match (a, b) {
        (None, None) => false,
        (None, Some(_)) => true,
        (Some(_), None) => false,
        (Some(x), Some(y)) => x.is_before(y),
    }
}

/// Whether `a` comes strictly before `b`, where a missing time comes before
/// every time.
pub fn option_before(a: &Option<Timestamp>, b: &Option<Timestamp>) -> (earlier: bool)
    ensures
        earlier == option_is_before(*a, *b),
{
    match (a, b) {
        (None, None) => false,
        (None, Some(_)) => true,
        (Some(_), None) => false,
        (Some(x), Some(y)) => x.before(y),
    }
}

/// Calls `chrono::DateTime::parse_from_str` and hands back the instant it
/// found as seconds and nanoseconds (`timestamp`, `timestamp_subsec_nanos`).
/// Trusted: the result is a function of the text and the pattern alone.
#[verifier::external_body]
pub(crate) fn parse_datetime(text: &str, format: &str) -> (time: Option<Timestamp>)
    ensures
        time == datetime_of_text(text@, format@),
{
    match chrono::DateTime::parse_from_str(text, format) {
        Ok(dt) => Some(Timestamp { secs: dt.timestamp(), nanos: dt.timestamp_subsec_nanos() }),
        Err(_) => None,
    }
}

/// Calls `chrono::DateTime::parse_from_rfc3339` and hands back the instant it
/// found as seconds and nanoseconds. Trusted: the result is a function of the
/// text alone.
#[verifier::external_body]
pub(crate) fn parse_rfc3339(text: &str) -> (time: Option<Timestamp>)
    ensures
        time == rfc3339_instant(text@),
{
    match chrono::DateTime::parse_from_rfc3339(text) {
        Ok(dt) => Some(Timestamp { secs: dt.timestamp(), nanos: dt.timestamp_subsec_nanos() }),
        Err(_) => None,
    }
}

/// Calls `chrono::DateTime::from_timestamp` and writes what
/// `chrono::DateTime::format` gives for the pattern. Trusted: the result is a
/// function of the instant and the pattern alone; it is `None` where the
/// calendar cannot tell the instant or the pattern cannot be written.
#[verifier::external_body]
pub(crate) fn format_datetime(time: &Timestamp, format: &str) -> (text: Option<String>)
    ensures
        text_view(text) == datetime_text(time.secs as int, time.nanos as int, format@),
{
    let mut out = String::new();
    match chrono::DateTime::from_timestamp(time.secs, time.nanos) {
        Some(dt) => match write!(out, "{}", dt.format(format)) {
            Ok(()) => Some(out),
            Err(_) => None,
        },
        None => None,
    }
}

/// Why the text of a time field was refused.
#[derive(Debug)]
pub enum TimestampError {
    /// The text does not tell a time in the export's form; it is handed back.
    Unreadable(String),
}

/// Reads the time field of an export file: a missing field stays missing, a
/// text is read as a UTC time with six digits of microseconds.
pub fn deserialize_amplitude_timestamp(text: Option<&str>) -> (time: Result<
    Option<Timestamp>,
    TimestampError,
>)
    ensures
        text is None ==> time == Ok::<Option<Timestamp>, TimestampError>(None),
        text matches Some(s) ==> (match export_time_of_text(s@) {
            Some(t) => time == Ok::<Option<Timestamp>, TimestampError>(Some(t)),
            None => time matches Err(TimestampError::Unreadable(bad)) && bad@ == s@,
        }),
{
    match text {
        None => Ok(None),
        Some(s) => {
            let mut with_zone = s.to_owned();
            with_zone.append(" +0000");
            match parse_datetime(with_zone.as_str(), "%Y-%m-%d %H:%M:%S%.6f %z") {
                Some(t) => Ok(Some(t)),
                None => Err(TimestampError::Unreadable(s.to_owned())),
            }
        },
    }
}

/// Writes a time as an export file holds it: a missing time stays missing.
/// `Err` is given for a time that the calendar cannot tell.
pub fn serialize_amplitude_timestamp(time: &Option<Timestamp>) -> (text: Result<
    Option<String>,
    Timestamp,
>)
    ensures
        *time is None ==> text matches Ok(None),
        *time matches Some(t) ==> (match datetime_text(
            t.secs as int,
            t.nanos as int,
            export_time_layout(),
        ) {
            Some(s) => text matches Ok(Some(written)) && written@ == s,
            None => text == Err::<Option<String>, Timestamp>(t),
        }),
{
    match time {
        None => Ok(None),
        Some(t) => match format_datetime(t, "%Y-%m-%d %H:%M:%S%.6f") {
            Some(s) => Ok(Some(s)),
            None => Err(*t),
        },
    }
}

} // verus!
