//! Whether an event of an export file can be read and written back
//! unchanged.

use crate::export_event::{ExportEvent, ExportEventModel};
use crate::export_json::{flatten, members_view, record_map};
use crate::json::{object_model, JsonModel, JsonValue};
use crate::transform::diff::{
    diff_entries, entries_view, is_diff_of, object_differences, FieldDifference,
};
use vstd::prelude::*;

verus! {

/// What was found of one file.
#[derive(Debug)]
pub struct VerificationResult {
    pub file_path: String,
    pub total_events: usize,
    pub successful_events: usize,
    pub failed_events: Vec<EventError>,
}

/// An event that could not be read, or not written back unchanged.
#[derive(Debug)]
pub struct EventError {
    /// The line of the file, counted from 1.
    pub line_number: usize,
    pub error: String,
    pub original_json: String,
}

/// Why an event does not pass.
#[derive(Debug)]
pub enum VerificationFailure {
    /// The event has no name.
    MissingEventType,
    /// The event has no insert id.
    MissingInsertId,
    /// The line is not a JSON object.
    NotAnObject,
    /// The event as it is written back differs from the line in these
    /// fields; the first value is the line's.
    Mismatch(Vec<FieldDifference>),
}

/// What the failure is called in a report.
pub open spec fn failure_headline(failure: VerificationFailure) -> Seq<char> {
    match failure {
        VerificationFailure::MissingEventType => "Event type is empty"@,
        VerificationFailure::MissingInsertId => "Insert ID is empty"@,
        VerificationFailure::NotAnObject => "JSON structure is not an object"@,
        VerificationFailure::Mismatch(_) => "JSON mismatch:"@,
    }
}

impl VerificationFailure {
    /// What the failure is called in a report.
    pub fn headline(&self) -> (text: String)
        ensures
            text@ == failure_headline(*self),
    {
        match self {
            VerificationFailure::MissingEventType => "Event type is empty".to_owned(),
            VerificationFailure::MissingInsertId => "Insert ID is empty".to_owned(),
            VerificationFailure::NotAnObject => "JSON structure is not an object".to_owned(),
            VerificationFailure::Mismatch(_) => "JSON mismatch:".to_owned(),
        }
    }
}

/// The fields in which a line and the event written back differ. A field
/// that only the line has is reported with nothing for the event, and the
/// other way round.
pub fn find_json_differences(
    original: &Vec<(String, JsonValue)>,
    round_trip: &Vec<(String, JsonValue)>,
) -> (diffs: Vec<FieldDifference>)
    ensures
        is_diff_of(diffs@, object_model(original@), object_model(round_trip@)),
        entries_view(diffs@) == diff_entries(members_view(original@), members_view(round_trip@)),
{
    object_differences(original, round_trip)
}

/// The event passes: it has a name and an insert id, the line is a JSON
/// object, and the event written back is that object.
pub open spec fn passes(original: JsonModel, event: ExportEventModel) -> bool {
    &&& event.event_type is Some
    &&& event.insert_id is Some
    &&& original == JsonModel::Object(record_map(event))
}

/// Checks one event against the line it was read from. The checks are made
/// in this order: the name, the insert id, the line being an object, the
/// fields.
pub fn verify_event(original: &JsonValue, event: &ExportEvent) -> (verdict: Result<
    (),
    VerificationFailure,
>)
    ensures
        verdict is Ok <==> passes(original.model(), event@),
        verdict matches Err(VerificationFailure::MissingEventType) <==> event@.event_type is None,
        verdict matches Err(VerificationFailure::MissingInsertId) <==> event@.event_type is Some
            && event@.insert_id is None,
        verdict matches Err(VerificationFailure::NotAnObject) <==> event@.event_type is Some
            && event@.insert_id is Some && !(original.model() is Object),
        verdict matches Err(VerificationFailure::Mismatch(diffs)) ==> original.model() matches JsonModel::Object(
            line,
        ) && is_diff_of(diffs@, line, record_map(event@)) && diffs@.len() > 0,
        verdict matches Err(VerificationFailure::Mismatch(diffs)) ==> original matches JsonValue::Object(
            members,
        ) && entries_view(diffs@) == diff_entries(members_view(members@), flatten(event@)),
{
    if event.event_type.is_none() {
        return Err(VerificationFailure::MissingEventType);
    }
    if event.insert_id.is_none() {
        return Err(VerificationFailure::MissingInsertId);
    }
    match original {
        JsonValue::Object(line) => {
            let written = event.to_json();
            let diffs = find_json_differences(line, &written);
            proof {
                crate::transform::diff::law_diff_reports_changed_keys(
                    diffs@,
                    object_model(line@),
                    record_map(event@),
                );
            }
            if diffs.len() == 0 {
                Ok(())
            } else {
                Err(VerificationFailure::Mismatch(diffs))
            }
        },
        _ => Err(VerificationFailure::NotAnObject),
    }
}

impl VerificationResult {
    /// A file of which nothing has been checked yet.
    pub fn new(file_path: String) -> (result: Self)
        ensures
            result.file_path == file_path,
            result.total_events == 0,
            result.successful_events == 0,
            result.failed_events@.len() == 0,
    {
        VerificationResult {
            file_path,
            total_events: 0,
            successful_events: 0,
            failed_events: Vec::new(),
        }
    }

    /// Every event that was checked either passed or is among the failed.
    pub open spec fn wf(self) -> bool {
        self.total_events == self.successful_events + self.failed_events@.len()
    }

    /// Counts an event that passed.
    pub fn record_success(&mut self)
        requires
            old(self).wf(),
            old(self).total_events < usize::MAX,
        ensures
            final(self).wf(),
            final(self).total_events == old(self).total_events + 1,
            final(self).successful_events == old(self).successful_events + 1,
            final(self).failed_events == old(self).failed_events,
            final(self).file_path == old(self).file_path,
    {
        self.total_events = self.total_events + 1;
        self.successful_events = self.successful_events + 1;
    }

    /// Counts an event that failed, and keeps what is known of it.
    pub fn record_failure(&mut self, line_number: usize, error: String, original_json: String)
        requires
            old(self).wf(),
            old(self).total_events < usize::MAX,
        ensures
            final(self).wf(),
            final(self).total_events == old(self).total_events + 1,
            final(self).successful_events == old(self).successful_events,
            final(self).failed_events@ == old(self).failed_events@.push(
                EventError { line_number, error, original_json },
            ),
            final(self).file_path == old(self).file_path,
    {
        self.total_events = self.total_events + 1;
        self.failed_events.push(EventError { line_number, error, original_json });
    }
}

/// The results of several files in numbers.
#[derive(Clone, Copy, Debug, PartialEq, Eq, Structural)]
pub struct VerificationTotals {
    pub total_files: usize,
    pub files_with_errors: usize,
    pub total_events: u128,
    pub total_successful: u128,
    pub total_failed: u128,
}

/// The events of the first `n` files, all told.
pub open spec fn events_in(results: Seq<VerificationResult>, n: int) -> int
    decreases n,
{
    if n <= 0 {
        0
    } else {
        events_in(results, n - 1) + results[n - 1].total_events
    }
}

/// The events of the first `n` files that passed.
pub open spec fn successes_in(results: Seq<VerificationResult>, n: int) -> int
    decreases n,
{
    if n <= 0 {
        0
    } else {
        successes_in(results, n - 1) + results[n - 1].successful_events
    }
}

/// The events of the first `n` files that failed.
pub open spec fn failures_in(results: Seq<VerificationResult>, n: int) -> int
    decreases n,
{
    if n <= 0 {
        0
    } else {
        failures_in(results, n - 1) + results[n - 1].failed_events@.len()
    }
}

/// How many of the first `n` files have an event that failed.
pub open spec fn files_failing_in(results: Seq<VerificationResult>, n: int) -> int
    decreases n,
{
    if n <= 0 {
        0
    } else if results[n - 1].failed_events@.len() > 0 {
        files_failing_in(results, n - 1) + 1
    } else {
        files_failing_in(results, n - 1)
    }
}

/// The results of several files in numbers.
pub fn verification_totals(results: &Vec<VerificationResult>) -> (totals: VerificationTotals)
    ensures
        totals.total_files == results.len(),
        totals.files_with_errors == files_failing_in(results@, results.len() as int),
        totals.total_events == events_in(results@, results.len() as int),
        totals.total_successful == successes_in(results@, results.len() as int),
        totals.total_failed == failures_in(results@, results.len() as int),
{
    let mut files_with_errors: usize = 0;
    let mut total_events: u128 = 0;
    let mut total_successful: u128 = 0;
    let mut total_failed: u128 = 0;
    let mut i: usize = 0;
    while i < results.len()
        invariant
            i <= results.len(),
            files_with_errors == files_failing_in(results@, i as int),
            files_with_errors <= i,
            total_events == events_in(results@, i as int),
            total_successful == successes_in(results@, i as int),
            total_failed == failures_in(results@, i as int),
            total_events <= i * 0x1_0000_0000_0000_0000,
            total_successful <= i * 0x1_0000_0000_0000_0000,
            total_failed <= i * 0x1_0000_0000_0000_0000,
        decreases results.len() - i,
    {
        let failed = results[i].failed_events.len();
        assert(i * 0x1_0000_0000_0000_0000 + 0x1_0000_0000_0000_0000 == (i + 1)
            * 0x1_0000_0000_0000_0000) by (nonlinear_arith);
        assert((i + 1) * 0x1_0000_0000_0000_0000 <= 0x1_0000_0000_0000_0000
            * 0x1_0000_0000_0000_0000) by (nonlinear_arith)
            requires
                i + 1 <= 0x1_0000_0000_0000_0000,
        ;
        total_events = total_events + results[i].total_events as u128;
        total_successful = total_successful + results[i].successful_events as u128;
        total_failed = total_failed + failed as u128;
        if failed > 0 {
            files_with_errors += 1;
        }
        i += 1;
    }
    VerificationTotals {
        total_files: results.len(),
        files_with_errors,
        total_events,
        total_successful,
        total_failed,
    }
}

} // verus!
