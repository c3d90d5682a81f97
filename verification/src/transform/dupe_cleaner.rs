//! An export with its duplicates resolved.

use crate::export_event::{events_view, ExportEvent, ExportEventModel};
use crate::transform::dupe_analyzer::{
    analyses_are_of, analyze_duplicates_and_types, duplicated, is_summary_of, DupeAnalysis,
    DupeReport,
};
use crate::transform::grouping::{find_last_with_key, groups_of, last_place_with_key};
use crate::transform::model::{DupeResolution, ResolutionModel};
use vstd::prelude::*;

verus! {

/// How much of the work on duplicates is wanted.
#[derive(Debug, Clone, Copy, PartialEq, Eq, Structural)]
pub enum OutputMode {
    /// The report on the duplicate groups.
    Analyze,
    /// The report, and the events that the resolutions keep.
    Debug,
    /// The report, the kept events, and the whole export with the resolved
    /// events in place of the duplicates.
    Full,
}

/// How the duplicate groups were resolved, in numbers.
#[derive(Debug, Clone, Copy, PartialEq, Eq, Structural)]
pub struct ResolutionSummary {
    /// The groups of which one event is kept.
    pub keep_one: usize,
    /// The events kept of the groups of which several are kept.
    pub keep_many: usize,
    /// The groups that are left to a person.
    pub error: usize,
}

/// The events that a resolution keeps.
pub open spec fn kept_of(resolution: ResolutionModel) -> Seq<ExportEventModel> {
    match resolution {
        ResolutionModel::KeepOne(event) => seq![event],
        ResolutionModel::KeepMany(events) => events,
        ResolutionModel::Error(_) => Seq::empty(),
    }
}

/// The events that the resolutions of the analyses keep, analysis after
/// analysis.
pub open spec fn resolved_events(analyses: Seq<DupeAnalysis>) -> Seq<ExportEventModel>
    decreases analyses.len(),
{
    if analyses.len() == 0 {
        Seq::empty()
    } else {
        resolved_events(analyses.drop_last()) + kept_of(analyses.last().resolution.model())
    }
}

/// How many of the analyses keep one event.
pub open spec fn count_keep_one(analyses: Seq<DupeAnalysis>) -> nat
    decreases analyses.len(),
{
    if analyses.len() == 0 {
        0
    } else if analyses.last().resolution.model() is KeepOne {
        count_keep_one(analyses.drop_last()) + 1
    } else {
        count_keep_one(analyses.drop_last())
    }
}

/// How many events the analyses that keep several events keep.
pub open spec fn count_keep_many(analyses: Seq<DupeAnalysis>) -> nat
    decreases analyses.len(),
{
    if analyses.len() == 0 {
        0
    } else {
        count_keep_many(analyses.drop_last()) + match analyses.last().resolution.model() {
            ResolutionModel::KeepMany(events) => events.len(),
            _ => 0,
        }
    }
}

/// How many of the analyses are left unresolved.
pub open spec fn count_error(analyses: Seq<DupeAnalysis>) -> nat
    decreases analyses.len(),
{
    if analyses.len() == 0 {
        0
    } else if analyses.last().resolution.model() is Error {
        count_error(analyses.drop_last()) + 1
    } else {
        count_error(analyses.drop_last())
    }
}

/// The resolved event that takes the place of an event of the export: the
/// last resolved event with the event's insert id, if there is one.
pub open spec fn stand_in(resolved: Seq<ExportEventModel>, event: ExportEventModel) -> Option<
    ExportEventModel,
> {
    match event.insert_id {
        Some(key) => match last_place_with_key(resolved, key) {
            Some(i) => Some(resolved[i]),
            None => None,
        },
        None => None,
    }
}

/// An event of the export as it stands in the resolved export.
pub open spec fn final_event(
    resolved: Seq<ExportEventModel>,
    event: ExportEventModel,
) -> ExportEventModel {
    match stand_in(resolved, event) {
        Some(other) => other,
        None => event,
    }
}

/// The resolved export: every event, in order, with the resolved event of
/// its insert id in its place where there is one.
pub open spec fn final_events(
    resolved: Seq<ExportEventModel>,
    events: Seq<ExportEventModel>,
) -> Seq<ExportEventModel> {
    events.map_values(|e: ExportEventModel| final_event(resolved, e))
}

/// How many events of the export stand in the resolved export as they are.
pub open spec fn untouched_count(
    resolved: Seq<ExportEventModel>,
    events: Seq<ExportEventModel>,
) -> nat
    decreases events.len(),
{
    if events.len() == 0 {
        0
    } else if stand_in(resolved, events.last()) is None {
        untouched_count(resolved, events.drop_last()) + 1
    } else {
        untouched_count(resolved, events.drop_last())
    }
}

/// Puts copies of the events of one list behind another.
pub fn append_events(out: &mut Vec<ExportEvent>, more: &Vec<ExportEvent>)
    ensures
        events_view(final(out)@) == events_view(old(out)@) + events_view(more@),
{
    let ghost before = events_view(out@);
    let ghost added = events_view(more@);
    let mut i: usize = 0;
    assert(before + added.take(0) =~= before);
    while i < more.len()
        invariant
            i <= more.len(),
            added == events_view(more@),
            events_view(out@) == before + added.take(i as int),
        decreases more.len() - i,
    {
        let ghost so_far = events_view(out@);
        out.push(more[i].clone());
        assert(events_view(out@) =~= so_far.push(more@[i as int]@));
        assert(before + added.take(i + 1) =~= (before + added.take(i as int)).push(
            more@[i as int]@,
        ));
        i += 1;
    }
    assert(added.take(more.len() as int) =~= added);
}

/// The events that the resolutions keep, and the resolutions in numbers.
pub fn collect_resolved(analyses: &Vec<DupeAnalysis>) -> (kept: (
    Vec<ExportEvent>,
    ResolutionSummary,
))
    ensures
        events_view(kept.0@) == resolved_events(analyses@),
        kept.1.keep_one == count_keep_one(analyses@),
        kept.1.keep_many == count_keep_many(analyses@),
        kept.1.error == count_error(analyses@),
{
    let mut resolved: Vec<ExportEvent> = Vec::new();
    let mut keep_one: usize = 0;
    let mut keep_many: usize = 0;
    let mut error: usize = 0;
    let mut i: usize = 0;
    assert(analyses@.take(0) =~= Seq::<DupeAnalysis>::empty());
    assert(events_view(resolved@) =~= Seq::<ExportEventModel>::empty());
    while i < analyses.len()
        invariant
            i <= analyses.len(),
            events_view(resolved@) == resolved_events(analyses@.take(i as int)),
            keep_one == count_keep_one(analyses@.take(i as int)),
            keep_many == count_keep_many(analyses@.take(i as int)),
            error == count_error(analyses@.take(i as int)),
            keep_one + keep_many == resolved@.len(),
            error <= i,
        decreases analyses.len() - i,
    {
        assert(analyses@.take(i + 1).drop_last() =~= analyses@.take(i as int));
        assert(analyses@.take(i + 1).last() == analyses@[i as int]);
        let ghost before = events_view(resolved@);
        match &analyses[i].resolution {
            DupeResolution::KeepOne(event) => {
                resolved.push(event.clone());
                assert(events_view(resolved@) =~= before + seq![event@]);
                let total = resolved.len();
                assert(keep_one + keep_many + 1 == total);
                keep_one += 1;
            },
            DupeResolution::KeepMany(events) => {
                append_events(&mut resolved, events);
                assert(events_view(events@).len() == events@.len());
                assert(events_view(resolved@).len() == resolved@.len());
                assert(before.len() == keep_one + keep_many);
                let total = resolved.len();
                assert(keep_one + keep_many + events@.len() == total);
                keep_many += events.len();
            },
            DupeResolution::Error(_) => {
                assert(before + Seq::<ExportEventModel>::empty() =~= before);
                error += 1;
            },
        }
        i += 1;
    }
    assert(analyses@.take(analyses.len() as int) =~= analyses@);
    (resolved, ResolutionSummary { keep_one, keep_many, error })
}

/// The resolved export, and how many of its events are as they were.
pub fn full_export(events: &Vec<ExportEvent>, resolved: &Vec<ExportEvent>) -> (export: (
    Vec<ExportEvent>,
    usize,
))
    ensures
        events_view(export.0@) == final_events(events_view(resolved@), events_view(events@)),
        export.1 == untouched_count(events_view(resolved@), events_view(events@)),
{
    let ghost all = events_view(events@);
    let ghost kept = events_view(resolved@);
    let mut out: Vec<ExportEvent> = Vec::new();
    let mut untouched: usize = 0;
    let mut i: usize = 0;
    assert(all.take(0) =~= Seq::<ExportEventModel>::empty());
    while i < events.len()
        invariant
            i <= events.len(),
            all == events_view(events@),
            kept == events_view(resolved@),
            out@.len() == i,
            forall|j: int| 0 <= j < i ==> (#[trigger] out@[j])@ == final_event(kept, all[j]),
            untouched == untouched_count(kept, all.take(i as int)),
            untouched <= i,
        decreases events.len() - i,
    {
        assert(all.take(i + 1).drop_last() =~= all.take(i as int));
        assert(all.take(i + 1).last() == events@[i as int]@);
        assert(all[i as int] == events@[i as int]@);
        let place = match &events[i].insert_id {
            Some(key) => find_last_with_key(resolved, key.as_str()),
            None => None,
        };
        match place {
            Some(p) => {
                assert(kept[p as int] == resolved@[p as int]@);
                out.push(resolved[p].clone());
            },
            None => {
                out.push(events[i].clone());
                untouched += 1;
            },
        }
        i += 1;
    }
    assert(all.take(events.len() as int) =~= all);
    assert(events_view(out@) =~= final_events(kept, all));
    (out, untouched)
}

/// What the work on the duplicates of an export gives.
#[derive(Debug)]
pub struct CleanOutcome {
    pub report: DupeReport,
    /// The events that the resolutions keep; empty in the mode `Analyze`.
    pub resolved_events: Vec<ExportEvent>,
    /// The resolutions in numbers; all zero in the mode `Analyze`.
    pub resolution_summary: ResolutionSummary,
    /// The resolved export; empty unless the mode is `Full`.
    pub final_events: Vec<ExportEvent>,
    /// How many events of the resolved export are as they were; zero unless
    /// the mode is `Full`.
    pub non_duplicate_count: usize,
}

/// The outcome is the one that the mode asks for, given the report.
pub open spec fn is_outcome_of(
    outcome: CleanOutcome,
    events: Seq<ExportEventModel>,
    mode: OutputMode,
) -> bool {
    let analyses = outcome.report.analyses@;
    &&& analyses_are_of(analyses, duplicated(groups_of(events)))
    &&& is_summary_of(outcome.report.summary, events, analyses)
    &&& if mode == OutputMode::Analyze {
        &&& outcome.resolved_events@.len() == 0
        &&& outcome.resolution_summary == (ResolutionSummary { keep_one: 0, keep_many: 0, error: 0 })
    } else {
        &&& events_view(outcome.resolved_events@) == resolved_events(analyses)
        &&& outcome.resolution_summary.keep_one == count_keep_one(analyses)
        &&& outcome.resolution_summary.keep_many == count_keep_many(analyses)
        &&& outcome.resolution_summary.error == count_error(analyses)
    }
    &&& if mode == OutputMode::Full {
        &&& events_view(outcome.final_events@) == final_events(resolved_events(analyses), events)
        &&& outcome.non_duplicate_count == untouched_count(resolved_events(analyses), events)
    } else {
        &&& outcome.final_events@.len() == 0
        &&& outcome.non_duplicate_count == 0
    }
}

/// Finds the duplicate groups of an export, classifies and resolves them,
/// and, as far as the mode asks for it, gives the kept events and the
/// resolved export.
pub fn clean_duplicates_and_types(events: &Vec<ExportEvent>, output_mode: OutputMode) -> (outcome:
    CleanOutcome)
    ensures
        is_outcome_of(outcome, events_view(events@), output_mode),
{
    let report = analyze_duplicates_and_types(events);
    match output_mode {
        OutputMode::Analyze => CleanOutcome {
            report,
            resolved_events: Vec::new(),
            resolution_summary: ResolutionSummary { keep_one: 0, keep_many: 0, error: 0 },
            final_events: Vec::new(),
            non_duplicate_count: 0,
        },
        OutputMode::Debug => {
            let (resolved, numbers) = collect_resolved(&report.analyses);
            CleanOutcome {
                report,
                resolved_events: resolved,
                resolution_summary: numbers,
                final_events: Vec::new(),
                non_duplicate_count: 0,
            }
        },
        OutputMode::Full => {
            let (resolved, numbers) = collect_resolved(&report.analyses);
            let (finals, untouched) = full_export(events, &resolved);
            CleanOutcome {
                report,
                resolved_events: resolved,
                resolution_summary: numbers,
                final_events: finals,
                non_duplicate_count: untouched,
            }
        },
    }
}

} // verus!
