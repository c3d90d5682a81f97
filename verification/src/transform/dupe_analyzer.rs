//! The duplicate groups of an export, each with its finding, its resolution
//! and the fields in which its events differ.

use crate::export_event::{clone_events, events_view, ExportEvent, ExportEventModel};
use crate::export_json::{flatten, members_view, record_map};
use crate::insert_id::parses_as_uuid;
use crate::json::{object_model, JsonModel, JsonValue};
use crate::transform::diff::{
    diff_entries, entries_view, is_diff_of, object_differences, FieldDifference,
};
use crate::names::{counts_view, distinct_texts, first_occurrences, tally, tally_texts, texts_view};
use crate::transform::grouping::{
    count_without_insert_id, events_with_key, events_without_key, group_by_insert_id, groups_of,
    groups_view, keys_in_order, lemma_events_with_key, EventGroup,
};
use crate::transform::model::{
    classify, key_is_consulted, key_text, lemma_classified_is_resolvable, part_names, resolve,
    tag_name, Dupe, DupeKind, DupeModel, DupeResolution,
};
use vstd::prelude::*;

verus! {

/// The event properties of an event as a map; the empty map where the event
/// has none.
pub open spec fn properties_or_nothing(event: ExportEventModel) -> Map<Seq<char>, JsonModel> {
    match event.event_properties {
        Some(map) => map,
        None => Map::empty(),
    }
}

/// The fields in which two events differ. Each event is taken as the JSON
/// object that an export file holds for it, and every field counts.
pub fn find_event_differences(event1: &ExportEvent, event2: &ExportEvent) -> (diffs: Vec<
    FieldDifference,
>)
    ensures
        is_diff_of(diffs@, record_map(event1@), record_map(event2@)),
        entries_view(diffs@) == diff_entries(flatten(event1@), flatten(event2@)),
{
    let first = event1.to_json();
    let second = event2.to_json();
    object_differences(&first, &second)
}

/// The event properties of an event as they are stored, in order; none
/// where the event has no event properties.
pub open spec fn property_pairs(event: ExportEvent) -> Seq<(Seq<char>, JsonModel)> {
    match event.event_properties {
        Some(members) => members_view(members@),
        None => Seq::empty(),
    }
}

/// The event properties in which two events differ. An event without event
/// properties has none to compare: every property of the other event is a
/// difference.
pub fn find_event_properties_differences(event1: &ExportEvent, event2: &ExportEvent) -> (diffs:
    Vec<FieldDifference>)
    ensures
        is_diff_of(diffs@, properties_or_nothing(event1@), properties_or_nothing(event2@)),
        entries_view(diffs@) == diff_entries(property_pairs(*event1), property_pairs(*event2)),
{
    let nothing: Vec<(String, JsonValue)> = Vec::new();
    assert(object_model(nothing@) =~= Map::<Seq<char>, JsonModel>::empty());
    assert(members_view(nothing@) =~= Seq::<(Seq<char>, JsonModel)>::empty());
    let first = match &event1.event_properties {
        Some(members) => members,
        None => &nothing,
    };
    let second = match &event2.event_properties {
        Some(members) => members,
        None => &nothing,
    };
    object_differences(first, second)
}

/// A duplicate group with all that was found of it.
#[derive(Debug)]
pub struct DupeAnalysis {
    pub insert_id: String,
    pub duplicate_count: usize,
    pub dupe_type: Dupe,
    pub resolution: DupeResolution,
    pub events: Vec<ExportEvent>,
    /// For a finding of several rules, the names of those findings.
    pub dupe_types: Vec<String>,
    /// The fields in which the first two events differ, where the finding
    /// calls for them.
    pub field_differences: Vec<FieldDifference>,
    /// The event properties in which the first two events differ, where the
    /// finding calls for them.
    pub event_properties_differences: Vec<FieldDifference>,
}

/// The finding is one that a person has to look into with the differences at
/// hand: an unexplained difference, or a finding of several rules.
pub open spec fn calls_for_details(dupe: DupeModel) -> bool {
    match dupe {
        DupeModel::Simple(kind, _) => kind == DupeKind::UnknownPropDiff,
        DupeModel::Multi(_, _) => true,
    }
}

/// The finding on a group that was read under one insert id.
pub open spec fn finding_on(events: Seq<ExportEventModel>) -> DupeModel {
    classify(events, parses_as_uuid(key_text(events[0])))
}

/// The analysis is that of the group with the given insert id and events.
pub open spec fn is_analysis_of(
    analysis: DupeAnalysis,
    key: Seq<char>,
    events: Seq<ExportEventModel>,
) -> bool {
    &&& analysis.insert_id@ == key
    &&& analysis.duplicate_count == events.len()
    &&& events_view(analysis.events@) == events
    &&& analysis.dupe_type.model() == finding_on(events)
    &&& analysis.resolution.model() == resolve(finding_on(events))
    &&& texts_view(analysis.dupe_types@) == part_names(finding_on(events))
    &&& if calls_for_details(finding_on(events)) {
        &&& is_diff_of(analysis.field_differences@, record_map(events[0]), record_map(events[1]))
        &&& entries_view(analysis.field_differences@) == diff_entries(
            flatten(events[0]),
            flatten(events[1]),
        )
        &&& is_diff_of(
            analysis.event_properties_differences@,
            properties_or_nothing(events[0]),
            properties_or_nothing(events[1]),
        )
    } else {
        &&& analysis.field_differences@.len() == 0
        &&& analysis.event_properties_differences@.len() == 0
    }
}

/// Whether the finding calls for the differences between the events.
pub fn wants_details(dupe: &Dupe) -> (wanted: bool)
    ensures
        wanted == calls_for_details(dupe.model()),
{
    match dupe {
        Dupe::UnknownPropDiff(_) => true,
        Dupe::Multi(_, _) => true,
        _ => false,
    }
}

/// All that is found of one duplicate group.
pub fn analyze_group(group: &EventGroup) -> (analysis: DupeAnalysis)
    requires
        group.events.len() >= 2,
        key_is_consulted(events_view(group.events@)) ==> group.events@[0]@.insert_id is Some,
    ensures
        is_analysis_of(analysis, group.insert_id@, events_view(group.events@)),
{
    let ghost events = events_view(group.events@);
    assert(events[0] == group.events@[0]@ && events[1] == group.events@[1]@);
    let dupe_type = Dupe::from_events(&group.events);
    proof {
        lemma_classified_is_resolvable(events, parses_as_uuid(key_text(events[0])));
    }
    let resolution = dupe_type.clone().resolution();
    let dupe_types = dupe_type.part_names();
    let mut field_differences: Vec<FieldDifference> = Vec::new();
    let mut event_properties_differences: Vec<FieldDifference> = Vec::new();
    if wants_details(&dupe_type) {
        field_differences = find_event_differences(&group.events[0], &group.events[1]);
        event_properties_differences =
        find_event_properties_differences(&group.events[0], &group.events[1]);
    }
    DupeAnalysis {
        insert_id: group.insert_id.clone(),
        duplicate_count: group.events.len(),
        dupe_type,
        resolution,
        events: clone_events(&group.events),
        dupe_types,
        field_differences,
        event_properties_differences,
    }
}

/// The groups that have more than one event, in order.
pub open spec fn duplicated(groups: Seq<(Seq<char>, Seq<ExportEventModel>)>) -> Seq<
    (Seq<char>, Seq<ExportEventModel>),
>
    decreases groups.len(),
{
    if groups.len() == 0 {
        Seq::empty()
    } else if groups.last().1.len() > 1 {
        duplicated(groups.drop_last()).push(groups.last())
    } else {
        duplicated(groups.drop_last())
    }
}

/// The analyses are those of the groups, one for one and in order.
pub open spec fn analyses_are_of(
    analyses: Seq<DupeAnalysis>,
    groups: Seq<(Seq<char>, Seq<ExportEventModel>)>,
) -> bool {
    &&& analyses.len() == groups.len()
    &&& forall|g: int|
        0 <= g < groups.len() ==> is_analysis_of(#[trigger] analyses[g], groups[g].0, groups[g].1)
}

/// The names under which the analyses are filed, in order.
pub open spec fn tags_of(analyses: Seq<DupeAnalysis>) -> Seq<Seq<char>> {
    analyses.map_values(|a: DupeAnalysis| tag_name(a.dupe_type.model()))
}

/// The insert ids of the analyses, in order.
pub open spec fn ids_of(analyses: Seq<DupeAnalysis>) -> Seq<Seq<char>> {
    analyses.map_values(|a: DupeAnalysis| a.insert_id@)
}

/// The keys of a list of differences, in order.
pub open spec fn diff_keys(diffs: Seq<FieldDifference>) -> Seq<Seq<char>> {
    diffs.map_values(|d: FieldDifference| d.key@)
}

/// The finding is an unexplained difference and nothing else.
pub open spec fn is_unexplained(dupe: DupeModel) -> bool {
    dupe matches DupeModel::Simple(kind, _) && kind == DupeKind::UnknownPropDiff
}

/// The names of the fields in which the events of the unexplained groups
/// differ, group after group.
pub open spec fn unexplained_fields(analyses: Seq<DupeAnalysis>) -> Seq<Seq<char>>
    decreases analyses.len(),
{
    if analyses.len() == 0 {
        Seq::empty()
    } else if is_unexplained(analyses.last().dupe_type.model()) {
        unexplained_fields(analyses.drop_last()) + diff_keys(analyses.last().field_differences@)
    } else {
        unexplained_fields(analyses.drop_last())
    }
}

/// The names of the event properties in which the events of the unexplained
/// groups differ, group after group.
pub open spec fn unexplained_properties(analyses: Seq<DupeAnalysis>) -> Seq<Seq<char>>
    decreases analyses.len(),
{
    if analyses.len() == 0 {
        Seq::empty()
    } else if is_unexplained(analyses.last().dupe_type.model()) {
        unexplained_properties(analyses.drop_last()) + diff_keys(
            analyses.last().event_properties_differences@,
        )
    } else {
        unexplained_properties(analyses.drop_last())
    }
}

/// The field is one that the service fills in anew whenever it takes an
/// event in, so that a difference in it says nothing.
pub open spec fn is_volatile_name(name: Seq<char>) -> bool {
    name == "city"@
        || name == "country"@
        || name == "device_carrier"@
        || name == "device_family"@
        || name == "device_type"@
        || name == "event_id"@
        || name == "ip_address"@
        || name == "os_name"@
        || name == "os_version"@
        || name == "platform"@
        || name == "client_upload_time"@
        || name == "processed_time"@
        || name == "server_received_time"@
        || name == "server_upload_time"@
        || name == "user_properties"@
        || name == "uuid"@
        || name == "language"@
        || name == "region"@
        || name == "dma"@
        || name == "data"@
}

/// The names of the list that are not volatile, in order.
pub open spec fn material(names: Seq<Seq<char>>) -> Seq<Seq<char>>
    decreases names.len(),
{
    if names.len() == 0 {
        Seq::empty()
    } else if is_volatile_name(names.last()) {
        material(names.drop_last())
    } else {
        material(names.drop_last()).push(names.last())
    }
}

/// Whether the field is a volatile one.
pub fn is_volatile_field(name: &String) -> (volatile: bool)
    ensures
        volatile == is_volatile_name(name@),
{
    *name == "city".to_owned()
        || *name == "country".to_owned()
        || *name == "device_carrier".to_owned()
        || *name == "device_family".to_owned()
        || *name == "device_type".to_owned()
        || *name == "event_id".to_owned()
        || *name == "ip_address".to_owned()
        || *name == "os_name".to_owned()
        || *name == "os_version".to_owned()
        || *name == "platform".to_owned()
        || *name == "client_upload_time".to_owned()
        || *name == "processed_time".to_owned()
        || *name == "server_received_time".to_owned()
        || *name == "server_upload_time".to_owned()
        || *name == "user_properties".to_owned()
        || *name == "uuid".to_owned()
        || *name == "language".to_owned()
        || *name == "region".to_owned()
        || *name == "dma".to_owned()
        || *name == "data".to_owned()
}

/// The names of the list that are not volatile, in order.
pub fn material_fields(names: &Vec<String>) -> (kept: Vec<String>)
    ensures
        texts_view(kept@) == material(texts_view(names@)),
{
    let ghost all = texts_view(names@);
    let mut kept: Vec<String> = Vec::new();
    let mut i: usize = 0;
    assert(all.take(0) =~= Seq::<Seq<char>>::empty());
    assert(texts_view(kept@) =~= Seq::<Seq<char>>::empty());
    while i < names.len()
        invariant
            i <= names.len(),
            all == texts_view(names@),
            texts_view(kept@) == material(all.take(i as int)),
        decreases names.len() - i,
    {
        assert(all.take(i + 1).drop_last() =~= all.take(i as int));
        assert(all.take(i + 1).last() == names@[i as int]@);
        if !is_volatile_field(&names[i]) {
            let ghost before = texts_view(kept@);
            kept.push(names[i].clone());
            assert(texts_view(kept@) =~= before.push(names@[i as int]@));
        }
        i += 1;
    }
    assert(all.take(names.len() as int) =~= all);
    kept
}

/// The numbers and names at the head of a report on duplicates.
#[derive(Debug)]
pub struct DupeSummary {
    pub total_events: usize,
    /// How many events have no insert id; they are in no group.
    pub events_without_insert_id: usize,
    pub unique_insert_ids: usize,
    pub duplicate_insert_ids_count: usize,
    /// How many groups are filed under each name, in the order in which the
    /// names first occur.
    pub dupe_type_counts: Vec<(String, usize)>,
    pub duplicate_insert_ids: Vec<String>,
    /// The fields, other than volatile ones, in which the events of an
    /// unexplained group differ, each once.
    pub all_diff_fields: Vec<String>,
    /// The event properties in which the events of an unexplained group
    /// differ, each once.
    pub all_event_properties_diff_fields: Vec<String>,
}

/// A report on the duplicates of an export.
#[derive(Debug)]
pub struct DupeReport {
    pub summary: DupeSummary,
    pub analyses: Vec<DupeAnalysis>,
}

/// The summary is that of the events and of the analyses of their duplicate
/// groups.
pub open spec fn is_summary_of(
    summary: DupeSummary,
    events: Seq<ExportEventModel>,
    analyses: Seq<DupeAnalysis>,
) -> bool {
    &&& summary.total_events == events.len()
    &&& summary.events_without_insert_id == events_without_key(events).len()
    &&& summary.unique_insert_ids == keys_in_order(events).len()
    &&& summary.duplicate_insert_ids_count == analyses.len()
    &&& counts_view(summary.dupe_type_counts@) == tally(tags_of(analyses))
    &&& texts_view(summary.duplicate_insert_ids@) == ids_of(analyses)
    &&& texts_view(summary.all_diff_fields@) == material(
        first_occurrences(unexplained_fields(analyses)),
    )
    &&& texts_view(summary.all_event_properties_diff_fields@) == first_occurrences(
        unexplained_properties(analyses),
    )
}

/// The analyses of the groups that have more than one event.
pub fn analyze_groups(groups: &Vec<EventGroup>) -> (analyses: Vec<DupeAnalysis>)
    requires
        forall|g: int, i: int|
            0 <= g < groups@.len() && 0 <= i < groups@[g].events@.len() ==> (
            #[trigger] groups@[g].events@[i])@.insert_id is Some,
    ensures
        analyses_are_of(analyses@, duplicated(groups_view(groups@))),
{
    let ghost all = groups_view(groups@);
    let mut analyses: Vec<DupeAnalysis> = Vec::new();
    let mut g: usize = 0;
    assert(all.take(0) =~= Seq::<(Seq<char>, Seq<ExportEventModel>)>::empty());
    while g < groups.len()
        invariant
            g <= groups.len(),
            all == groups_view(groups@),
            analyses_are_of(analyses@, duplicated(all.take(g as int))),
            forall|h: int, i: int|
                0 <= h < groups@.len() && 0 <= i < groups@[h].events@.len() ==> (
                #[trigger] groups@[h].events@[i])@.insert_id is Some,
        decreases groups.len() - g,
    {
        assert(all.take(g + 1).drop_last() =~= all.take(g as int));
        assert(all.take(g + 1).last() == (
            groups@[g as int].insert_id@,
            events_view(groups@[g as int].events@),
        ));
        if groups[g].events.len() > 1 {
            assert(groups@[g as int].events@[0]@.insert_id is Some);
            let analysis = analyze_group(&groups[g]);
            analyses.push(analysis);
        }
        g += 1;
    }
    assert(all.take(groups.len() as int) =~= all);
    analyses
}

/// The names under which the analyses are filed.
fn tags(analyses: &Vec<DupeAnalysis>) -> (names: Vec<String>)
    ensures
        texts_view(names@) == tags_of(analyses@),
{
    let mut names: Vec<String> = Vec::new();
    let mut i: usize = 0;
    while i < analyses.len()
        invariant
            i <= analyses.len(),
            names@.len() == i,
            forall|j: int| 0 <= j < i ==> (#[trigger] names@[j])@ == tag_name(
                analyses@[j].dupe_type.model(),
            ),
        decreases analyses.len() - i,
    {
        names.push(analyses[i].dupe_type.to_str());
        i += 1;
    }
    assert(texts_view(names@) =~= tags_of(analyses@));
    names
}

/// The insert ids of the analyses.
fn ids(analyses: &Vec<DupeAnalysis>) -> (names: Vec<String>)
    ensures
        texts_view(names@) == ids_of(analyses@),
{
    let mut names: Vec<String> = Vec::new();
    let mut i: usize = 0;
    while i < analyses.len()
        invariant
            i <= analyses.len(),
            names@.len() == i,
            forall|j: int| 0 <= j < i ==> (#[trigger] names@[j])@ == analyses@[j].insert_id@,
        decreases analyses.len() - i,
    {
        names.push(analyses[i].insert_id.clone());
        i += 1;
    }
    assert(texts_view(names@) =~= ids_of(analyses@));
    names
}

/// Puts the keys of a list of differences behind a list of names.
fn push_keys(names: &mut Vec<String>, diffs: &Vec<FieldDifference>)
    ensures
        texts_view(final(names)@) == texts_view(old(names)@) + diff_keys(diffs@),
{
    let ghost before = texts_view(names@);
    let mut i: usize = 0;
    assert(diff_keys(diffs@).take(0) =~= Seq::<Seq<char>>::empty());
    assert(before + Seq::<Seq<char>>::empty() =~= before);
    while i < diffs.len()
        invariant
            i <= diffs.len(),
            texts_view(names@) == before + diff_keys(diffs@).take(i as int),
        decreases diffs.len() - i,
    {
        let ghost so_far = texts_view(names@);
        names.push(diffs[i].key.clone());
        assert(texts_view(names@) =~= so_far.push(diffs@[i as int].key@));
        assert(diff_keys(diffs@).take(i + 1) =~= diff_keys(diffs@).take(i as int).push(
            diffs@[i as int].key@,
        ));
        assert(before + diff_keys(diffs@).take(i + 1) =~= (before + diff_keys(diffs@).take(
            i as int,
        )).push(diffs@[i as int].key@));
        i += 1;
    }
    assert(diff_keys(diffs@).take(diffs.len() as int) =~= diff_keys(diffs@));
}

/// Whether the finding is an unexplained difference and nothing else.
fn unexplained(dupe: &Dupe) -> (yes: bool)
    ensures
        yes == is_unexplained(dupe.model()),
{
    match dupe {
        Dupe::UnknownPropDiff(_) => true,
        _ => false,
    }
}

/// The summary of the events and of the analyses of their duplicate groups.
pub fn summarize(events: &Vec<ExportEvent>, unique_insert_ids: usize, analyses: &Vec<
    DupeAnalysis,
>) -> (summary: DupeSummary)
    requires
        unique_insert_ids == keys_in_order(events_view(events@)).len(),
    ensures
        is_summary_of(summary, events_view(events@), analyses@),
{
    let mut fields: Vec<String> = Vec::new();
    let mut properties: Vec<String> = Vec::new();
    let mut i: usize = 0;
    assert(analyses@.take(0) =~= Seq::<DupeAnalysis>::empty());
    assert(texts_view(fields@) =~= Seq::<Seq<char>>::empty());
    assert(texts_view(properties@) =~= Seq::<Seq<char>>::empty());
    while i < analyses.len()
        invariant
            i <= analyses.len(),
            texts_view(fields@) == unexplained_fields(analyses@.take(i as int)),
            texts_view(properties@) == unexplained_properties(analyses@.take(i as int)),
        decreases analyses.len() - i,
    {
        assert(analyses@.take(i + 1).drop_last() =~= analyses@.take(i as int));
        assert(analyses@.take(i + 1).last() == analyses@[i as int]);
        if unexplained(&analyses[i].dupe_type) {
            push_keys(&mut fields, &analyses[i].field_differences);
            push_keys(&mut properties, &analyses[i].event_properties_differences);
        }
        i += 1;
    }
    assert(analyses@.take(analyses.len() as int) =~= analyses@);
    let names = tags(analyses);
    DupeSummary {
        total_events: events.len(),
        events_without_insert_id: count_without_insert_id(events),
        unique_insert_ids,
        duplicate_insert_ids_count: analyses.len(),
        dupe_type_counts: tally_texts(&names),
        duplicate_insert_ids: ids(analyses),
        all_diff_fields: material_fields(&distinct_texts(&fields)),
        all_event_properties_diff_fields: distinct_texts(&properties),
    }
}

/// The report on the duplicates of an export: the groups of more than one
/// event, in the order in which their insert ids first occur, each with its
/// finding, its resolution and its differences, and the summary of them.
pub fn analyze_duplicates_and_types(events: &Vec<ExportEvent>) -> (report: DupeReport)
    ensures
        analyses_are_of(report.analyses@, duplicated(groups_of(events_view(events@)))),
        is_summary_of(report.summary, events_view(events@), report.analyses@),
{
    let ghost all = events_view(events@);
    let groups = group_by_insert_id(events);
    proof {
        assert forall|g: int, i: int|
            0 <= g < groups@.len() && 0 <= i < groups@[g].events@.len() implies (
        #[trigger] groups@[g].events@[i])@.insert_id is Some by {
            assert(groups_view(groups@).len() == groups@.len());
            assert(groups_of(all).len() == keys_in_order(all).len());
            let key = keys_in_order(all)[g];
            let members = events_with_key(all, key);
            assert(groups_of(all)[g] == (key, members));
            assert(groups_view(groups@)[g] == (
                groups@[g].insert_id@,
                events_view(groups@[g].events@),
            ));
            assert(events_view(groups@[g].events@) == members);
            lemma_events_with_key(all, key);
            assert(members[i].insert_id == Some(key));
            assert(events_view(groups@[g].events@)[i] == groups@[g].events@[i]@);
        }
        assert(groups_view(groups@).len() == keys_in_order(all).len());
    }
    let analyses = analyze_groups(&groups);
    let summary = summarize(events, groups.len(), &analyses);
    DupeReport { summary, analyses }
}

/// Two events differ in the same fields and in the same event properties
/// whichever of them is taken first.
pub proof fn law_event_diff_is_symmetric(a: ExportEventModel, b: ExportEventModel)
    ensures
        crate::transform::diff::changed_keys(record_map(a), record_map(b))
            == crate::transform::diff::changed_keys(record_map(b), record_map(a)),
        crate::transform::diff::changed_keys(properties_or_nothing(a), properties_or_nothing(b))
            == crate::transform::diff::changed_keys(
            properties_or_nothing(b),
            properties_or_nothing(a),
        ),
{
    crate::transform::diff::law_diff_is_symmetric(record_map(a), record_map(b));
    crate::transform::diff::law_diff_is_symmetric(
        properties_or_nothing(a),
        properties_or_nothing(b),
    );
}

/// Where exactly one of two events has event properties, they differ in
/// every property of that event and in nothing else.
pub proof fn law_one_sided_properties(a: ExportEventModel, b: ExportEventModel)
    requires
        a.event_properties is None,
        b.event_properties is Some,
    ensures
        crate::transform::diff::changed_keys(properties_or_nothing(a), properties_or_nothing(b))
            == b.event_properties->0.dom(),
        crate::transform::diff::changed_keys(properties_or_nothing(b), properties_or_nothing(a))
            == b.event_properties->0.dom(),
{
    crate::transform::diff::law_diff_against_nothing(b.event_properties->0);
}

} // verus!
