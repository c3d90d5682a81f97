//! Why the events of a duplicate group differ, and what is kept of the group.

use crate::export_event::{clone_events, events_view, same_event, ExportEvent, ExportEventModel};
use crate::fields::{copy_object_field, text_is};
use crate::insert_id::{is_uuid, parses_as_uuid};
use crate::json::{find_key, json_eq, lemma_index_of_key, object_eq, object_model, JsonModel, JsonValue};
use crate::text::{replace_all, replaced};
use crate::time::{option_before, option_is_before};
use vstd::prelude::*;

verus! {

/// The ways in which the events of a group can be found to differ, one for
/// each rule.
#[derive(Clone, Copy, Debug, PartialEq, Eq, Structural)]
pub enum DupeKind {
    /// A "submitted" and a "completed" step of one flow were sent under one
    /// insert id.
    PreOrderDropCompletedMistake,
    /// The property's display name was changed.
    PropertyNameChange,
    /// The price per share was changed.
    PropertyDropPriceChange,
    /// The kind of drop was changed.
    DropTypeChange,
    /// The events agree in all that is not volatile.
    TrueDuplicate,
    /// The events differ in a way that no rule explains.
    UnknownPropDiff,
    /// Nothing can be said of the group.
    Unknown,
    /// The group has more than two events.
    TooMany,
    /// One event has event properties and the other has none.
    EventPropsIncompatible,
}

/// A duplicate group together with the finding on it.
#[derive(Debug)]
pub enum Dupe {
    PreOrderDropCompletedMistake(Vec<ExportEvent>),
    PropertyNameChange(Vec<ExportEvent>),
    PropertyDropPriceChange(Vec<ExportEvent>),
    DropTypeChange(Vec<ExportEvent>),
    TrueDuplicate(Vec<ExportEvent>),
    UnknownPropDiff(Vec<ExportEvent>),
    Unknown(Vec<ExportEvent>),
    TooMany(Vec<ExportEvent>),
    /// Several rules fired: the group, and one finding for each rule, in the
    /// order in which the rules are tried.
    Multi(Vec<ExportEvent>, Vec<Dupe>),
    EventPropsIncompatible(Vec<ExportEvent>),
}

/// What is kept of a duplicate group.
#[derive(Debug)]
pub enum DupeResolution {
    /// One event stands for the group.
    KeepOne(ExportEvent),
    /// These events are kept, each under an insert id of its own.
    KeepMany(Vec<ExportEvent>),
    /// Nothing is decided: the finding is handed on for a person to look at.
    Error(Dupe),
}

/// A finding, apart from how it is stored.
pub enum DupeModel {
    Simple(DupeKind, Seq<ExportEventModel>),
    Multi(Seq<ExportEventModel>, Seq<DupeModel>),
}

/// What is kept of a group, apart from how it is stored.
pub enum ResolutionModel {
    KeepOne(ExportEventModel),
    KeepMany(Seq<ExportEventModel>),
    Error(DupeModel),
}

/// The models of a list of findings, in order.
pub open spec fn dupes_model(parts: Seq<Dupe>) -> Seq<DupeModel>
    decreases parts,
{
    if parts.len() == 0 {
        Seq::empty()
    } else {
        dupes_model(parts.drop_last()).push(parts.last().model())
    }
}

impl Dupe {
    /// The finding, apart from how it is stored.
    pub open spec fn model(self) -> DupeModel
        decreases self,
    {
        match self {
            Dupe::PreOrderDropCompletedMistake(events) => DupeModel::Simple(
                DupeKind::PreOrderDropCompletedMistake,
                events_view(events@),
            ),
            Dupe::PropertyNameChange(events) => DupeModel::Simple(
                DupeKind::PropertyNameChange,
                events_view(events@),
            ),
            Dupe::PropertyDropPriceChange(events) => DupeModel::Simple(
                DupeKind::PropertyDropPriceChange,
                events_view(events@),
            ),
            Dupe::DropTypeChange(events) => DupeModel::Simple(
                DupeKind::DropTypeChange,
                events_view(events@),
            ),
            Dupe::TrueDuplicate(events) => DupeModel::Simple(
                DupeKind::TrueDuplicate,
                events_view(events@),
            ),
            Dupe::UnknownPropDiff(events) => DupeModel::Simple(
                DupeKind::UnknownPropDiff,
                events_view(events@),
            ),
            Dupe::Unknown(events) => DupeModel::Simple(DupeKind::Unknown, events_view(events@)),
            Dupe::TooMany(events) => DupeModel::Simple(DupeKind::TooMany, events_view(events@)),
            Dupe::Multi(events, parts) => DupeModel::Multi(
                events_view(events@),
                dupes_model(parts@),
            ),
            Dupe::EventPropsIncompatible(events) => DupeModel::Simple(
                DupeKind::EventPropsIncompatible,
                events_view(events@),
            ),
        }
    }
}

impl DupeResolution {
    /// What is kept, apart from how it is stored.
    pub open spec fn model(self) -> ResolutionModel {
        match self {
            DupeResolution::KeepOne(event) => ResolutionModel::KeepOne(event@),
            DupeResolution::KeepMany(events) => ResolutionModel::KeepMany(events_view(events@)),
            DupeResolution::Error(dupe) => ResolutionModel::Error(dupe.model()),
        }
    }
}

/// `dupes_model` keeps the length and maps each finding to its model.
pub proof fn lemma_dupes_model(parts: Seq<Dupe>)
    ensures
        dupes_model(parts).len() == parts.len(),
        forall|i: int| 0 <= i < parts.len() ==> (#[trigger] dupes_model(parts)[i]) == parts[i].model(),
    decreases parts.len(),
{
    if parts.len() > 0 {
        lemma_dupes_model(parts.drop_last());
        assert forall|i: int| 0 <= i < parts.len() implies (#[trigger] dupes_model(parts)[i])
            == parts[i].model() by {
            if i < parts.len() - 1 {
                assert(parts.drop_last()[i] == parts[i]);
            }
        }
    }
}

// ---------------------------------------------------------------------
// Classification
// ---------------------------------------------------------------------
/// The name of the first step of the pre-order flow.
pub open spec fn submitted_name() -> Seq<char> {
    "Property Pre-Order Submitted"@
}

/// The name of the second step of the pre-order flow.
pub open spec fn completed_name() -> Seq<char> {
    "Property Pre-Order Completed"@
}

/// Some event of the list has the given name.
pub open spec fn any_event_named(events: Seq<ExportEventModel>, name: Seq<char>) -> bool {
    exists|i: int| 0 <= i < events.len() && (#[trigger] events[i]).event_type == Some(name)
}

/// Both maps hold the property, with different values.
pub open spec fn property_changed(
    a: Map<Seq<char>, JsonModel>,
    b: Map<Seq<char>, JsonModel>,
    key: Seq<char>,
) -> bool {
    a.dom().contains(key) && b.dom().contains(key) && a[key] != b[key]
}

/// What the rules have found so far: the findings in the order in which they
/// were made, and whether one of them has ruled the fallback out.
pub struct Findings {
    pub fired: Seq<DupeKind>,
    pub suppress_fallback: bool,
}

/// Nothing found yet.
pub open spec fn no_findings() -> Findings {
    Findings { fired: Seq::empty(), suppress_fallback: false }
}

/// One more finding.
pub open spec fn fire(found: Findings, kind: DupeKind, suppress: bool) -> Findings {
    Findings {
        fired: found.fired.push(kind),
        suppress_fallback: found.suppress_fallback || suppress,
    }
}

/// First rule: a "submitted" and a "completed" event share the insert id.
/// These are two events, not one sent twice, so the fallback is ruled out.
pub open spec fn mixed_event_type_rule(events: Seq<ExportEventModel>, found: Findings) -> Findings {
    if any_event_named(events, submitted_name()) && any_event_named(events, completed_name()) {
        fire(found, DupeKind::PreOrderDropCompletedMistake, true)
    } else {
        found
    }
}

/// The event properties of the first two events are both there and differ.
pub open spec fn properties_diverge(events: Seq<ExportEventModel>) -> bool {
    events[0].event_properties is Some && events[1].event_properties is Some
        && events[0].event_properties != events[1].event_properties
}

/// Second rule, for two events that both have event properties, which
/// differ. Under an insert id made by a client (a UUID) nothing explains the
/// difference. Under one made by a server the display name, the kind of drop
/// and the price per share are looked at, each by itself; each that changed
/// is a finding and rules the fallback out. A property has changed where
/// both events hold it, with different values; the two events are looked at
/// in the same way, so that their order makes no difference.
pub open spec fn property_divergence_rules(
    events: Seq<ExportEventModel>,
    key_is_uuid: bool,
    found: Findings,
) -> Findings {
    if !properties_diverge(events) {
        found
    } else if key_is_uuid {
        fire(found, DupeKind::Unknown, false)
    } else {
        let a = events[0].event_properties->0;
        let b = events[1].event_properties->0;
        let first = if property_changed(a, b, "Property"@) {
            fire(found, DupeKind::PropertyNameChange, true)
        } else {
            found
        };
        let second = if property_changed(a, b, "Drop Type"@) {
            fire(first, DupeKind::DropTypeChange, true)
        } else {
            first
        };
        if property_changed(a, b, "Price per Share"@) {
            fire(second, DupeKind::PropertyDropPriceChange, true)
        } else {
            second
        }
    }
}

/// Third rule: exactly one of the two events has event properties.
pub open spec fn schema_incompatibility_rule(
    events: Seq<ExportEventModel>,
    found: Findings,
) -> Findings {
    if (events[0].event_properties is Some) != (events[1].event_properties is Some) {
        fire(found, DupeKind::EventPropsIncompatible, false)
    } else {
        found
    }
}

/// Last rule, unless it was ruled out: the two events are one event sent
/// twice if they agree in all that is not volatile, and differ unexplained
/// otherwise.
pub open spec fn fallback_rule(events: Seq<ExportEventModel>, found: Findings) -> Findings {
    if found.suppress_fallback {
        found
    } else if same_event(events[0], events[1]) {
        fire(found, DupeKind::TrueDuplicate, false)
    } else {
        fire(found, DupeKind::UnknownPropDiff, false)
    }
}

/// All the rules, in their order, on a group of two events.
pub open spec fn findings(events: Seq<ExportEventModel>, key_is_uuid: bool) -> Findings {
    fallback_rule(
        events,
        schema_incompatibility_rule(
            events,
            property_divergence_rules(
                events,
                key_is_uuid,
                mixed_event_type_rule(events, no_findings()),
            ),
        ),
    )
}

/// The finding on a group, made of what the rules found: the one finding if
/// there is one, all of them side by side if there are several.
pub open spec fn compose(events: Seq<ExportEventModel>, fired: Seq<DupeKind>) -> DupeModel {
    if fired.len() == 0 {
        DupeModel::Simple(DupeKind::Unknown, events)
    } else if fired.len() == 1 {
        DupeModel::Simple(fired[0], events)
    } else {
        DupeModel::Multi(events, fired.map_values(|kind: DupeKind| DupeModel::Simple(kind, events)))
    }
}

/// The finding on a duplicate group, given whether its insert id is a UUID.
/// A group of more than two events is not looked into.
pub open spec fn classify(events: Seq<ExportEventModel>, key_is_uuid: bool) -> DupeModel {
    if events.len() > 2 {
        DupeModel::Simple(DupeKind::TooMany, events)
    } else {
        compose(events, findings(events, key_is_uuid).fired)
    }
}

/// The insert id of an event as text; empty where the event has none.
pub open spec fn key_text(event: ExportEventModel) -> Seq<char> {
    match event.insert_id {
        Some(key) => key,
        None => Seq::empty(),
    }
}

/// Whether some event of the list has the given name.
pub fn any_named(events: &Vec<ExportEvent>, name: &str) -> (found: bool)
    ensures
        found == any_event_named(events_view(events@), name@),
{
    let mut i: usize = 0;
    while i < events.len()
        invariant
            i <= events.len(),
            forall|j: int| 0 <= j < i ==> (#[trigger] events@[j])@.event_type != Some(name@),
        decreases events.len() - i,
    {
        if text_is(&events[i].event_type, name) {
            assert(events_view(events@)[i as int].event_type == Some(name@));
            return true;
        }
        i += 1;
    }
    assert forall|j: int| 0 <= j < events_view(events@).len() implies (#[trigger] events_view(
        events@,
    )[j]).event_type != Some(name@) by {
        assert(events_view(events@)[j] == events@[j]@);
    }
    false
}

/// Whether both lists of members hold the property, with different values.
pub fn property_differs(
    a: &Vec<(String, JsonValue)>,
    b: &Vec<(String, JsonValue)>,
    key: &str,
) -> (changed: bool)
    ensures
        changed == property_changed(object_model(a@), object_model(b@), key@),
{
    let name = key.to_owned();
    proof {
        lemma_index_of_key(a@, key@);
        lemma_index_of_key(b@, key@);
    }
    match (find_key(a, &name), find_key(b, &name)) {
        (Some(i), Some(j)) => !json_eq(&a[i].1, &b[j].1),
        _ => false,
    }
}

/// The finding of one rule on a group.
pub fn simple_dupe(kind: DupeKind, events: Vec<ExportEvent>) -> (dupe: Dupe)
    ensures
        dupe.model() == DupeModel::Simple(kind, events_view(events@)),
{
    match kind {
        DupeKind::PreOrderDropCompletedMistake => Dupe::PreOrderDropCompletedMistake(events),
        DupeKind::PropertyNameChange => Dupe::PropertyNameChange(events),
        DupeKind::PropertyDropPriceChange => Dupe::PropertyDropPriceChange(events),
        DupeKind::DropTypeChange => Dupe::DropTypeChange(events),
        DupeKind::TrueDuplicate => Dupe::TrueDuplicate(events),
        DupeKind::UnknownPropDiff => Dupe::UnknownPropDiff(events),
        DupeKind::Unknown => Dupe::Unknown(events),
        DupeKind::TooMany => Dupe::TooMany(events),
        DupeKind::EventPropsIncompatible => Dupe::EventPropsIncompatible(events),
    }
}

/// The finding on a group, made of what the rules found.
pub fn compose_dupe(events: &Vec<ExportEvent>, fired: &Vec<DupeKind>) -> (dupe: Dupe)
    ensures
        dupe.model() == compose(events_view(events@), fired@),
{
    if fired.len() == 0 {
        Dupe::Unknown(clone_events(events))
    } else if fired.len() == 1 {
        simple_dupe(fired[0], clone_events(events))
    } else {
        let ghost group = events_view(events@);
        let ghost wanted = fired@.map_values(|kind: DupeKind| DupeModel::Simple(kind, group));
        let mut parts: Vec<Dupe> = Vec::new();
        let mut i: usize = 0;
        while i < fired.len()
            invariant
                i <= fired.len(),
                parts@.len() == i,
                group == events_view(events@),
                forall|j: int|
                    0 <= j < i ==> (#[trigger] parts@[j]).model() == DupeModel::Simple(
                        fired@[j],
                        group,
                    ),
            decreases fired.len() - i,
        {
            let part = simple_dupe(fired[i], clone_events(events));
            parts.push(part);
            i += 1;
        }
        proof {
            lemma_dupes_model(parts@);
            assert(dupes_model(parts@) =~= wanted);
        }
        Dupe::Multi(clone_events(events), parts)
    }
}

/// The finding on a duplicate group, given whether its insert id is a UUID.
pub fn classify_with(events: &Vec<ExportEvent>, key_is_uuid: bool) -> (dupe: Dupe)
    requires
        events.len() >= 2,
    ensures
        dupe.model() == classify(events_view(events@), key_is_uuid),
{
    if events.len() > 2 {
        return Dupe::TooMany(clone_events(events));
    }
    let ghost group = events_view(events@);
    assert(group[0] == events@[0]@ && group[1] == events@[1]@);
    let mut fired: Vec<DupeKind> = Vec::new();
    let mut suppress = false;

    if any_named(events, "Property Pre-Order Submitted") && any_named(
        events,
        "Property Pre-Order Completed",
    ) {
        fired.push(DupeKind::PreOrderDropCompletedMistake);
        suppress = true;
    }
    let ghost after_first = mixed_event_type_rule(group, no_findings());
    assert(fired@ =~= after_first.fired && suppress == after_first.suppress_fallback);

    let first = &events[0];
    let second = &events[1];
    match (&first.event_properties, &second.event_properties) {
        (Some(a), Some(b)) => {
            if !object_eq(a, b) {
                if key_is_uuid {
                    fired.push(DupeKind::Unknown);
                } else {
                    if property_differs(a, b, "Property") {
                        fired.push(DupeKind::PropertyNameChange);
                        suppress = true;
                    }
                    if property_differs(a, b, "Drop Type") {
                        fired.push(DupeKind::DropTypeChange);
                        suppress = true;
                    }
                    if property_differs(a, b, "Price per Share") {
                        fired.push(DupeKind::PropertyDropPriceChange);
                        suppress = true;
                    }
                }
            }
        },
        (None, Some(_)) => {
            fired.push(DupeKind::EventPropsIncompatible);
        },
        (Some(_), None) => {
            fired.push(DupeKind::EventPropsIncompatible);
        },
        (None, None) => {},
    }
    let ghost after_third = schema_incompatibility_rule(
        group,
        property_divergence_rules(group, key_is_uuid, after_first),
    );
    assert(fired@ =~= after_third.fired && suppress == after_third.suppress_fallback);

    if !suppress {
        if first.is_same_event(second) {
            fired.push(DupeKind::TrueDuplicate);
        } else {
            fired.push(DupeKind::UnknownPropDiff);
        }
    }
    assert(fired@ =~= findings(group, key_is_uuid).fired);
    compose_dupe(events, &fired)
}

/// The insert id has a say in the finding: the group has two events, both
/// with event properties, which differ.
pub open spec fn key_is_consulted(events: Seq<ExportEventModel>) -> bool {
    events.len() == 2 && properties_diverge(events)
}

impl Dupe {
    /// The finding on a duplicate group.
    ///
    /// A group has at least two events, and where the insert id has a say in
    /// the finding the first event has one.
    pub fn from_events(events: &Vec<ExportEvent>) -> (dupe: Dupe)
        requires
            events.len() >= 2,
            key_is_consulted(events_view(events@)) ==> events@[0]@.insert_id is Some,
        ensures
            dupe.model() == classify(
                events_view(events@),
                parses_as_uuid(key_text(events@[0]@)),
            ),
    {
        let ghost group = events_view(events@);
        assert(group[0] == events@[0]@);
        let key_is_uuid = match &events[0].insert_id {
            Some(key) => is_uuid(key.as_str()),
            None => {
                proof {
                    reveal_strlit("");
                }
                assert(""@ =~= Seq::<char>::empty());
                is_uuid("")
            },
        };
        classify_with(events, key_is_uuid)
    }
}

// ---------------------------------------------------------------------
// Resolution
// ---------------------------------------------------------------------
/// The place of the last event with the given name, if there is one.
pub open spec fn last_event_named(events: Seq<ExportEventModel>, name: Seq<char>) -> Option<int>
    decreases events.len(),
{
    if events.len() == 0 {
        None
    } else if events.last().event_type == Some(name) {
        Some(events.len() - 1)
    } else {
        last_event_named(events.drop_last(), name)
    }
}

/// The event under the insert id it gets as the "completed" step: each
/// "Submitted" in the id becomes "Completed". An event without an insert id
/// stays as it is.
pub open spec fn rekeyed(event: ExportEventModel) -> ExportEventModel {
    ExportEventModel {
        insert_id: match event.insert_id {
            Some(key) => Some(replaced(key, "Submitted"@, "Completed"@)),
            None => None,
        },
        ..event
    }
}

/// What is kept of a "submitted" and a "completed" event under one insert
/// id: the submitted event as it is, then the completed event under its new
/// insert id. Where several events have one of the names, the last counts.
pub open spec fn pre_order_kept(events: Seq<ExportEventModel>) -> Seq<ExportEventModel> {
    let submitted: Seq<ExportEventModel> = match last_event_named(events, submitted_name()) {
        Some(i) => seq![events[i]],
        None => Seq::empty(),
    };
    let completed: Seq<ExportEventModel> = match last_event_named(events, completed_name()) {
        Some(i) => seq![rekeyed(events[i])],
        None => Seq::empty(),
    };
    submitted + completed
}

/// The first two events as one: the event that was uploaded earlier, with
/// the event properties of the other. The first event is the earlier one
/// only if its upload time is strictly before the second's.
pub open spec fn merged(events: Seq<ExportEventModel>) -> ExportEventModel {
    if option_is_before(events[0].client_upload_time, events[1].client_upload_time) {
        ExportEventModel { event_properties: events[1].event_properties, ..events[0] }
    } else {
        ExportEventModel { event_properties: events[0].event_properties, ..events[1] }
    }
}

/// The place of the event that was uploaded first; of several that were
/// uploaded at the same time, the one that stands first.
pub open spec fn earliest_index(events: Seq<ExportEventModel>) -> int
    decreases events.len(),
{
    if events.len() <= 1 {
        0
    } else {
        let best = earliest_index(events.drop_last());
        if option_is_before(
            events.last().client_upload_time,
            events[best].client_upload_time,
        ) {
            events.len() - 1
        } else {
            best
        }
    }
}

/// The kinds of finding that are settled by keeping one merged event.
pub open spec fn is_change_kind(kind: DupeKind) -> bool {
    kind == DupeKind::PropertyNameChange || kind == DupeKind::DropTypeChange || kind
        == DupeKind::PropertyDropPriceChange
}

/// The finding holds the events that its resolution reads: two for a change
/// of a property, one for a true duplicate.
pub open spec fn resolvable(dupe: DupeModel) -> bool {
    match dupe {
        DupeModel::Simple(kind, events) => {
            &&& is_change_kind(kind) ==> events.len() >= 2
            &&& kind == DupeKind::TrueDuplicate ==> events.len() >= 1
        },
        DupeModel::Multi(_, _) => true,
    }
}

/// What is kept of a group with the given finding.
pub open spec fn resolve(dupe: DupeModel) -> ResolutionModel {
    match dupe {
        DupeModel::Simple(kind, events) => {
            if kind == DupeKind::PreOrderDropCompletedMistake {
                ResolutionModel::KeepMany(pre_order_kept(events))
            } else if is_change_kind(kind) {
                ResolutionModel::KeepOne(merged(events))
            } else if kind == DupeKind::TrueDuplicate {
                ResolutionModel::KeepOne(events[earliest_index(events)])
            } else {
                ResolutionModel::Error(dupe)
            }
        },
        DupeModel::Multi(_, _) => ResolutionModel::Error(dupe),
    }
}

/// The name of a kind of finding.
pub open spec fn kind_name(kind: DupeKind) -> Seq<char> {
    match kind {
        DupeKind::PreOrderDropCompletedMistake => "PreOrderDropCompletedMistake"@,
        DupeKind::PropertyNameChange => "PropertyNameChange"@,
        DupeKind::PropertyDropPriceChange => "PropertyDropPriceChange"@,
        DupeKind::DropTypeChange => "DropTypeChange"@,
        DupeKind::TrueDuplicate => "TrueDuplicate"@,
        DupeKind::UnknownPropDiff => "UnknownPropDiff"@,
        DupeKind::Unknown => "Unknown"@,
        DupeKind::TooMany => "TooMany"@,
        DupeKind::EventPropsIncompatible => "EventPropsIncompatible"@,
    }
}

/// The name under which a finding is filed.
pub open spec fn tag_name(dupe: DupeModel) -> Seq<char> {
    match dupe {
        DupeModel::Simple(kind, _) => kind_name(kind),
        DupeModel::Multi(_, _) => "Multi"@,
    }
}

/// The view of an optional place in a list.
pub open spec fn place_view(place: Option<usize>) -> Option<int> {
    match place {
        Some(i) => Some(i as int),
        None => None,
    }
}

/// The place of the last event with the given name.
pub fn find_last_named(events: &Vec<ExportEvent>, name: &str) -> (place: Option<usize>)
    ensures
        place_view(place) == last_event_named(events_view(events@), name@),
        place matches Some(i) ==> i < events.len(),
{
    let ghost group = events_view(events@);
    let mut place: Option<usize> = None;
    let mut i: usize = 0;
    assert(group.take(0) =~= Seq::<ExportEventModel>::empty());
    while i < events.len()
        invariant
            i <= events.len(),
            group == events_view(events@),
            place_view(place) == last_event_named(group.take(i as int), name@),
            place matches Some(p) ==> p < i,
        decreases events.len() - i,
    {
        assert(group.take(i + 1).drop_last() =~= group.take(i as int));
        assert(group.take(i + 1).last() == events@[i as int]@);
        if text_is(&events[i].event_type, name) {
            place = Some(i);
        }
        i += 1;
    }
    assert(group.take(events.len() as int) =~= group);
    place
}

/// The event under the insert id it gets as the "completed" step.
pub fn rekey(event: &ExportEvent) -> (renamed: ExportEvent)
    ensures
        renamed@ == rekeyed(event@),
{
    let mut renamed = event.clone();
    match &event.insert_id {
        Some(key) => {
            proof {
                reveal_strlit("Submitted");
            }
            let new_key = replace_all(key.as_str(), "Submitted", "Completed");
            renamed.insert_id = Some(new_key);
        },
        None => {},
    }
    renamed
}

/// What is kept of a "submitted" and a "completed" event under one insert
/// id.
pub fn keep_both_steps(events: &Vec<ExportEvent>) -> (kept: Vec<ExportEvent>)
    ensures
        events_view(kept@) == pre_order_kept(events_view(events@)),
{
    let ghost group = events_view(events@);
    let mut kept: Vec<ExportEvent> = Vec::new();
    match find_last_named(events, "Property Pre-Order Submitted") {
        Some(i) => {
            assert(group[i as int] == events@[i as int]@);
            kept.push(events[i].clone());
        },
        None => {},
    }
    match find_last_named(events, "Property Pre-Order Completed") {
        Some(i) => {
            assert(group[i as int] == events@[i as int]@);
            kept.push(rekey(&events[i]));
        },
        None => {},
    }
    assert(events_view(kept@) =~= pre_order_kept(group));
    kept
}

/// The first two events as one.
pub fn merge_pair(events: &Vec<ExportEvent>) -> (one: ExportEvent)
    requires
        events.len() >= 2,
    ensures
        one@ == merged(events_view(events@)),
{
    let ghost group = events_view(events@);
    assert(group[0] == events@[0]@ && group[1] == events@[1]@);
    if option_before(&events[0].client_upload_time, &events[1].client_upload_time) {
        let mut one = events[0].clone();
        one.event_properties = copy_object_field(&events[1].event_properties);
        one
    } else {
        let mut one = events[1].clone();
        one.event_properties = copy_object_field(&events[0].event_properties);
        one
    }
}

/// The place of the event that was uploaded first.
pub fn find_earliest(events: &Vec<ExportEvent>) -> (place: usize)
    requires
        events.len() >= 1,
    ensures
        place == earliest_index(events_view(events@)),
        place < events.len(),
{
    let ghost group = events_view(events@);
    let mut best: usize = 0;
    let mut i: usize = 1;
    assert(group.take(1).len() == 1);
    while i < events.len()
        invariant
            1 <= i <= events.len(),
            best < i,
            group == events_view(events@),
            best == earliest_index(group.take(i as int)),
        decreases events.len() - i,
    {
        assert(group.take(i + 1).drop_last() =~= group.take(i as int));
        assert(group.take(i + 1).last() == events@[i as int]@);
        assert(group.take(i + 1)[best as int] == events@[best as int]@);
        if option_before(&events[i].client_upload_time, &events[best].client_upload_time) {
            best = i;
        }
        i += 1;
    }
    assert(group.take(events.len() as int) =~= group);
    best
}

impl DupeKind {
    /// The name of the kind.
    pub fn name(&self) -> (name: String)
        ensures
            name@ == kind_name(*self),
    {
        match self {
            DupeKind::PreOrderDropCompletedMistake => "PreOrderDropCompletedMistake".to_owned(),
            DupeKind::PropertyNameChange => "PropertyNameChange".to_owned(),
            DupeKind::PropertyDropPriceChange => "PropertyDropPriceChange".to_owned(),
            DupeKind::DropTypeChange => "DropTypeChange".to_owned(),
            DupeKind::TrueDuplicate => "TrueDuplicate".to_owned(),
            DupeKind::UnknownPropDiff => "UnknownPropDiff".to_owned(),
            DupeKind::Unknown => "Unknown".to_owned(),
            DupeKind::TooMany => "TooMany".to_owned(),
            DupeKind::EventPropsIncompatible => "EventPropsIncompatible".to_owned(),
        }
    }
}

impl Dupe {
    /// What is kept of the group.
    ///
    /// A true duplicate is settled by its earliest event, a changed property
    /// by the earlier event with the later event's properties, a mixed-up
    /// pre-order by both events under insert ids of their own. Every other
    /// finding is handed on unresolved.
    pub fn resolution(self) -> (kept: DupeResolution)
        requires
            resolvable(self.model()),
        ensures
            kept.model() == resolve(self.model()),
    {
        match &self {
            Dupe::PreOrderDropCompletedMistake(items) => {
                return DupeResolution::KeepMany(keep_both_steps(items));
            },
            Dupe::DropTypeChange(items) => {
                return DupeResolution::KeepOne(merge_pair(items));
            },
            Dupe::PropertyNameChange(items) => {
                return DupeResolution::KeepOne(merge_pair(items));
            },
            Dupe::PropertyDropPriceChange(items) => {
                return DupeResolution::KeepOne(merge_pair(items));
            },
            Dupe::TrueDuplicate(items) => {
                let place = find_earliest(items);
                assert(events_view(items@)[place as int] == items@[place as int]@);
                return DupeResolution::KeepOne(items[place].clone());
            },
            _ => {},
        }
        DupeResolution::Error(self)
    }

    /// The name under which the finding is filed.
    pub fn to_str(&self) -> (name: String)
        ensures
            name@ == tag_name(self.model()),
    {
        match self {
            Dupe::PreOrderDropCompletedMistake(_) => "PreOrderDropCompletedMistake".to_owned(),
            Dupe::PropertyNameChange(_) => "PropertyNameChange".to_owned(),
            Dupe::DropTypeChange(_) => "DropTypeChange".to_owned(),
            Dupe::PropertyDropPriceChange(_) => "PropertyDropPriceChange".to_owned(),
            Dupe::TrueDuplicate(_) => "TrueDuplicate".to_owned(),
            Dupe::Unknown(_) => "Unknown".to_owned(),
            Dupe::TooMany(_) => "TooMany".to_owned(),
            Dupe::Multi(_, _) => "Multi".to_owned(),
            Dupe::EventPropsIncompatible(_) => "EventPropsIncompatible".to_owned(),
            Dupe::UnknownPropDiff(_) => "UnknownPropDiff".to_owned(),
        }
    }
}

/// A copy of a list of findings.
pub fn copy_dupes(parts: &Vec<Dupe>) -> (copy: Vec<Dupe>)
    ensures
        dupes_model(copy@) == dupes_model(parts@),
    decreases parts,
{
    let mut out: Vec<Dupe> = Vec::new();
    let mut i: usize = 0;
    while i < parts.len()
        invariant
            i <= parts.len(),
            out@.len() == i,
            forall|j: int| 0 <= j < i ==> (#[trigger] out@[j]).model() == parts@[j].model(),
        decreases parts.len() - i,
    {
        let part = copy_dupe(&parts[i]);
        out.push(part);
        i += 1;
    }
    proof {
        lemma_dupes_model(parts@);
        lemma_dupes_model(out@);
        assert(dupes_model(out@) =~= dupes_model(parts@));
    }
    out
}

/// A copy of a finding.
pub fn copy_dupe(dupe: &Dupe) -> (copy: Dupe)
    ensures
        copy.model() == dupe.model(),
    decreases dupe,
{
    match dupe {
        Dupe::PreOrderDropCompletedMistake(events) => Dupe::PreOrderDropCompletedMistake(
            clone_events(events),
        ),
        Dupe::PropertyNameChange(events) => Dupe::PropertyNameChange(clone_events(events)),
        Dupe::PropertyDropPriceChange(events) => Dupe::PropertyDropPriceChange(
            clone_events(events),
        ),
        Dupe::DropTypeChange(events) => Dupe::DropTypeChange(clone_events(events)),
        Dupe::TrueDuplicate(events) => Dupe::TrueDuplicate(clone_events(events)),
        Dupe::UnknownPropDiff(events) => Dupe::UnknownPropDiff(clone_events(events)),
        Dupe::Unknown(events) => Dupe::Unknown(clone_events(events)),
        Dupe::TooMany(events) => Dupe::TooMany(clone_events(events)),
        Dupe::Multi(events, parts) => Dupe::Multi(clone_events(events), copy_dupes(parts)),
        Dupe::EventPropsIncompatible(events) => Dupe::EventPropsIncompatible(
            clone_events(events),
        ),
    }
}

impl Clone for Dupe {
    fn clone(&self) -> (copy: Self)
        ensures
            copy.model() == self.model(),
    {
        copy_dupe(self)
    }
}

impl Clone for DupeResolution {
    fn clone(&self) -> (copy: Self)
        ensures
            copy.model() == self.model(),
    {
        match self {
            DupeResolution::KeepOne(event) => DupeResolution::KeepOne(event.clone()),
            DupeResolution::KeepMany(events) => DupeResolution::KeepMany(clone_events(events)),
            DupeResolution::Error(dupe) => DupeResolution::Error(copy_dupe(dupe)),
        }
    }
}

/// The finding on a group of at least two events holds the events that its
/// resolution reads.
pub proof fn lemma_classified_is_resolvable(events: Seq<ExportEventModel>, key_is_uuid: bool)
    requires
        events.len() >= 2,
    ensures
        resolvable(classify(events, key_is_uuid)),
{
}

/// The names of the findings that stand side by side in a finding of
/// several rules; none for a finding of one rule.
pub open spec fn part_names(dupe: DupeModel) -> Seq<Seq<char>> {
    match dupe {
        DupeModel::Simple(_, _) => Seq::empty(),
        DupeModel::Multi(_, parts) => parts.map_values(|part: DupeModel| tag_name(part)),
    }
}

impl Dupe {
    /// The events of the group on which the finding was made.
    pub fn events(&self) -> (events: &Vec<ExportEvent>)
        ensures
            events_view(events@) == group_of(self.model()),
    {
        match self {
            Dupe::PreOrderDropCompletedMistake(events) => events,
            Dupe::PropertyNameChange(events) => events,
            Dupe::PropertyDropPriceChange(events) => events,
            Dupe::DropTypeChange(events) => events,
            Dupe::TrueDuplicate(events) => events,
            Dupe::UnknownPropDiff(events) => events,
            Dupe::Unknown(events) => events,
            Dupe::TooMany(events) => events,
            Dupe::Multi(events, _) => events,
            Dupe::EventPropsIncompatible(events) => events,
        }
    }

    /// The names of the findings that stand side by side in a finding of
    /// several rules; none for a finding of one rule.
    pub fn part_names(&self) -> (names: Vec<String>)
        ensures
            names@.map_values(|name: String| name@) == part_names(self.model()),
    {
        let mut names: Vec<String> = Vec::new();
        match self {
            Dupe::Multi(_, parts) => {
                let mut i: usize = 0;
                proof {
                    lemma_dupes_model(parts@);
                }
                while i < parts.len()
                    invariant
                        i <= parts.len(),
                        names@.len() == i,
                        forall|j: int|
                            0 <= j < i ==> (#[trigger] names@[j])@ == tag_name(parts@[j].model()),
                    decreases parts.len() - i,
                {
                    names.push(parts[i].to_str());
                    i += 1;
                }
                assert(names@.map_values(|name: String| name@) =~= part_names(self.model()));
            },
            _ => {
                assert(names@.map_values(|name: String| name@) =~= part_names(self.model()));
            },
        }
        names
    }
}

/// The group on which a finding was made.
pub open spec fn group_of(dupe: DupeModel) -> Seq<ExportEventModel> {
    match dupe {
        DupeModel::Simple(_, events) => events,
        DupeModel::Multi(events, _) => events,
    }
}

} // verus!
