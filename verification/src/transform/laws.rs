//! What holds of every classification and every resolution.

use crate::export_event::{same_event, ExportEventModel};
use crate::time::option_is_before;
use crate::transform::model::{
    any_event_named, classify, completed_name, compose, earliest_index, findings, is_change_kind,
    last_event_named, merged, pre_order_kept, properties_diverge, property_changed, rekeyed, resolve,
    submitted_name, DupeKind, DupeModel, ResolutionModel,
};
use vstd::prelude::*;

verus! {

/// The two steps of the pre-order flow have different names.
pub proof fn lemma_step_names_differ()
    ensures
        submitted_name() != completed_name(),
{
    reveal_strlit("Property Pre-Order Submitted");
    reveal_strlit("Property Pre-Order Completed");
    assert(submitted_name()[19] == 'S');
    assert(completed_name()[19] == 'C');
}

/// The earliest event is in the group, no event was uploaded before it, and
/// it was uploaded before every event that stands before it.
pub proof fn law_earliest_is_first_minimum(events: Seq<ExportEventModel>)
    requires
        events.len() >= 1,
    ensures
        0 <= earliest_index(events) < events.len(),
        forall|j: int|
            0 <= j < events.len() ==> !option_is_before(
                (#[trigger] events[j]).client_upload_time,
                events[earliest_index(events)].client_upload_time,
            ),
        forall|j: int|
            0 <= j < earliest_index(events) ==> option_is_before(
                events[earliest_index(events)].client_upload_time,
                (#[trigger] events[j]).client_upload_time,
            ),
    decreases events.len(),
{
    if events.len() > 1 {
        let rest = events.drop_last();
        law_earliest_is_first_minimum(rest);
        let best = earliest_index(rest);
        assert(rest[best] == events[best]);
        assert forall|j: int| 0 <= j < events.len() implies !option_is_before(
            (#[trigger] events[j]).client_upload_time,
            events[earliest_index(events)].client_upload_time,
        ) by {
            if j < events.len() - 1 {
                assert(rest[j] == events[j]);
            }
        }
        assert forall|j: int| 0 <= j < earliest_index(events) implies option_is_before(
            events[earliest_index(events)].client_upload_time,
            (#[trigger] events[j]).client_upload_time,
        ) by {
            assert(rest[j] == events[j]);
        }
    }
}

/// Two events that agree in all that is not volatile are a true duplicate,
/// whatever their insert id, and the one that was uploaded first is kept:
/// the first of the two unless the second was uploaded strictly before it.
pub proof fn law_true_duplicate(events: Seq<ExportEventModel>, key_is_uuid: bool)
    requires
        events.len() == 2,
        same_event(events[0], events[1]),
    ensures
        classify(events, key_is_uuid) == DupeModel::Simple(DupeKind::TrueDuplicate, events),
        resolve(classify(events, key_is_uuid)) == ResolutionModel::KeepOne(
            events[earliest_index(events)],
        ),
        earliest_index(events) == (if option_is_before(
            events[1].client_upload_time,
            events[0].client_upload_time,
        ) {
            1int
        } else {
            0int
        }),
{
    lemma_step_names_differ();
    let fired = findings(events, key_is_uuid).fired;
    assert(fired =~= seq![DupeKind::TrueDuplicate]);
    assert(compose(events, fired) == DupeModel::Simple(DupeKind::TrueDuplicate, events));
    let rest = events.drop_last();
    assert(rest.len() == 1);
    assert(earliest_index(rest) == 0);
    assert(events.last() == events[1]);
}

/// A group of more than two events is never looked into and never resolved.
pub proof fn law_too_many(events: Seq<ExportEventModel>, key_is_uuid: bool)
    requires
        events.len() > 2,
    ensures
        classify(events, key_is_uuid) == DupeModel::Simple(DupeKind::TooMany, events),
        resolve(classify(events, key_is_uuid)) == ResolutionModel::Error(
            DupeModel::Simple(DupeKind::TooMany, events),
        ),
{
}

/// On a group of two events at least one rule fires, so a finding is never
/// made up for want of one.
pub proof fn law_some_rule_fires(events: Seq<ExportEventModel>, key_is_uuid: bool)
    ensures
        findings(events, key_is_uuid).fired.len() >= 1,
        findings(events, key_is_uuid).fired.len() <= 5,
{
}

/// Every rule that fired is in the finding: alone if it was the only one,
/// and side by side with the others, in the order of the rules, if not.
pub proof fn law_every_finding_is_kept(events: Seq<ExportEventModel>, key_is_uuid: bool)
    requires
        events.len() == 2,
    ensures
        (match classify(events, key_is_uuid) {
            DupeModel::Simple(kind, group) => group == events && findings(
                events,
                key_is_uuid,
            ).fired == seq![kind],
            DupeModel::Multi(group, parts) => {
                &&& group == events
                &&& parts.len() == findings(events, key_is_uuid).fired.len()
                &&& parts.len() >= 2
                &&& forall|i: int|
                    0 <= i < parts.len() ==> (#[trigger] parts[i]) == DupeModel::Simple(
                        findings(events, key_is_uuid).fired[i],
                        events,
                    )
            },
        }),
{
    law_some_rule_fires(events, key_is_uuid);
    let fired = findings(events, key_is_uuid).fired;
    if fired.len() == 1 {
        assert(fired =~= seq![fired[0]]);
    }
}

/// Only a single finding of a true duplicate, a changed property or a
/// mixed-up pre-order is resolved. Every other finding, and every finding of
/// several rules, is handed on as it is.
pub proof fn law_fail_closed(dupe: DupeModel)
    ensures
        resolve(dupe) is Error <==> !(dupe matches DupeModel::Simple(kind, _) && (kind
            == DupeKind::TrueDuplicate || kind == DupeKind::PreOrderDropCompletedMistake
            || is_change_kind(kind))),
        resolve(dupe) is Error ==> resolve(dupe) == ResolutionModel::Error(dupe),
        resolve(dupe) matches ResolutionModel::KeepMany(kept) ==> dupe matches DupeModel::Simple(
            _,
            events,
        ) && kept == pre_order_kept(events),
{
}

/// The event kept for a changed property has the event properties of the
/// event that was uploaded later and everything else of the event that was
/// uploaded earlier.
pub proof fn law_merge_keeps_earlier_record(events: Seq<ExportEventModel>)
    requires
        events.len() >= 2,
        option_is_before(events[0].client_upload_time, events[1].client_upload_time),
    ensures
        merged(events).event_properties == events[1].event_properties,
        merged(events) == (ExportEventModel {
            event_properties: events[1].event_properties,
            ..events[0]
        }),
{
}

/// A change of the display name is found only under an insert id that is no
/// UUID, and only where both events hold the property "Property" with
/// different values. A property that one event holds under another name is
/// no such change.
pub proof fn law_name_change_needs_both_values(events: Seq<ExportEventModel>, key_is_uuid: bool)
    requires
        findings(events, key_is_uuid).fired.contains(DupeKind::PropertyNameChange),
    ensures
        !key_is_uuid,
        properties_diverge(events),
        property_changed(
            events[0].event_properties->0,
            events[1].event_properties->0,
            "Property"@,
        ),
{
    let fired = findings(events, key_is_uuid).fired;
    let i = choose|i: int| 0 <= i < fired.len() && fired[i] == DupeKind::PropertyNameChange;
    assert(fired[i] == DupeKind::PropertyNameChange);
}

/// A "submitted" and a "completed" event under one insert id are a mixed-up
/// pre-order whatever else they hold, and both are kept: the submitted event
/// as it is, the completed event under an insert id of its own.
pub proof fn law_mixed_up_pre_order(events: Seq<ExportEventModel>, key_is_uuid: bool)
    requires
        events.len() == 2,
        events[0].event_type == Some(submitted_name()),
        events[1].event_type == Some(completed_name()),
        !properties_diverge(events),
        (events[0].event_properties is Some) == (events[1].event_properties is Some),
    ensures
        classify(events, key_is_uuid) == DupeModel::Simple(
            DupeKind::PreOrderDropCompletedMistake,
            events,
        ),
        resolve(classify(events, key_is_uuid)) == ResolutionModel::KeepMany(
            seq![events[0], rekeyed(events[1])],
        ),
{
    lemma_step_names_differ();
    assert(any_event_named(events, submitted_name()));
    assert(any_event_named(events, completed_name()));
    let fired = findings(events, key_is_uuid).fired;
    assert(fired =~= seq![DupeKind::PreOrderDropCompletedMistake]);
    assert(compose(events, fired) == DupeModel::Simple(
        DupeKind::PreOrderDropCompletedMistake,
        events,
    ));
    let rest = events.drop_last();
    assert(events.last() == events[1]);
    assert(rest.len() == 1 && rest.last() == events[0]);
    assert(last_event_named(rest, submitted_name()) == Some(0int));
    assert(last_event_named(events, submitted_name()) == Some(0int));
    assert(last_event_named(events, completed_name()) == Some(1int));
    assert(pre_order_kept(events) =~= seq![events[0], rekeyed(events[1])]);
}

/// Two events with a changed display name and nothing else that a rule
/// looks at, under an insert id that is no UUID, are found to be just that,
/// and the earlier event is kept with the later event's properties.
pub proof fn law_changed_display_name(events: Seq<ExportEventModel>)
    requires
        events.len() == 2,
        !(any_event_named(events, submitted_name()) && any_event_named(
            events,
            completed_name(),
        )),
        properties_diverge(events),
        property_changed(
            events[0].event_properties->0,
            events[1].event_properties->0,
            "Property"@,
        ),
        !property_changed(
            events[0].event_properties->0,
            events[1].event_properties->0,
            "Drop Type"@,
        ),
        !property_changed(
            events[0].event_properties->0,
            events[1].event_properties->0,
            "Price per Share"@,
        ),
    ensures
        classify(events, false) == DupeModel::Simple(DupeKind::PropertyNameChange, events),
        resolve(classify(events, false)) == ResolutionModel::KeepOne(merged(events)),
{
    let fired = findings(events, false).fired;
    assert(fired =~= seq![DupeKind::PropertyNameChange]);
    assert(compose(events, fired) == DupeModel::Simple(DupeKind::PropertyNameChange, events));
}

/// The rules look at the two events of a group in the same way: which of
/// them stands first makes no difference to what is found. Only the
/// resolution tells the earlier event from the later, and it goes by the
/// upload times.
pub proof fn law_findings_ignore_order(a: ExportEventModel, b: ExportEventModel, key_is_uuid: bool)
    ensures
        findings(seq![a, b], key_is_uuid) == findings(seq![b, a], key_is_uuid),
{
    let forward = seq![a, b];
    let backward = seq![b, a];
    assert forall|name: Seq<char>| any_event_named(forward, name) == any_event_named(
        backward,
        name,
    ) by {
        if any_event_named(forward, name) {
            let i = choose|i: int|
                0 <= i < forward.len() && (#[trigger] forward[i]).event_type == Some(name);
            assert(backward[1 - i].event_type == Some(name));
        }
        if any_event_named(backward, name) {
            let i = choose|i: int|
                0 <= i < backward.len() && (#[trigger] backward[i]).event_type == Some(name);
            assert(forward[1 - i].event_type == Some(name));
        }
    }
    assert(findings(forward, key_is_uuid).fired =~= findings(backward, key_is_uuid).fired);
}

} // verus!
