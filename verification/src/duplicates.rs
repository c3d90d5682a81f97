//! The insert ids that an export has more than once.

use crate::export_event::{clone_events, events_view, ExportEvent, ExportEventModel};
use crate::transform::dupe_analyzer::duplicated;
use crate::transform::grouping::{
    events_without_key, group_by_insert_id, groups_of, groups_view, EventGroup,
};
use vstd::prelude::*;

verus! {

/// The insert ids that an export has more than once, with their events.
#[derive(Debug)]
pub struct DuplicateCheck {
    pub total_events: usize,
    /// How many events have an insert id.
    pub unique_insert_ids: usize,
    /// The groups of more than one event, in the order in which their insert
    /// ids first occur.
    pub duplicates: Vec<EventGroup>,
}

/// How many events of the list have an insert id.
pub open spec fn count_with_key(events: Seq<ExportEventModel>) -> nat
    decreases events.len(),
{
    if events.len() == 0 {
        0
    } else if events.last().insert_id is Some {
        count_with_key(events.drop_last()) + 1
    } else {
        count_with_key(events.drop_last())
    }
}

/// Every event either has an insert id or is among those without one.
pub proof fn law_every_event_is_counted(events: Seq<ExportEventModel>)
    ensures
        count_with_key(events) + events_without_key(events).len() == events.len(),
    decreases events.len(),
{
    if events.len() > 0 {
        law_every_event_is_counted(events.drop_last());
    }
}

/// Finds the insert ids that the export has more than once.
pub fn check_for_duplicate_insert_ids(events: &Vec<ExportEvent>) -> (check: DuplicateCheck)
    ensures
        check.total_events == events.len(),
        check.unique_insert_ids == count_with_key(events_view(events@)),
        groups_view(check.duplicates@) == duplicated(groups_of(events_view(events@))),
{
    let ghost all = events_view(events@);
    let mut with_key: usize = 0;
    let mut i: usize = 0;
    assert(all.take(0) =~= Seq::<ExportEventModel>::empty());
    while i < events.len()
        invariant
            i <= events.len(),
            all == events_view(events@),
            with_key == count_with_key(all.take(i as int)),
            with_key <= i,
        decreases events.len() - i,
    {
        assert(all.take(i + 1).drop_last() =~= all.take(i as int));
        assert(all.take(i + 1).last() == events@[i as int]@);
        if events[i].insert_id.is_some() {
            with_key += 1;
        }
        i += 1;
    }
    assert(all.take(events.len() as int) =~= all);

    let groups = group_by_insert_id(events);
    let ghost grouped = groups_view(groups@);
    let mut duplicates: Vec<EventGroup> = Vec::new();
    let mut g: usize = 0;
    assert(grouped.take(0) =~= Seq::<(Seq<char>, Seq<ExportEventModel>)>::empty());
    assert(groups_view(duplicates@) =~= Seq::<(Seq<char>, Seq<ExportEventModel>)>::empty());
    while g < groups.len()
        invariant
            g <= groups.len(),
            grouped == groups_view(groups@),
            groups_view(duplicates@) == duplicated(grouped.take(g as int)),
        decreases groups.len() - g,
    {
        assert(grouped.take(g + 1).drop_last() =~= grouped.take(g as int));
        assert(grouped.take(g + 1).last() == (
            groups@[g as int].insert_id@,
            events_view(groups@[g as int].events@),
        ));
        if groups[g].events.len() > 1 {
            let ghost before = groups_view(duplicates@);
            duplicates.push(
                EventGroup {
                    insert_id: groups[g].insert_id.clone(),
                    events: clone_events(&groups[g].events),
                },
            );
            assert(groups_view(duplicates@) =~= before.push(
                (groups@[g as int].insert_id@, events_view(groups@[g as int].events@)),
            ));
        }
        g += 1;
    }
    assert(grouped.take(groups.len() as int) =~= grouped);
    DuplicateCheck { total_events: events.len(), unique_insert_ids: with_key, duplicates }
}

} // verus!
