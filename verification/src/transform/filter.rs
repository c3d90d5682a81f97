//! An export split into the events that stay and the events that go.

use crate::export_event::{events_view, ExportEvent, ExportEventModel};
use crate::filters::{
    criteria_include, dedup_includes, dedup_remembers, event_key_is_uuid, filter_mask,
    memory_after, CriteriaModel, ExportEventFilter, MultiCriteriaFilter, UUIDDeduplicationFilter,
};
use crate::time::{datetime_of_text, parse_datetime, Timestamp};
use vstd::prelude::*;

verus! {

/// An export split by a filter.
#[derive(Debug)]
pub struct FilterOutcome {
    pub total_events: usize,
    /// The events that stay, in the order of the export.
    pub remaining_events: Vec<ExportEvent>,
    /// The events that go, in the order of the export.
    pub removed_events: Vec<ExportEvent>,
    pub filter_description: String,
}

/// Why the events were not filtered.
#[derive(Debug)]
pub enum FilterError {
    /// The earliest event time does not read as a time; it is handed back.
    BadStartTime(String),
    /// The latest event time does not read as a time; it is handed back.
    BadEndTime(String),
}

/// The events whose place in the mask holds `wanted`, in order.
pub open spec fn kept_by(events: Seq<ExportEventModel>, mask: Seq<bool>, wanted: bool) -> Seq<
    ExportEventModel,
>
    decreases events.len(),
{
    if events.len() == 0 {
        Seq::empty()
    } else if mask[events.len() - 1] == wanted {
        kept_by(events.drop_last(), mask, wanted).push(events.last())
    } else {
        kept_by(events.drop_last(), mask, wanted)
    }
}

/// The outcome is the split of the events by the mask: an event stays where
/// the mask holds `true`.
pub open spec fn is_split_by(
    outcome: FilterOutcome,
    events: Seq<ExportEventModel>,
    mask: Seq<bool>,
) -> bool {
    &&& outcome.total_events == events.len()
    &&& events_view(outcome.remaining_events@) == kept_by(events, mask, true)
    &&& events_view(outcome.removed_events@) == kept_by(events, mask, false)
}

/// For each event, whether it stays under the criteria.
pub open spec fn criteria_mask(c: CriteriaModel, events: Seq<ExportEventModel>) -> Seq<bool> {
    events.map_values(|e: ExportEventModel| criteria_include(c, e))
}

/// The events with an insert id that is not a UUID, as the deduplicating
/// filter has them in mind after the whole list.
pub open spec fn dedup_seen(events: Seq<ExportEventModel>) -> Seq<ExportEventModel>
    decreases events.len(),
{
    if events.len() == 0 {
        Seq::empty()
    } else {
        dedup_remembers(
            dedup_seen(events.drop_last()),
            events.last(),
            event_key_is_uuid(events.last()),
        )
    }
}

/// For each event, whether it stays under the deduplicating filter, which
/// has seen the events before it.
pub open spec fn dedup_mask(events: Seq<ExportEventModel>) -> Seq<bool> {
    Seq::new(
        events.len(),
        |i: int| dedup_includes(dedup_seen(events.take(i)), events[i], event_key_is_uuid(events[i])),
    )
}

/// The pattern by which the bounds of a time filter are read.
pub open spec fn filter_time_pattern() -> Seq<char> {
    "%Y-%m-%d %H:%M:%S"@
}

/// The view of an optional text.
pub open spec fn str_view(text: Option<&str>) -> Option<Seq<char>> {
    match text {
        Some(s) => Some(s@),
        None => None,
    }
}

/// The bound of a time filter that the text tells: no bound where there is
/// no text, and `None` where the text does not read as a time.
pub open spec fn filter_time(text: Option<&str>) -> Option<Option<Timestamp>> {
    match text {
        None => Some(None),
        Some(s) => match datetime_of_text(s@, filter_time_pattern()) {
            Some(t) => Some(Some(t)),
            None => None,
        },
    }
}

/// Splits the events by a mask.
pub fn partition_events(events: &Vec<ExportEvent>, mask: &Vec<bool>) -> (parts: (
    Vec<ExportEvent>,
    Vec<ExportEvent>,
))
    requires
        mask.len() == events.len(),
    ensures
        events_view(parts.0@) == kept_by(events_view(events@), mask@, true),
        events_view(parts.1@) == kept_by(events_view(events@), mask@, false),
{
    let ghost all = events_view(events@);
    let mut remaining: Vec<ExportEvent> = Vec::new();
    let mut removed: Vec<ExportEvent> = Vec::new();
    let mut i: usize = 0;
    assert(all.take(0) =~= Seq::<ExportEventModel>::empty());
    assert(events_view(remaining@) =~= Seq::<ExportEventModel>::empty());
    assert(events_view(removed@) =~= Seq::<ExportEventModel>::empty());
    while i < events.len()
        invariant
            i <= events.len(),
            mask.len() == events.len(),
            all == events_view(events@),
            events_view(remaining@) == kept_by(all.take(i as int), mask@, true),
            events_view(removed@) == kept_by(all.take(i as int), mask@, false),
        decreases events.len() - i,
    {
        assert(all.take(i + 1).drop_last() =~= all.take(i as int));
        assert(all.take(i + 1).last() == events@[i as int]@);
        if mask[i] {
            let ghost before = events_view(remaining@);
            remaining.push(events[i].clone());
            assert(events_view(remaining@) =~= before.push(events@[i as int]@));
        } else {
            let ghost before = events_view(removed@);
            removed.push(events[i].clone());
            assert(events_view(removed@) =~= before.push(events@[i as int]@));
        }
        i += 1;
    }
    assert(all.take(events.len() as int) =~= all);
    (remaining, removed)
}

/// Splits the events by what the filter says of each, asked in the order of
/// the export. The filter remembers what it has seen.
pub fn filter_events_with_filter<F: ExportEventFilter>(events: &Vec<ExportEvent>, filter: &mut F) -> (outcome:
    FilterOutcome)
    ensures
        is_split_by(
            outcome,
            events_view(events@),
            filter_mask::<F>(old(filter).memory(), events_view(events@)),
        ),
        final(filter).memory() == memory_after::<F>(old(filter).memory(), events_view(events@)),
        outcome.filter_description@ == final(filter).label(),
{
    let ghost all = events_view(events@);
    let ghost start = filter.memory();
    let mut mask: Vec<bool> = Vec::new();
    let mut i: usize = 0;
    assert(all.take(0) =~= Seq::<ExportEventModel>::empty());
    while i < events.len()
        invariant
            i <= events.len(),
            mask.len() == i,
            all == events_view(events@),
            filter.memory() == memory_after::<F>(start, all.take(i as int)),
            forall|j: int| 0 <= j < i ==> mask@[j] == #[trigger] filter_mask::<F>(start, all)[j],
        decreases events.len() - i,
    {
        assert(all.take(i + 1).drop_last() =~= all.take(i as int));
        assert(all.take(i + 1).last() == events@[i as int]@);
        assert(all[i as int] == events@[i as int]@);
        let included = filter.should_include(&events[i]);
        mask.push(included);
        i += 1;
    }
    assert(all.take(events.len() as int) =~= all);
    assert(mask@ =~= filter_mask::<F>(start, all));
    let (remaining, removed) = partition_events(events, &mask);
    FilterOutcome {
        total_events: events.len(),
        remaining_events: remaining,
        removed_events: removed,
        filter_description: filter.description().to_owned(),
    }
}

/// An owned copy of an optional text.
fn owned(text: Option<&str>) -> (copy: Option<String>)
    ensures
        crate::fields::text_view(copy) == str_view(text),
{
    match text {
        Some(s) => Some(s.to_owned()),
        None => None,
    }
}

/// Reads a bound of a time filter.
fn read_filter_time(text: Option<&str>) -> (bound: Option<Option<Timestamp>>)
    ensures
        bound == filter_time(text),
{
    match text {
        None => Some(None),
        Some(s) => match parse_datetime(s, "%Y-%m-%d %H:%M:%S") {
            Some(t) => Some(Some(t)),
            None => None,
        },
    }
}

/// Splits the events by criteria on what they hold. The bounds on the event
/// time are given as texts; a bound that does not read as a time is an
/// error, that of the earliest time first.
pub fn filter_events(
    events: &Vec<ExportEvent>,
    event_type: Option<&str>,
    user_id: Option<&str>,
    device_id: Option<&str>,
    insert_id: Option<&str>,
    uuid: Option<&str>,
    start_time: Option<&str>,
    end_time: Option<&str>,
    invert: bool,
) -> (filtered: Result<FilterOutcome, FilterError>)
    ensures
        filter_time(start_time) is None ==> (filtered matches Err(FilterError::BadStartTime(text))
            && Some(text@) == str_view(start_time)),
        filter_time(start_time) is Some && filter_time(end_time) is None ==> (filtered matches Err(
            FilterError::BadEndTime(text),
        ) && Some(text@) == str_view(end_time)),
        (filter_time(start_time) is Some && filter_time(end_time) is Some) ==> (filtered matches Ok(
            outcome,
        ) && is_split_by(
            outcome,
            events_view(events@),
            criteria_mask(
                CriteriaModel {
                    event_type: str_view(event_type),
                    user_id: str_view(user_id),
                    device_id: str_view(device_id),
                    insert_id: str_view(insert_id),
                    uuid: str_view(uuid),
                    start_time: filter_time(start_time)->0,
                    end_time: filter_time(end_time)->0,
                    invert,
                },
                events_view(events@),
            ),
        ) && outcome.filter_description@ == "Multi-criteria filter"@),
{
    let start = match read_filter_time(start_time) {
        Some(bound) => bound,
        None => {
            match start_time {
                Some(text) => {
                    return Err(FilterError::BadStartTime(text.to_owned()));
                },
                None => {
                    return Err(FilterError::BadStartTime(String::new()));
                },
            }
        },
    };
    let end = match read_filter_time(end_time) {
        Some(bound) => bound,
        None => {
            match end_time {
                Some(text) => {
                    return Err(FilterError::BadEndTime(text.to_owned()));
                },
                None => {
                    return Err(FilterError::BadEndTime(String::new()));
                },
            }
        },
    };
    let mut filter = MultiCriteriaFilter::new(
        owned(event_type),
        owned(user_id),
        owned(device_id),
        owned(insert_id),
        owned(uuid),
        start,
        end,
        invert,
    );
    let ghost criteria = filter@;
    let ghost all = events_view(events@);
    let mut mask: Vec<bool> = Vec::new();
    let mut i: usize = 0;
    while i < events.len()
        invariant
            i <= events.len(),
            mask.len() == i,
            filter@ == criteria,
            all == events_view(events@),
            forall|j: int| 0 <= j < i ==> mask@[j] == criteria_include(criteria, #[trigger] all[j]),
        decreases events.len() - i,
    {
        assert(all[i as int] == events@[i as int]@);
        let included = filter.should_include(&events[i]);
        mask.push(included);
        i += 1;
    }
    assert(mask@ =~= criteria_mask(criteria, all));
    let (remaining, removed) = partition_events(events, &mask);
    Ok(
        FilterOutcome {
            total_events: events.len(),
            remaining_events: remaining,
            removed_events: removed,
            filter_description: filter.description().to_owned(),
        },
    )
}

/// Splits the events by the deduplicating filter: an event whose insert id
/// is a UUID stays, and of the events with one other insert id the first.
pub fn filter_events_uuid_deduplication(events: &Vec<ExportEvent>) -> (outcome: FilterOutcome)
    ensures
        is_split_by(outcome, events_view(events@), dedup_mask(events_view(events@))),
        outcome.filter_description@ == "UUID-based deduplication filter"@,
{
    let mut filter = UUIDDeduplicationFilter::new();
    let ghost all = events_view(events@);
    let mut mask: Vec<bool> = Vec::new();
    let mut i: usize = 0;
    assert(all.take(0) =~= Seq::<ExportEventModel>::empty());
    while i < events.len()
        invariant
            i <= events.len(),
            mask.len() == i,
            all == events_view(events@),
            filter@ == dedup_seen(all.take(i as int)),
            forall|j: int| 0 <= j < i ==> mask@[j] == #[trigger] dedup_mask(all)[j],
        decreases events.len() - i,
    {
        assert(all.take(i + 1).drop_last() =~= all.take(i as int));
        assert(all.take(i + 1).last() == events@[i as int]@);
        assert(all[i as int] == events@[i as int]@);
        let included = filter.should_include(&events[i]);
        mask.push(included);
        i += 1;
    }
    assert(mask@ =~= dedup_mask(all));
    let (remaining, removed) = partition_events(events, &mask);
    FilterOutcome {
        total_events: events.len(),
        remaining_events: remaining,
        removed_events: removed,
        filter_description: filter.description().to_owned(),
    }
}

/// A filter by criteria keeps its criteria, so it decides on each event as
/// if it were the only one.
pub proof fn law_criteria_decide_event_by_event(c: CriteriaModel, events: Seq<ExportEventModel>)
    ensures
        memory_after::<MultiCriteriaFilter>(c, events) == c,
        filter_mask::<MultiCriteriaFilter>(c, events) == criteria_mask(c, events),
    decreases events.len(),
{
    if events.len() > 0 {
        law_criteria_decide_event_by_event(c, events.drop_last());
    }
    assert forall|i: int| 0 <= i < events.len() implies filter_mask::<MultiCriteriaFilter>(
        c,
        events,
    )[i] == criteria_mask(c, events)[i] by {
        law_criteria_decide_event_by_event_upto(c, events, i);
    }
    assert(filter_mask::<MultiCriteriaFilter>(c, events) =~= criteria_mask(c, events));
}

/// A filter by criteria still has its criteria after any number of events.
proof fn law_criteria_decide_event_by_event_upto(
    c: CriteriaModel,
    events: Seq<ExportEventModel>,
    n: int,
)
    requires
        0 <= n <= events.len(),
    ensures
        memory_after::<MultiCriteriaFilter>(c, events.take(n)) == c,
    decreases n,
{
    if n > 0 {
        law_criteria_decide_event_by_event_upto(c, events, n - 1);
        assert(events.take(n).drop_last() =~= events.take(n - 1));
    }
}

/// A deduplicating filter that starts with nothing in mind has in mind,
/// after a list of events, those of them with an insert id that is no UUID.
pub proof fn law_dedup_memory(events: Seq<ExportEventModel>)
    ensures
        memory_after::<UUIDDeduplicationFilter>(Seq::empty(), events) == dedup_seen(events),
    decreases events.len(),
{
    if events.len() > 0 {
        law_dedup_memory(events.drop_last());
    }
}

/// The deduplicating filter decides as `dedup_mask` says.
pub proof fn law_dedup_mask(events: Seq<ExportEventModel>)
    ensures
        filter_mask::<UUIDDeduplicationFilter>(Seq::empty(), events) == dedup_mask(events),
{
    assert forall|i: int| 0 <= i < events.len() implies filter_mask::<UUIDDeduplicationFilter>(
        Seq::empty(),
        events,
    )[i] == dedup_mask(events)[i] by {
        law_dedup_memory(events.take(i));
    }
    assert(filter_mask::<UUIDDeduplicationFilter>(Seq::empty(), events) =~= dedup_mask(events));
}

/// A split loses no event and makes none up: as many events stay or go as
/// there are.
pub proof fn law_split_keeps_every_event(events: Seq<ExportEventModel>, mask: Seq<bool>)
    ensures
        kept_by(events, mask, true).len() + kept_by(events, mask, false).len() == events.len(),
    decreases events.len(),
{
    if events.len() > 0 {
        law_split_keeps_every_event(events.drop_last(), mask);
    }
}

} // verus!
