//! Events by insert id.

use crate::export_event::{events_view, ExportEvent, ExportEventModel};
use crate::fields::text_is;
use crate::names::texts_view;
use crate::transform::model::place_view;
use vstd::prelude::*;

verus! {

/// The events that share one insert id, in the order in which they were
/// read.
#[derive(Debug)]
pub struct EventGroup {
    pub insert_id: String,
    pub events: Vec<ExportEvent>,
}

/// The events of the list that have the given insert id, in order.
pub open spec fn events_with_key(events: Seq<ExportEventModel>, key: Seq<char>) -> Seq<
    ExportEventModel,
>
    decreases events.len(),
{
    if events.len() == 0 {
        Seq::empty()
    } else if events.last().insert_id == Some(key) {
        events_with_key(events.drop_last(), key).push(events.last())
    } else {
        events_with_key(events.drop_last(), key)
    }
}

/// The events of the list that have no insert id, in order.
pub open spec fn events_without_key(events: Seq<ExportEventModel>) -> Seq<ExportEventModel>
    decreases events.len(),
{
    if events.len() == 0 {
        Seq::empty()
    } else if events.last().insert_id is None {
        events_without_key(events.drop_last()).push(events.last())
    } else {
        events_without_key(events.drop_last())
    }
}

/// The insert ids of the list, each once, in the order in which they first
/// occur.
pub open spec fn keys_in_order(events: Seq<ExportEventModel>) -> Seq<Seq<char>>
    decreases events.len(),
{
    if events.len() == 0 {
        Seq::empty()
    } else {
        let before = keys_in_order(events.drop_last());
        match events.last().insert_id {
            Some(key) => if before.contains(key) {
                before
            } else {
                before.push(key)
            },
            None => before,
        }
    }
}

/// The groups of a list of events: one for each insert id, in the order in
/// which the ids first occur, each with the events of that id in the order of
/// the list.
pub open spec fn groups_of(events: Seq<ExportEventModel>) -> Seq<
    (Seq<char>, Seq<ExportEventModel>),
> {
    keys_in_order(events).map_values(|key: Seq<char>| (key, events_with_key(events, key)))
}

/// The insert ids and contents of a list of groups, in order.
pub open spec fn groups_view(groups: Seq<EventGroup>) -> Seq<(Seq<char>, Seq<ExportEventModel>)> {
    groups.map_values(|g: EventGroup| (g.insert_id@, events_view(g.events@)))
}

/// An insert id is among the keys exactly when some event has it, no key
/// stands twice, and every key has an event.
pub proof fn lemma_keys_in_order(events: Seq<ExportEventModel>)
    ensures
        forall|key: Seq<char>| #[trigger]
            keys_in_order(events).contains(key) <==> exists|i: int|
                0 <= i < events.len() && (#[trigger] events[i]).insert_id == Some(key),
        keys_in_order(events).no_duplicates(),
        keys_in_order(events).len() <= events.len(),
    decreases events.len(),
{
    if events.len() > 0 {
        let rest = events.drop_last();
        let before = keys_in_order(rest);
        let keys = keys_in_order(events);
        lemma_keys_in_order(rest);
        assert forall|key: Seq<char>| #[trigger]
            keys.contains(key) <==> exists|i: int|
                0 <= i < events.len() && (#[trigger] events[i]).insert_id == Some(key) by {
            if keys.contains(key) {
                if before.contains(key) {
                    let i = choose|i: int|
                        0 <= i < rest.len() && (#[trigger] rest[i]).insert_id == Some(key);
                    assert(events[i] == rest[i]);
                } else {
                    let j = choose|j: int| 0 <= j < keys.len() && keys[j] == key;
                    if j < before.len() {
                        assert(before[j] == key);
                    }
                    assert(events[events.len() - 1].insert_id == Some(key));
                }
            }
            if exists|i: int| 0 <= i < events.len() && (#[trigger] events[i]).insert_id == Some(key) {
                let i = choose|i: int|
                    0 <= i < events.len() && (#[trigger] events[i]).insert_id == Some(key);
                if i < rest.len() {
                    assert(rest[i] == events[i]);
                    assert(before.contains(key));
                    let j = choose|j: int| 0 <= j < before.len() && before[j] == key;
                    assert(keys[j] == key);
                } else {
                    if !before.contains(key) {
                        assert(keys[before.len() as int] == key);
                    } else {
                        let j = choose|j: int| 0 <= j < before.len() && before[j] == key;
                        assert(keys[j] == key);
                    }
                }
            }
        }
    }
}

/// Every group has at least one event, every event of a group has the
/// group's insert id, and an insert id that no event has has no events.
pub proof fn lemma_events_with_key(events: Seq<ExportEventModel>, key: Seq<char>)
    ensures
        forall|i: int|
            0 <= i < events_with_key(events, key).len() ==> (#[trigger] events_with_key(
                events,
                key,
            )[i]).insert_id == Some(key),
        events_with_key(events, key).len() <= events.len(),
        events_with_key(events, key).len() > 0 <==> exists|i: int|
            0 <= i < events.len() && (#[trigger] events[i]).insert_id == Some(key),
    decreases events.len(),
{
    if events.len() > 0 {
        let rest = events.drop_last();
        lemma_events_with_key(rest, key);
        if events_with_key(events, key).len() > 0 {
            if events.last().insert_id == Some(key) {
                assert(events[events.len() - 1].insert_id == Some(key));
            } else {
                let i = choose|i: int|
                    0 <= i < rest.len() && (#[trigger] rest[i]).insert_id == Some(key);
                assert(events[i] == rest[i]);
            }
        }
        if exists|i: int| 0 <= i < events.len() && (#[trigger] events[i]).insert_id == Some(key) {
            let i = choose|i: int|
                0 <= i < events.len() && (#[trigger] events[i]).insert_id == Some(key);
            if i < rest.len() {
                assert(rest[i] == events[i]);
            }
        }
    }
}

/// The insert ids of the events, each once, in the order in which they first
/// occur.
pub fn distinct_insert_ids(events: &Vec<ExportEvent>) -> (keys: Vec<String>)
    ensures
        texts_view(keys@) == keys_in_order(events_view(events@)),
{
    let ghost all = events_view(events@);
    let mut keys: Vec<String> = Vec::new();
    let mut i: usize = 0;
    assert(all.take(0) =~= Seq::<ExportEventModel>::empty());
    assert(texts_view(keys@) =~= Seq::<Seq<char>>::empty());
    while i < events.len()
        invariant
            i <= events.len(),
            all == events_view(events@),
            texts_view(keys@) == keys_in_order(all.take(i as int)),
        decreases events.len() - i,
    {
        assert(all.take(i + 1).drop_last() =~= all.take(i as int));
        assert(all.take(i + 1).last() == events@[i as int]@);
        match &events[i].insert_id {
            Some(key) => {
                let ghost before = texts_view(keys@);
                let mut known = false;
                let mut k: usize = 0;
                while k < keys.len()
                    invariant
                        k <= keys.len(),
                        before == texts_view(keys@),
                        known <==> exists|j: int| 0 <= j < k && before[j] == key@,
                    decreases keys.len() - k,
                {
                    assert(before[k as int] == keys@[k as int]@);
                    if keys[k] == *key {
                        known = true;
                    }
                    k += 1;
                }
                assert(known == before.contains(key@));
                if !known {
                    keys.push(key.clone());
                    assert(texts_view(keys@) =~= before.push(key@));
                }
            },
            None => {},
        }
        i += 1;
    }
    assert(all.take(events.len() as int) =~= all);
    keys
}

/// The events that have the given insert id, in order.
pub fn select_by_insert_id(events: &Vec<ExportEvent>, key: &str) -> (chosen: Vec<ExportEvent>)
    ensures
        events_view(chosen@) == events_with_key(events_view(events@), key@),
{
    let ghost all = events_view(events@);
    let mut chosen: Vec<ExportEvent> = Vec::new();
    let mut i: usize = 0;
    assert(all.take(0) =~= Seq::<ExportEventModel>::empty());
    assert(events_view(chosen@) =~= Seq::<ExportEventModel>::empty());
    while i < events.len()
        invariant
            i <= events.len(),
            all == events_view(events@),
            events_view(chosen@) == events_with_key(all.take(i as int), key@),
        decreases events.len() - i,
    {
        assert(all.take(i + 1).drop_last() =~= all.take(i as int));
        assert(all.take(i + 1).last() == events@[i as int]@);
        if text_is(&events[i].insert_id, key) {
            let ghost before = events_view(chosen@);
            chosen.push(events[i].clone());
            assert(events_view(chosen@) =~= before.push(events@[i as int]@));
        }
        i += 1;
    }
    assert(all.take(events.len() as int) =~= all);
    chosen
}

/// The events that have no insert id, in order. They cannot be told apart
/// by id and belong to no group.
pub fn select_without_insert_id(events: &Vec<ExportEvent>) -> (chosen: Vec<ExportEvent>)
    ensures
        events_view(chosen@) == events_without_key(events_view(events@)),
{
    let ghost all = events_view(events@);
    let mut chosen: Vec<ExportEvent> = Vec::new();
    let mut i: usize = 0;
    assert(all.take(0) =~= Seq::<ExportEventModel>::empty());
    assert(events_view(chosen@) =~= Seq::<ExportEventModel>::empty());
    while i < events.len()
        invariant
            i <= events.len(),
            all == events_view(events@),
            events_view(chosen@) == events_without_key(all.take(i as int)),
        decreases events.len() - i,
    {
        assert(all.take(i + 1).drop_last() =~= all.take(i as int));
        assert(all.take(i + 1).last() == events@[i as int]@);
        if events[i].insert_id.is_none() {
            let ghost before = events_view(chosen@);
            chosen.push(events[i].clone());
            assert(events_view(chosen@) =~= before.push(events@[i as int]@));
        }
        i += 1;
    }
    assert(all.take(events.len() as int) =~= all);
    chosen
}

/// How many events have no insert id.
pub fn count_without_insert_id(events: &Vec<ExportEvent>) -> (count: usize)
    ensures
        count == events_without_key(events_view(events@)).len(),
{
    let ghost all = events_view(events@);
    let mut count: usize = 0;
    let mut i: usize = 0;
    assert(all.take(0) =~= Seq::<ExportEventModel>::empty());
    while i < events.len()
        invariant
            i <= events.len(),
            all == events_view(events@),
            count == events_without_key(all.take(i as int)).len(),
            count <= i,
        decreases events.len() - i,
    {
        assert(all.take(i + 1).drop_last() =~= all.take(i as int));
        assert(all.take(i + 1).last() == events@[i as int]@);
        if events[i].insert_id.is_none() {
            count += 1;
        }
        i += 1;
    }
    assert(all.take(events.len() as int) =~= all);
    count
}

/// The events by insert id: one group for each id, in the order in which the
/// ids first occur. Events without an insert id are in no group.
pub fn group_by_insert_id(events: &Vec<ExportEvent>) -> (groups: Vec<EventGroup>)
    ensures
        groups_view(groups@) == groups_of(events_view(events@)),
{
    let ghost all = events_view(events@);
    let keys = distinct_insert_ids(events);
    let mut groups: Vec<EventGroup> = Vec::new();
    let mut k: usize = 0;
    while k < keys.len()
        invariant
            k <= keys.len(),
            all == events_view(events@),
            texts_view(keys@) == keys_in_order(all),
            groups@.len() == k,
            forall|g: int|
                0 <= g < k ==> (#[trigger] groups@[g]).insert_id@ == keys@[g]@ && events_view(
                    groups@[g].events@,
                ) == events_with_key(all, keys@[g]@),
        decreases keys.len() - k,
    {
        let chosen = select_by_insert_id(events, keys[k].as_str());
        groups.push(EventGroup { insert_id: keys[k].clone(), events: chosen });
        k += 1;
    }
    proof {
        assert(groups_view(groups@).len() == groups_of(all).len());
        assert forall|g: int| 0 <= g < groups@.len() implies groups_view(groups@)[g] == groups_of(
            all,
        )[g] by {
            assert(texts_view(keys@)[g] == keys@[g]@);
        }
        assert(groups_view(groups@) =~= groups_of(all));
    }
    groups
}

/// The place of the last event of the list with the given insert id.
pub open spec fn last_place_with_key(events: Seq<ExportEventModel>, key: Seq<char>) -> Option<int>
    decreases events.len(),
{
    if events.len() == 0 {
        None
    } else if events.last().insert_id == Some(key) {
        Some(events.len() - 1)
    } else {
        last_place_with_key(events.drop_last(), key)
    }
}

/// The last event of the list with the given insert id.
pub open spec fn last_with_key(events: Seq<ExportEventModel>, key: Seq<char>) -> Option<
    ExportEventModel,
> {
    match last_place_with_key(events, key) {
        Some(i) => Some(events[i]),
        None => None,
    }
}

/// The last event with an insert id is found exactly when some event has
/// the id, and it has the id.
pub proof fn lemma_last_place_with_key(events: Seq<ExportEventModel>, key: Seq<char>)
    ensures
        last_place_with_key(events, key) matches Some(i) ==> 0 <= i < events.len()
            && events[i].insert_id == Some(key),
        last_place_with_key(events, key) is None ==> forall|i: int|
            0 <= i < events.len() ==> (#[trigger] events[i]).insert_id != Some(key),
    decreases events.len(),
{
    if events.len() > 0 {
        let rest = events.drop_last();
        lemma_last_place_with_key(rest, key);
        if events.last().insert_id != Some(key) {
            if last_place_with_key(rest, key) is None {
                assert forall|i: int| 0 <= i < events.len() implies (#[trigger] events[i]).insert_id
                    != Some(key) by {
                    if i < rest.len() {
                        assert(rest[i] == events[i]);
                    }
                }
            } else {
                let i = last_place_with_key(rest, key)->0;
                assert(rest[i] == events[i]);
            }
        }
    }
}

/// The place of the last event of the list with the given insert id.
pub fn find_last_with_key(events: &Vec<ExportEvent>, key: &str) -> (place: Option<usize>)
    ensures
        place_view(place) == last_place_with_key(events_view(events@), key@),
        place matches Some(i) ==> i < events.len(),
{
    let ghost all = events_view(events@);
    let mut place: Option<usize> = None;
    let mut i: usize = 0;
    assert(all.take(0) =~= Seq::<ExportEventModel>::empty());
    while i < events.len()
        invariant
            i <= events.len(),
            all == events_view(events@),
            place_view(place) == last_place_with_key(all.take(i as int), key@),
            place matches Some(p) ==> p < i,
        decreases events.len() - i,
    {
        assert(all.take(i + 1).drop_last() =~= all.take(i as int));
        assert(all.take(i + 1).last() == events@[i as int]@);
        if text_is(&events[i].insert_id, key) {
            place = Some(i);
        }
        i += 1;
    }
    assert(all.take(events.len() as int) =~= all);
    place
}

} // verus!
