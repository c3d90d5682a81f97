//! What an upload sends, to whom, and in what order.

use crate::amplitude_types::{batch_event_of, upload_obstacle, Event, EventModel};
use crate::export_event::{events_view, ExportEvent, ExportEventModel};
use crate::names::{contains_text, distinct_texts, first_occurrences, texts_view};
use vstd::prelude::*;
use vstd::string::*;

verus! {

/// The most events that one request carries for one user.
pub const USER_BATCH_SIZE: usize = 65;

/// The contents of a list of events of a batch upload, in order.
pub open spec fn batch_view(events: Seq<Event>) -> Seq<EventModel> {
    events.map_values(|e: Event| e@)
}

/// The event was uploaded before: it has an insert id, and the id is among
/// the completed ones.
pub open spec fn is_completed(event: ExportEventModel, completed: Seq<Seq<char>>) -> bool {
    event.insert_id matches Some(key) && completed.contains(key)
}

/// The events that are still to be uploaded, as events of a batch upload, in
/// order. Left out are the events that were uploaded before and those that
/// cannot be uploaded.
pub open spec fn pending(events: Seq<ExportEventModel>, completed: Seq<Seq<char>>) -> Seq<
    EventModel,
>
    decreases events.len(),
{
    if events.len() == 0 {
        Seq::empty()
    } else if !is_completed(events.last(), completed) && upload_obstacle(events.last()) is None {
        pending(events.drop_last(), completed).push(batch_event_of(events.last()))
    } else {
        pending(events.drop_last(), completed)
    }
}

/// The events that were not uploaded before and cannot be uploaded, in
/// order.
pub open spec fn unconvertible(events: Seq<ExportEventModel>, completed: Seq<Seq<char>>) -> Seq<
    ExportEventModel,
>
    decreases events.len(),
{
    if events.len() == 0 {
        Seq::empty()
    } else if !is_completed(events.last(), completed) && upload_obstacle(events.last()) is Some {
        unconvertible(events.drop_last(), completed).push(events.last())
    } else {
        unconvertible(events.drop_last(), completed)
    }
}

/// How many of the events were uploaded before.
pub open spec fn skipped_count(events: Seq<ExportEventModel>, completed: Seq<Seq<char>>) -> nat
    decreases events.len(),
{
    if events.len() == 0 {
        0
    } else if is_completed(events.last(), completed) {
        skipped_count(events.drop_last(), completed) + 1
    } else {
        skipped_count(events.drop_last(), completed)
    }
}

/// The place at which an event of the given time goes into a list that is
/// ordered by time: behind every event that is not later.
pub open spec fn insert_place(sorted: Seq<EventModel>, time: i64) -> int
    decreases sorted.len(),
{
    if sorted.len() == 0 {
        0
    } else if sorted.last().time > time {
        insert_place(sorted.drop_last(), time)
    } else {
        sorted.len() as int
    }
}

/// The events ordered by time. Events of the same time keep their order.
pub open spec fn sorted_by_time(events: Seq<EventModel>) -> Seq<EventModel>
    decreases events.len(),
{
    if events.len() == 0 {
        Seq::empty()
    } else {
        let before = sorted_by_time(events.drop_last());
        before.insert(insert_place(before, events.last().time), events.last())
    }
}

/// No event of the list is later than one behind it.
pub open spec fn is_ordered(events: Seq<EventModel>) -> bool {
    forall|i: int, j: int| 0 <= i <= j < events.len() ==> events[i].time <= events[j].time
}

/// The place is in the list or at its end, every event before it is not
/// later than the given time and every event from it on is later.
pub proof fn lemma_insert_place(sorted: Seq<EventModel>, time: i64)
    requires
        is_ordered(sorted),
    ensures
        0 <= insert_place(sorted, time) <= sorted.len(),
        forall|i: int| 0 <= i < insert_place(sorted, time) ==> (#[trigger] sorted[i]).time <= time,
        forall|i: int|
            insert_place(sorted, time) <= i < sorted.len() ==> (#[trigger] sorted[i]).time > time,
    decreases sorted.len(),
{
    if sorted.len() > 0 {
        let rest = sorted.drop_last();
        assert forall|i: int, j: int| 0 <= i <= j < rest.len() implies rest[i].time
            <= rest[j].time by {
            assert(rest[i] == sorted[i] && rest[j] == sorted[j]);
        }
        lemma_insert_place(rest, time);
        if sorted.last().time > time {
            assert forall|i: int| 0 <= i < insert_place(sorted, time) implies (
            #[trigger] sorted[i]).time <= time by {
                assert(rest[i] == sorted[i]);
            }
            assert forall|i: int| insert_place(sorted, time) <= i < sorted.len() implies (
            #[trigger] sorted[i]).time > time by {
                if i < rest.len() {
                    assert(rest[i] == sorted[i]);
                }
            }
        } else {
            assert forall|i: int| 0 <= i < sorted.len() implies (#[trigger] sorted[i]).time
                <= time by {
                assert(sorted[i].time <= sorted[sorted.len() - 1].time);
            }
        }
    }
}

/// Sorting gives an ordered list with the same events: as many of each as
/// there were.
pub proof fn law_sorted_is_ordered(events: Seq<EventModel>)
    ensures
        is_ordered(sorted_by_time(events)),
        sorted_by_time(events).len() == events.len(),
        sorted_by_time(events).to_multiset() == events.to_multiset(),
    decreases events.len(),
{
    if events.len() == 0 {
        assert(events =~= Seq::<EventModel>::empty());
        assert(sorted_by_time(events) == events);
    } else {
        let rest = events.drop_last();
        let last = events.last();
        law_sorted_is_ordered(rest);
        let before = sorted_by_time(rest);
        lemma_insert_place(before, last.time);
        let place = insert_place(before, last.time);
        let after = before.insert(place, last);
        assert forall|i: int, j: int| 0 <= i <= j < after.len() implies after[i].time
            <= after[j].time by {
            if i < place {
                assert(after[i] == before[i]);
            } else if i > place {
                assert(after[i] == before[i - 1]);
            }
            if j < place {
                assert(after[j] == before[j]);
            } else if j > place {
                assert(after[j] == before[j - 1]);
            }
        }
        vstd::seq_lib::to_multiset_insert(before, place, last);
        assert(events =~= rest.push(last));
        vstd::seq_lib::to_multiset_build(rest, last);
        assert(after.to_multiset() =~= events.to_multiset());
    }
}

/// The name under which the events of one user are uploaded: the user id
/// where there is one, else the device id, else "unknown".
pub open spec fn user_key(event: EventModel) -> Seq<char> {
    match event.user_id {
        Some(user) => "user:"@ + user,
        None => match event.device_id {
            Some(device) => "device:"@ + device,
            None => "unknown"@,
        },
    }
}

/// The user keys of the events, in order.
pub open spec fn user_keys(events: Seq<EventModel>) -> Seq<Seq<char>> {
    events.map_values(|e: EventModel| user_key(e))
}

/// The events of the user with the given key, in order.
pub open spec fn events_of_user(events: Seq<EventModel>, key: Seq<char>) -> Seq<EventModel>
    decreases events.len(),
{
    if events.len() == 0 {
        Seq::empty()
    } else if user_key(events.last()) == key {
        events_of_user(events.drop_last(), key).push(events.last())
    } else {
        events_of_user(events.drop_last(), key)
    }
}

/// The list cut into pieces of `size` events; the last piece may be
/// shorter.
pub open spec fn chunks(events: Seq<EventModel>, size: nat) -> Seq<Seq<EventModel>>
    decreases events.len(),
{
    if events.len() == 0 || size == 0 {
        Seq::empty()
    } else if events.len() <= size {
        seq![events]
    } else {
        seq![events.take(size as int)] + chunks(events.skip(size as int), size)
    }
}

/// The contents of a list of batches, in order.
pub open spec fn batches_view(batches: Seq<Vec<Event>>) -> Seq<Seq<EventModel>> {
    batches.map_values(|b: Vec<Event>| batch_view(b@))
}

/// The batches of one user.
#[derive(Debug)]
pub struct UserBatches {
    pub user_key: String,
    /// The events of the user in the order of their times, cut into
    /// requests.
    pub batches: Vec<Vec<Event>>,
}

/// What an upload sends.
#[derive(Debug)]
pub struct UploadPlan {
    /// How many events were uploaded before and are left out.
    pub skipped_events: usize,
    /// How many events are still to be uploaded.
    pub total_events: usize,
    /// The events that were not uploaded before and cannot be uploaded.
    pub failed_conversions: Vec<ExportEvent>,
    /// The batches, user by user, in the order in which the users first
    /// occur among the events ordered by time.
    pub user_batches: Vec<UserBatches>,
}

/// The plan is the one for the events, given the insert ids that were
/// uploaded before.
pub open spec fn is_plan_of(
    plan: UploadPlan,
    events: Seq<ExportEventModel>,
    completed: Seq<Seq<char>>,
) -> bool {
    let sorted = sorted_by_time(pending(events, completed));
    let users = first_occurrences(user_keys(sorted));
    &&& plan.skipped_events == skipped_count(events, completed)
    &&& plan.total_events == sorted.len()
    &&& events_view(plan.failed_conversions@) == unconvertible(events, completed)
    &&& plan.user_batches@.len() == users.len()
    &&& forall|u: int|
        0 <= u < users.len() ==> (#[trigger] plan.user_batches@[u]).user_key@ == users[u]
            && batches_view(plan.user_batches@[u].batches@) == chunks(
            events_of_user(sorted, users[u]),
            USER_BATCH_SIZE as nat,
        )
}

/// The events that are still to be uploaded, and how many were uploaded
/// before.
pub fn pending_events(events: &Vec<ExportEvent>, completed: &Vec<String>) -> (found: (
    Vec<Event>,
    usize,
    Vec<ExportEvent>,
))
    ensures
        batch_view(found.0@) == pending(events_view(events@), texts_view(completed@)),
        found.1 == skipped_count(events_view(events@), texts_view(completed@)),
        events_view(found.2@) == unconvertible(events_view(events@), texts_view(completed@)),
{
    let ghost all = events_view(events@);
    let ghost done = texts_view(completed@);
    let mut out: Vec<Event> = Vec::new();
    let mut failed: Vec<ExportEvent> = Vec::new();
    let mut skipped: usize = 0;
    let mut i: usize = 0;
    assert(all.take(0) =~= Seq::<ExportEventModel>::empty());
    assert(batch_view(out@) =~= Seq::<EventModel>::empty());
    assert(events_view(failed@) =~= Seq::<ExportEventModel>::empty());
    while i < events.len()
        invariant
            i <= events.len(),
            all == events_view(events@),
            done == texts_view(completed@),
            batch_view(out@) == pending(all.take(i as int), done),
            events_view(failed@) == unconvertible(all.take(i as int), done),
            skipped == skipped_count(all.take(i as int), done),
            skipped <= i,
        decreases events.len() - i,
    {
        assert(all.take(i + 1).drop_last() =~= all.take(i as int));
        assert(all.take(i + 1).last() == events@[i as int]@);
        let was_uploaded = match &events[i].insert_id {
            Some(key) => contains_text(completed, key),
            None => false,
        };
        if was_uploaded {
            skipped += 1;
        } else {
            match events[i].to_batch_event() {
                Ok(event) => {
                    let ghost before = batch_view(out@);
                    out.push(event);
                    assert(batch_view(out@) =~= before.push(event@));
                },
                Err(_) => {
                    let ghost before = events_view(failed@);
                    failed.push(events[i].clone());
                    assert(events_view(failed@) =~= before.push(events@[i as int]@));
                },
            }
        }
        i += 1;
    }
    assert(all.take(events.len() as int) =~= all);
    (out, skipped, failed)
}

/// The events ordered by time; events of the same time keep their order.
pub fn sort_by_time(events: &Vec<Event>) -> (sorted: Vec<Event>)
    ensures
        batch_view(sorted@) == sorted_by_time(batch_view(events@)),
{
    let ghost all = batch_view(events@);
    let mut sorted: Vec<Event> = Vec::new();
    let mut i: usize = 0;
    assert(all.take(0) =~= Seq::<EventModel>::empty());
    assert(batch_view(sorted@) =~= Seq::<EventModel>::empty());
    while i < events.len()
        invariant
            i <= events.len(),
            all == batch_view(events@),
            batch_view(sorted@) == sorted_by_time(all.take(i as int)),
        decreases events.len() - i,
    {
        assert(all.take(i + 1).drop_last() =~= all.take(i as int));
        assert(all.take(i + 1).last() == events@[i as int]@);
        let ghost before = batch_view(sorted@);
        let time = events[i].time;
        let mut place: usize = sorted.len();
        assert(before.take(place as int) =~= before);
        while place > 0 && sorted[place - 1].time > time
            invariant
                place <= sorted.len(),
                before == batch_view(sorted@),
                insert_place(before, time) == insert_place(before.take(place as int), time),
            decreases place,
        {
            assert(before.take(place as int).drop_last() =~= before.take(place - 1));
            assert(before.take(place as int).last() == sorted@[place - 1]@);
            place -= 1;
        }
        proof {
            if place > 0 {
                assert(before.take(place as int).last() == sorted@[place - 1]@);
            }
            assert(before.take(place as int).len() == place);
        }
        sorted.insert(place, events[i].clone());
        assert(batch_view(sorted@) =~= before.insert(place as int, events@[i as int]@));
        i += 1;
    }
    assert(all.take(events.len() as int) =~= all);
    sorted
}

/// The name under which the events of the event's user are uploaded.
pub fn user_key_of(event: &Event) -> (key: String)
    ensures
        key@ == user_key(event@),
{
    match &event.user_id {
        Some(user) => {
            let mut key = "user:".to_owned();
            key.append(user.as_str());
            key
        },
        None => match &event.device_id {
            Some(device) => {
                let mut key = "device:".to_owned();
                key.append(device.as_str());
                key
            },
            None => "unknown".to_owned(),
        },
    }
}

/// The events of the user with the given key, in order.
pub fn select_user(events: &Vec<Event>, key: &String) -> (chosen: Vec<Event>)
    ensures
        batch_view(chosen@) == events_of_user(batch_view(events@), key@),
{
    let ghost all = batch_view(events@);
    let mut chosen: Vec<Event> = Vec::new();
    let mut i: usize = 0;
    assert(all.take(0) =~= Seq::<EventModel>::empty());
    assert(batch_view(chosen@) =~= Seq::<EventModel>::empty());
    while i < events.len()
        invariant
            i <= events.len(),
            all == batch_view(events@),
            batch_view(chosen@) == events_of_user(all.take(i as int), key@),
        decreases events.len() - i,
    {
        assert(all.take(i + 1).drop_last() =~= all.take(i as int));
        assert(all.take(i + 1).last() == events@[i as int]@);
        if user_key_of(&events[i]) == *key {
            let ghost before = batch_view(chosen@);
            chosen.push(events[i].clone());
            assert(batch_view(chosen@) =~= before.push(events@[i as int]@));
        }
        i += 1;
    }
    assert(all.take(events.len() as int) =~= all);
    chosen
}

/// The list cut into requests of at most `USER_BATCH_SIZE` events.
pub fn split_into_batches(events: &Vec<Event>) -> (batches: Vec<Vec<Event>>)
    ensures
        batches_view(batches@) == chunks(batch_view(events@), USER_BATCH_SIZE as nat),
{
    let ghost all = batch_view(events@);
    let size: usize = USER_BATCH_SIZE;
    let mut batches: Vec<Vec<Event>> = Vec::new();
    let mut start: usize = 0;
    assert(all.skip(0) =~= all);
    assert(batches_view(batches@) + chunks(all, size as nat) =~= chunks(all, size as nat));
    while start < events.len()
        invariant
            start <= events.len(),
            size == USER_BATCH_SIZE,
            all == batch_view(events@),
            batches_view(batches@) + chunks(all.skip(start as int), size as nat) == chunks(
                all,
                size as nat,
            ),
        decreases events.len() - start,
    {
        let ghost rest = all.skip(start as int);
        let ghost before = batches_view(batches@);
        let end = if events.len() - start <= size {
            events.len()
        } else {
            start + size
        };
        let mut batch: Vec<Event> = Vec::new();
        let mut i: usize = start;
        while i < end
            invariant
                start <= i <= end <= events.len(),
                all == batch_view(events@),
                batch@.len() == i - start,
                forall|j: int| 0 <= j < i - start ==> (#[trigger] batch@[j])@ == all[start + j],
            decreases end - i,
        {
            assert(all[i as int] == events@[i as int]@);
            batch.push(events[i].clone());
            i += 1;
        }
        assert(batch_view(batch@) =~= rest.take(end - start));
        batches.push(batch);
        proof {
            assert(batches_view(batches@) =~= before.push(rest.take(end - start)));
            if events.len() - start <= size {
                assert(rest.take(end - start) =~= rest);
                assert(all.skip(end as int) =~= Seq::<EventModel>::empty());
                assert(chunks(rest, size as nat) =~= seq![rest]);
                assert(before.push(rest) + chunks(all.skip(end as int), size as nat) =~= before
                    + chunks(rest, size as nat));
            } else {
                assert(rest.skip(size as int) =~= all.skip(end as int));
                assert(chunks(rest, size as nat) =~= seq![rest.take(size as int)] + chunks(
                    all.skip(end as int),
                    size as nat,
                ));
                assert(before.push(rest.take(size as int)) + chunks(
                    all.skip(end as int),
                    size as nat,
                ) =~= before + chunks(rest, size as nat));
            }
        }
        start = end;
    }
    assert(all.skip(events.len() as int) =~= Seq::<EventModel>::empty());
    assert(batches_view(batches@) + Seq::<Seq<EventModel>>::empty() =~= batches_view(batches@));
    batches
}

/// Whether another request follows the one at the given place among the
/// requests of one user, so that the upload has to wait before it goes on.
pub fn waits_after(batch_index: usize, total_batches_for_user: usize) -> (wait: bool)
    ensures
        wait == (batch_index + 1 < total_batches_for_user),
{
    batch_index < total_batches_for_user && batch_index + 1 < total_batches_for_user
}

/// The plan of an upload: the events that were not uploaded before and can
/// be uploaded, ordered by time, user by user, cut into requests.
pub fn plan_upload(events: &Vec<ExportEvent>, completed: &Vec<String>) -> (plan: UploadPlan)
    ensures
        is_plan_of(plan, events_view(events@), texts_view(completed@)),
{
    let (to_upload, skipped, failed) = pending_events(events, completed);
    let sorted = sort_by_time(&to_upload);
    let ghost ordered = batch_view(sorted@);
    let mut keys: Vec<String> = Vec::new();
    let mut i: usize = 0;
    while i < sorted.len()
        invariant
            i <= sorted.len(),
            ordered == batch_view(sorted@),
            keys@.len() == i,
            forall|j: int| 0 <= j < i ==> (#[trigger] keys@[j])@ == user_key(ordered[j]),
        decreases sorted.len() - i,
    {
        assert(ordered[i as int] == sorted@[i as int]@);
        keys.push(user_key_of(&sorted[i]));
        i += 1;
    }
    assert(texts_view(keys@) =~= user_keys(ordered));
    let users = distinct_texts(&keys);
    let ghost user_views = texts_view(users@);
    let mut user_batches: Vec<UserBatches> = Vec::new();
    let mut u: usize = 0;
    while u < users.len()
        invariant
            u <= users.len(),
            ordered == batch_view(sorted@),
            user_views == texts_view(users@),
            user_batches@.len() == u,
            forall|v: int|
                0 <= v < u ==> (#[trigger] user_batches@[v]).user_key@ == user_views[v]
                    && batches_view(user_batches@[v].batches@) == chunks(
                    events_of_user(ordered, user_views[v]),
                    USER_BATCH_SIZE as nat,
                ),
        decreases users.len() - u,
    {
        assert(user_views[u as int] == users@[u as int]@);
        let theirs = select_user(&sorted, &users[u]);
        let batches = split_into_batches(&theirs);
        user_batches.push(UserBatches { user_key: users[u].clone(), batches });
        u += 1;
    }
    assert(batch_view(sorted@).len() == sorted@.len());
    UploadPlan {
        skipped_events: skipped,
        total_events: sorted.len(),
        failed_conversions: failed,
        user_batches,
    }
}

} // verus!
