//! Deciding, event by event, what stays in an export.

use crate::export_event::{events_view, ExportEvent, ExportEventModel};
use crate::fields::{same_text, text_view};
use crate::insert_id::{is_uuid, parses_as_uuid};
use crate::names::texts_view;
use crate::time::Timestamp;
use crate::transform::grouping::{distinct_insert_ids, keys_in_order};
use vstd::prelude::*;
use vstd::string::*;

verus! {

/// Something that decides, event by event, whether an event stays. A filter
/// may remember what it has seen: its decision on an event is a matter of
/// the event and of its memory, and so is its memory afterwards.
pub trait ExportEventFilter {
    /// What the filter has in mind.
    type Memory;

    /// What the filter has in mind now.
    spec fn memory(&self) -> Self::Memory;

    /// Whether a filter with this memory lets the event stay.
    spec fn admits(memory: Self::Memory, event: ExportEventModel) -> bool;

    /// The memory of a filter with this memory once it has looked at the
    /// event.
    spec fn remembers(memory: Self::Memory, event: ExportEventModel) -> Self::Memory;

    /// Whether the event stays.
    fn should_include(&mut self, event: &ExportEvent) -> (included: bool)
        ensures
            included == Self::admits(old(self).memory(), event@),
            final(self).memory() == Self::remembers(old(self).memory(), event@),
    ;

    /// What the filter does, in a few words.
    spec fn label(&self) -> Seq<char>;

    /// What the filter does, in a few words.
    fn description(&self) -> (text: &str)
        ensures
            text@ == self.label(),
    ;
}

/// The memory of a filter once it has looked at the events, one after the
/// other.
pub open spec fn memory_after<F: ExportEventFilter>(
    memory: F::Memory,
    events: Seq<ExportEventModel>,
) -> F::Memory
    decreases events.len(),
{
    if events.len() == 0 {
        memory
    } else {
        F::remembers(memory_after::<F>(memory, events.drop_last()), events.last())
    }
}

/// For each event, whether a filter that starts with the given memory and
/// looks at the events one after the other lets it stay.
pub open spec fn filter_mask<F: ExportEventFilter>(
    memory: F::Memory,
    events: Seq<ExportEventModel>,
) -> Seq<bool> {
    Seq::new(
        events.len(),
        |i: int| F::admits(memory_after::<F>(memory, events.take(i)), events[i]),
    )
}

/// The filter that lets every event stay.
#[derive(Debug)]
pub struct DefaultFilter;

impl ExportEventFilter for DefaultFilter {
    type Memory = ();

    open spec fn memory(&self) -> () {
        ()
    }

    open spec fn admits(memory: (), event: ExportEventModel) -> bool {
        true
    }

    open spec fn remembers(memory: (), event: ExportEventModel) -> () {
        ()
    }

    fn should_include(&mut self, _event: &ExportEvent) -> (included: bool) {
        true
    }

    open spec fn label(&self) -> Seq<char> {
        "Default filter (includes all events)"@
    }

    fn description(&self) -> (text: &str) {
        "Default filter (includes all events)"
    }
}

/// A filter by what an event holds: each criterion that is given must be
/// met. With `invert` the events that meet the criteria are the ones that
/// go.
#[derive(Debug)]
pub struct MultiCriteriaFilter {
    pub event_type: Option<String>,
    pub user_id: Option<String>,
    pub device_id: Option<String>,
    pub insert_id: Option<String>,
    pub uuid: Option<String>,
    pub start_time: Option<Timestamp>,
    pub end_time: Option<Timestamp>,
    pub invert: bool,
}

/// The criteria of a filter, apart from how they are stored.
pub struct CriteriaModel {
    pub event_type: Option<Seq<char>>,
    pub user_id: Option<Seq<char>>,
    pub device_id: Option<Seq<char>>,
    pub insert_id: Option<Seq<char>>,
    pub uuid: Option<Seq<char>>,
    pub start_time: Option<Timestamp>,
    pub end_time: Option<Timestamp>,
    pub invert: bool,
}

impl View for MultiCriteriaFilter {
    type V = CriteriaModel;

    open spec fn view(&self) -> CriteriaModel {
        CriteriaModel {
            event_type: text_view(self.event_type),
            user_id: text_view(self.user_id),
            device_id: text_view(self.device_id),
            insert_id: text_view(self.insert_id),
            uuid: text_view(self.uuid),
            start_time: self.start_time,
            end_time: self.end_time,
            invert: self.invert,
        }
    }
}

/// A criterion on a text is met: none is given, or the field holds the
/// wanted text.
pub open spec fn text_meets(wanted: Option<Seq<char>>, held: Option<Seq<char>>) -> bool {
    wanted is Some ==> held == wanted
}

/// The event meets every criterion that is given. An event without an event
/// time meets no criterion on the time.
pub open spec fn meets_criteria(c: CriteriaModel, e: ExportEventModel) -> bool {
    &&& text_meets(c.event_type, e.event_type)
    &&& text_meets(c.user_id, e.user_id)
    &&& text_meets(c.device_id, e.device_id)
    &&& text_meets(c.insert_id, e.insert_id)
    &&& text_meets(c.uuid, e.uuid)
    &&& c.start_time matches Some(start) ==> e.event_time matches Some(t) && !t.is_before(start)
    &&& c.end_time matches Some(end) ==> e.event_time matches Some(t) && !end.is_before(t)
}

/// The event stays under the criteria.
pub open spec fn criteria_include(c: CriteriaModel, e: ExportEventModel) -> bool {
    meets_criteria(c, e) != c.invert
}

/// Whether a criterion on a text is met.
fn meets_text(wanted: &Option<String>, held: &Option<String>) -> (met: bool)
    ensures
        met == text_meets(text_view(*wanted), text_view(*held)),
{
    match wanted {
        None => true,
        Some(_) => same_text(wanted, held),
    }
}

impl MultiCriteriaFilter {
    /// A filter with the given criteria.
    pub fn new(
        event_type: Option<String>,
        user_id: Option<String>,
        device_id: Option<String>,
        insert_id: Option<String>,
        uuid: Option<String>,
        start_time: Option<Timestamp>,
        end_time: Option<Timestamp>,
        invert: bool,
    ) -> (filter: Self)
        ensures
            filter@ == (CriteriaModel {
                event_type: text_view(event_type),
                user_id: text_view(user_id),
                device_id: text_view(device_id),
                insert_id: text_view(insert_id),
                uuid: text_view(uuid),
                start_time,
                end_time,
                invert,
            }),
    {
        MultiCriteriaFilter {
            event_type,
            user_id,
            device_id,
            insert_id,
            uuid,
            start_time,
            end_time,
            invert,
        }
    }

    /// The filter with another criterion on the event's name.
    pub fn event_type(self, event_type: Option<String>) -> (filter: Self)
        ensures
            filter@ == (CriteriaModel { event_type: text_view(event_type), ..self@ }),
    {
        let mut filter = self;
        filter.event_type = event_type;
        filter
    }

    /// The filter with another criterion on the user.
    pub fn user_id(self, user_id: Option<String>) -> (filter: Self)
        ensures
            filter@ == (CriteriaModel { user_id: text_view(user_id), ..self@ }),
    {
        let mut filter = self;
        filter.user_id = user_id;
        filter
    }

    /// The filter with another criterion on the device.
    pub fn device_id(self, device_id: Option<String>) -> (filter: Self)
        ensures
            filter@ == (CriteriaModel { device_id: text_view(device_id), ..self@ }),
    {
        let mut filter = self;
        filter.device_id = device_id;
        filter
    }

    /// The filter with another criterion on the insert id.
    pub fn insert_id(self, insert_id: Option<String>) -> (filter: Self)
        ensures
            filter@ == (CriteriaModel { insert_id: text_view(insert_id), ..self@ }),
    {
        let mut filter = self;
        filter.insert_id = insert_id;
        filter
    }

    /// The filter with another criterion on the event's UUID.
    pub fn uuid(self, uuid: Option<String>) -> (filter: Self)
        ensures
            filter@ == (CriteriaModel { uuid: text_view(uuid), ..self@ }),
    {
        let mut filter = self;
        filter.uuid = uuid;
        filter
    }

    /// The filter with another earliest event time.
    pub fn start_time(self, start_time: Option<Timestamp>) -> (filter: Self)
        ensures
            filter@ == (CriteriaModel { start_time, ..self@ }),
    {
        let mut filter = self;
        filter.start_time = start_time;
        filter
    }

    /// The filter with another latest event time.
    pub fn end_time(self, end_time: Option<Timestamp>) -> (filter: Self)
        ensures
            filter@ == (CriteriaModel { end_time, ..self@ }),
    {
        let mut filter = self;
        filter.end_time = end_time;
        filter
    }

    /// The filter that lets go what it let stay, or the other way round.
    pub fn invert(self, invert: bool) -> (filter: Self)
        ensures
            filter@ == (CriteriaModel { invert, ..self@ }),
    {
        let mut filter = self;
        filter.invert = invert;
        filter
    }

    /// Whether the event stays.
    pub fn includes(&self, event: &ExportEvent) -> (included: bool)
        ensures
            included == criteria_include(self@, event@),
    {
        let mut matches = meets_text(&self.event_type, &event.event_type) && meets_text(
            &self.user_id,
            &event.user_id,
        ) && meets_text(&self.device_id, &event.device_id) && meets_text(
            &self.insert_id,
            &event.insert_id,
        ) && meets_text(&self.uuid, &event.uuid);
        match &self.start_time {
            Some(start) => match &event.event_time {
                Some(t) => {
                    matches = matches && !t.before(start);
                },
                None => {
                    matches = false;
                },
            },
            None => {},
        }
        match &self.end_time {
            Some(end) => match &event.event_time {
                Some(t) => {
                    matches = matches && !end.before(t);
                },
                None => {
                    matches = false;
                },
            },
            None => {},
        }
        if self.invert {
            !matches
        } else {
            matches
        }
    }
}

impl ExportEventFilter for MultiCriteriaFilter {
    type Memory = CriteriaModel;

    open spec fn memory(&self) -> CriteriaModel {
        self@
    }

    open spec fn admits(memory: CriteriaModel, event: ExportEventModel) -> bool {
        criteria_include(memory, event)
    }

    open spec fn remembers(memory: CriteriaModel, event: ExportEventModel) -> CriteriaModel {
        memory
    }

    fn should_include(&mut self, event: &ExportEvent) -> (included: bool) {
        self.includes(event)
    }

    open spec fn label(&self) -> Seq<char> {
        "Multi-criteria filter"@
    }

    fn description(&self) -> (text: &str) {
        "Multi-criteria filter"
    }
}

/// A filter against events sent twice by a server. An event whose insert id
/// is a UUID always stays. Of the events with one other insert id only the
/// first stays. An event without an insert id, or with an empty one, goes.
#[derive(Debug)]
pub struct UUIDDeduplicationFilter {
    /// The events seen so far whose insert id is not a UUID, in order.
    pub non_uuid_events: Vec<ExportEvent>,
}

impl View for UUIDDeduplicationFilter {
    type V = Seq<ExportEventModel>;

    open spec fn view(&self) -> Seq<ExportEventModel> {
        events_view(self.non_uuid_events@)
    }
}

/// The event has an insert id that is not empty.
pub open spec fn has_usable_key(e: ExportEventModel) -> bool {
    e.insert_id matches Some(key) && key.len() > 0
}

/// An event with the same insert id was seen.
pub open spec fn seen_before(seen: Seq<ExportEventModel>, e: ExportEventModel) -> bool {
    exists|i: int| 0 <= i < seen.len() && (#[trigger] seen[i]).insert_id == e.insert_id
}

/// The event stays, given the events seen and whether its insert id is a
/// UUID.
pub open spec fn dedup_includes(
    seen: Seq<ExportEventModel>,
    e: ExportEventModel,
    key_is_uuid: bool,
) -> bool {
    has_usable_key(e) && (key_is_uuid || !seen_before(seen, e))
}

/// The events seen once the event has been looked at.
pub open spec fn dedup_remembers(
    seen: Seq<ExportEventModel>,
    e: ExportEventModel,
    key_is_uuid: bool,
) -> Seq<ExportEventModel> {
    if has_usable_key(e) && !key_is_uuid {
        seen.push(e)
    } else {
        seen
    }
}

/// Whether the insert id of an event is a UUID; `false` for an event
/// without one.
pub open spec fn event_key_is_uuid(e: ExportEventModel) -> bool {
    e.insert_id matches Some(key) && parses_as_uuid(key)
}

impl UUIDDeduplicationFilter {
    /// A filter that has seen nothing.
    pub fn new() -> (filter: Self)
        ensures
            filter@ == Seq::<ExportEventModel>::empty(),
    {
        let filter = UUIDDeduplicationFilter { non_uuid_events: Vec::new() };
        assert(filter@ =~= Seq::<ExportEventModel>::empty());
        filter
    }

    /// How many events with an insert id that is not a UUID were seen, and
    /// how many such insert ids.
    pub fn get_stats(&self) -> (stats: (usize, usize))
        ensures
            stats.0 == self@.len(),
            stats.1 == keys_in_order(self@).len(),
    {
        let keys = distinct_insert_ids(&self.non_uuid_events);
        assert(texts_view(keys@).len() == keys@.len());
        (self.non_uuid_events.len(), keys.len())
    }

    /// Whether the event stays, given whether its insert id is a UUID.
    pub fn should_include_given(&mut self, event: &ExportEvent, key_is_uuid: bool) -> (included:
        bool)
        ensures
            included == dedup_includes(old(self)@, event@, key_is_uuid),
            final(self)@ == dedup_remembers(old(self)@, event@, key_is_uuid),
    {
        let ghost seen = self@;
        match &event.insert_id {
            Some(key) => {
                if key.as_str().unicode_len() == 0 {
                    return false;
                }
                if key_is_uuid {
                    return true;
                }
                let mut first = true;
                let mut i: usize = 0;
                while i < self.non_uuid_events.len()
                    invariant
                        i <= self.non_uuid_events.len(),
                        seen == events_view(self.non_uuid_events@),
                        first <==> forall|j: int|
                            0 <= j < i ==> (#[trigger] seen[j]).insert_id != event@.insert_id,
                    decreases self.non_uuid_events.len() - i,
                {
                    assert(seen[i as int] == self.non_uuid_events@[i as int]@);
                    if same_text(&self.non_uuid_events[i].insert_id, &event.insert_id) {
                        first = false;
                    }
                    i += 1;
                }
                self.non_uuid_events.push(event.clone());
                assert(self@ =~= seen.push(event@));
                first
            },
            None => false,
        }
    }
}

impl ExportEventFilter for UUIDDeduplicationFilter {
    type Memory = Seq<ExportEventModel>;

    open spec fn memory(&self) -> Seq<ExportEventModel> {
        self@
    }

    open spec fn admits(memory: Seq<ExportEventModel>, event: ExportEventModel) -> bool {
        dedup_includes(memory, event, event_key_is_uuid(event))
    }

    open spec fn remembers(memory: Seq<ExportEventModel>, event: ExportEventModel) -> Seq<
        ExportEventModel,
    > {
        dedup_remembers(memory, event, event_key_is_uuid(event))
    }

    fn should_include(&mut self, event: &ExportEvent) -> (included: bool) {
        let key_is_uuid = match &event.insert_id {
            Some(key) => is_uuid(key.as_str()),
            None => false,
        };
        self.should_include_given(event, key_is_uuid)
    }

    open spec fn label(&self) -> Seq<char> {
        "UUID-based deduplication filter"@
    }

    fn description(&self) -> (text: &str) {
        "UUID-based deduplication filter"
    }
}

} // verus!
