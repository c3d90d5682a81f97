//! Taking out of a comparison the differences that do not matter.

use crate::export_event::ExportEvent;
use crate::json::{
    copy_json, find_key, index_of_key, json_eq, lemma_index_of_key, lemma_object_model_dom,
    object_model, JsonModel, JsonValue,
};
use crate::names::texts_view;
use crate::transform::diff::value_at;
use vstd::prelude::*;

verus! {

/// What two exports hold in one field of an event.
#[derive(Debug)]
pub struct EventDifference {
    pub comparison: JsonValue,
    pub original: JsonValue,
}

/// The fields in which an event differs between two exports.
#[derive(Debug)]
pub struct Differences {
    pub fields: Vec<(String, EventDifference)>,
}

/// An event that differs between two exports, as a comparison files it.
#[derive(Debug)]
pub struct ComparisonResult {
    pub comparison_event: ExportEvent,
    pub differences: Differences,
    pub insert_id: String,
    pub original_event: ExportEvent,
}

/// What a difference holds, apart from how it is stored.
pub struct DifferenceModel {
    pub comparison: JsonModel,
    pub original: JsonModel,
}

impl View for EventDifference {
    type V = DifferenceModel;

    open spec fn view(&self) -> DifferenceModel {
        DifferenceModel { comparison: self.comparison.model(), original: self.original.model() }
    }
}

/// The names and contents of a list of differences, in order.
pub open spec fn fields_view(fields: Seq<(String, EventDifference)>) -> Seq<
    (Seq<char>, DifferenceModel),
> {
    fields.map_values(|f: (String, EventDifference)| (f.0@, f.1@))
}

/// The field is one that differs whenever an event is uploaded to another
/// project, so that a difference in it does not matter.
pub open spec fn is_non_material(name: Seq<char>) -> bool {
    name == "app"@ || name == "client_upload_time"@ || name == "processed_time"@ || name
        == "server_received_time"@ || name == "uuid"@ || name == "user_properties"@
}

/// The two sets of event properties have the same names, and the property
/// "Property" is not the same in both.
pub open spec fn only_property_name_differs(
    comparison: Map<Seq<char>, JsonModel>,
    original: Map<Seq<char>, JsonModel>,
) -> bool {
    comparison.dom() == original.dom() && value_at(comparison, "Property"@) != value_at(
        original,
        "Property"@,
    )
}

/// The entries of the list whose field matters, in order.
pub open spec fn material_fields(fields: Seq<(Seq<char>, DifferenceModel)>) -> Seq<
    (Seq<char>, DifferenceModel),
>
    decreases fields.len(),
{
    if fields.len() == 0 {
        Seq::empty()
    } else if is_non_material(fields.last().0) {
        material_fields(fields.drop_last())
    } else {
        material_fields(fields.drop_last()).push(fields.last())
    }
}

/// The entries of the list that are not for the given field, in order.
pub open spec fn without_field(fields: Seq<(Seq<char>, DifferenceModel)>, name: Seq<char>) -> Seq<
    (Seq<char>, DifferenceModel),
>
    decreases fields.len(),
{
    if fields.len() == 0 {
        Seq::empty()
    } else if fields.last().0 == name {
        without_field(fields.drop_last(), name)
    } else {
        without_field(fields.drop_last(), name).push(fields.last())
    }
}

/// The first entry of the list for the given field, if there is one.
pub open spec fn first_for_field(fields: Seq<(Seq<char>, DifferenceModel)>, name: Seq<char>) -> Option<
    DifferenceModel,
>
    decreases fields.len(),
{
    if fields.len() == 0 {
        None
    } else {
        match first_for_field(fields.drop_last(), name) {
            Some(d) => Some(d),
            None => if fields.last().0 == name {
                Some(fields.last().1)
            } else {
                None
            },
        }
    }
}

/// The difference in the event properties is one of the display name only,
/// and it can be settled because both events tell when they were uploaded.
pub open spec fn properties_settle(
    fields: Seq<(Seq<char>, DifferenceModel)>,
    both_uploaded: bool,
) -> bool {
    &&& both_uploaded
    &&& first_for_field(fields, "event_properties"@) matches Some(d)
    &&& d.comparison matches JsonModel::Object(c)
    &&& d.original matches JsonModel::Object(o)
    &&& only_property_name_differs(c, o)
}

/// The differences that are left of a list once those that do not matter
/// are taken out: the fields that differ with every upload, and the event
/// properties where only the display name differs.
pub open spec fn cleaned(fields: Seq<(Seq<char>, DifferenceModel)>, both_uploaded: bool) -> Seq<
    (Seq<char>, DifferenceModel),
> {
    let material = material_fields(fields);
    if properties_settle(material, both_uploaded) {
        without_field(material, "event_properties"@)
    } else {
        material
    }
}

/// Something was taken out, or nothing is left.
pub open spec fn was_cleaned(fields: Seq<(Seq<char>, DifferenceModel)>, both_uploaded: bool) -> bool {
    cleaned(fields, both_uploaded).len() != fields.len() || fields.len() == 0
}

/// No list grows by taking entries out.
pub proof fn lemma_taking_out_shrinks(fields: Seq<(Seq<char>, DifferenceModel)>, name: Seq<char>)
    ensures
        material_fields(fields).len() <= fields.len(),
        without_field(fields, name).len() <= fields.len(),
        first_for_field(fields, name) is Some ==> without_field(fields, name).len() < fields.len(),
    decreases fields.len(),
{
    if fields.len() > 0 {
        lemma_taking_out_shrinks(fields.drop_last(), name);
    }
}

/// Whether the field is one in which a difference does not matter.
pub fn is_non_material_field(name: &String) -> (yes: bool)
    ensures
        yes == is_non_material(name@),
{
    *name == "app".to_owned() || *name == "client_upload_time".to_owned() || *name
        == "processed_time".to_owned() || *name == "server_received_time".to_owned() || *name
        == "uuid".to_owned() || *name == "user_properties".to_owned()
}

/// Whether the first list of members has every key of the second.
fn has_all_keys(a: &Vec<(String, JsonValue)>, b: &Vec<(String, JsonValue)>) -> (all: bool)
    ensures
        all <==> forall|key: Seq<char>|
            object_model(b@).dom().contains(key) ==> object_model(a@).dom().contains(key),
{
    let mut i: usize = 0;
    while i < b.len()
        invariant
            i <= b.len(),
            forall|j: int| 0 <= j < i ==> object_model(a@).dom().contains((#[trigger] b@[j]).0@),
        decreases b.len() - i,
    {
        proof {
            lemma_index_of_key(a@, b@[i as int].0@);
            lemma_index_of_key(b@, b@[i as int].0@);
        }
        if find_key(a, &b[i].0).is_none() {
            return false;
        }
        i += 1;
    }
    proof {
        assert forall|key: Seq<char>| object_model(b@).dom().contains(key) implies object_model(
            a@,
        ).dom().contains(key) by {
            lemma_index_of_key(b@, key);
            let j = crate::json::index_of_key(b@, key)->0;
            assert(b@[j].0@ == key);
        }
    }
    true
}

/// Whether two sets of event properties have the same names and differ in
/// the property "Property".
pub fn has_property_name_differences(
    comparison_props: &Vec<(String, JsonValue)>,
    original_props: &Vec<(String, JsonValue)>,
) -> (differs: bool)
    ensures
        differs == only_property_name_differs(
            object_model(comparison_props@),
            object_model(original_props@),
        ),
{
    let ghost c = object_model(comparison_props@);
    let ghost o = object_model(original_props@);
    if !has_all_keys(comparison_props, original_props) {
        assert(c.dom() != o.dom());
        return false;
    }
    if !has_all_keys(original_props, comparison_props) {
        assert(c.dom() != o.dom());
        return false;
    }
    assert(c.dom() =~= o.dom());
    let key = "Property".to_owned();
    proof {
        lemma_index_of_key(comparison_props@, key@);
        lemma_index_of_key(original_props@, key@);
    }
    match (find_key(comparison_props, &key), find_key(original_props, &key)) {
        (Some(i), Some(j)) => !json_eq(&comparison_props[i].1, &original_props[j].1),
        (None, None) => false,
        _ => true,
    }
}

/// A copy of a difference.
fn copy_difference(d: &EventDifference) -> (copy: EventDifference)
    ensures
        copy@ == d@,
{
    EventDifference { comparison: copy_json(&d.comparison), original: copy_json(&d.original) }
}

/// The entries whose field matters.
fn keep_material(fields: &Vec<(String, EventDifference)>) -> (kept: Vec<(String, EventDifference)>)
    ensures
        fields_view(kept@) == material_fields(fields_view(fields@)),
{
    let ghost all = fields_view(fields@);
    let mut kept: Vec<(String, EventDifference)> = Vec::new();
    let mut i: usize = 0;
    assert(all.take(0) =~= Seq::<(Seq<char>, DifferenceModel)>::empty());
    assert(fields_view(kept@) =~= Seq::<(Seq<char>, DifferenceModel)>::empty());
    while i < fields.len()
        invariant
            i <= fields.len(),
            all == fields_view(fields@),
            fields_view(kept@) == material_fields(all.take(i as int)),
        decreases fields.len() - i,
    {
        assert(all.take(i + 1).drop_last() =~= all.take(i as int));
        assert(all.take(i + 1).last() == (fields@[i as int].0@, fields@[i as int].1@));
        if !is_non_material_field(&fields[i].0) {
            let ghost before = fields_view(kept@);
            kept.push((fields[i].0.clone(), copy_difference(&fields[i].1)));
            assert(fields_view(kept@) =~= before.push((fields@[i as int].0@, fields@[i as int].1@)));
        }
        i += 1;
    }
    assert(all.take(fields.len() as int) =~= all);
    kept
}

/// The entries that are not for the given field.
fn drop_field(fields: &Vec<(String, EventDifference)>, name: &str) -> (kept: Vec<
    (String, EventDifference),
>)
    ensures
        fields_view(kept@) == without_field(fields_view(fields@), name@),
{
    let ghost all = fields_view(fields@);
    let wanted = name.to_owned();
    let mut kept: Vec<(String, EventDifference)> = Vec::new();
    let mut i: usize = 0;
    assert(all.take(0) =~= Seq::<(Seq<char>, DifferenceModel)>::empty());
    assert(fields_view(kept@) =~= Seq::<(Seq<char>, DifferenceModel)>::empty());
    while i < fields.len()
        invariant
            i <= fields.len(),
            wanted@ == name@,
            all == fields_view(fields@),
            fields_view(kept@) == without_field(all.take(i as int), name@),
        decreases fields.len() - i,
    {
        assert(all.take(i + 1).drop_last() =~= all.take(i as int));
        assert(all.take(i + 1).last() == (fields@[i as int].0@, fields@[i as int].1@));
        if !(fields[i].0 == wanted) {
            let ghost before = fields_view(kept@);
            kept.push((fields[i].0.clone(), copy_difference(&fields[i].1)));
            assert(fields_view(kept@) =~= before.push((fields@[i as int].0@, fields@[i as int].1@)));
        }
        i += 1;
    }
    assert(all.take(fields.len() as int) =~= all);
    kept
}

/// The place of the first entry for the given field.
fn find_field(fields: &Vec<(String, EventDifference)>, name: &str) -> (place: Option<usize>)
    ensures
        place matches Some(i) ==> i < fields.len() && first_for_field(fields_view(fields@), name@)
            == Some(fields@[i as int].1@),
        place is None ==> first_for_field(fields_view(fields@), name@) is None,
{
    let ghost all = fields_view(fields@);
    let wanted = name.to_owned();
    let mut i: usize = 0;
    assert(all.take(0) =~= Seq::<(Seq<char>, DifferenceModel)>::empty());
    while i < fields.len()
        invariant
            i <= fields.len(),
            wanted@ == name@,
            all == fields_view(fields@),
            first_for_field(all.take(i as int), name@) is None,
        decreases fields.len() - i,
    {
        assert(all.take(i + 1).drop_last() =~= all.take(i as int));
        assert(all.take(i + 1).last() == (fields@[i as int].0@, fields@[i as int].1@));
        if fields[i].0 == wanted {
            proof {
                lemma_first_for_field_prefix(all, i as int + 1, name@);
            }
            return Some(i);
        }
        i += 1;
    }
    assert(all.take(fields.len() as int) =~= all);
    None
}

/// What is found in a part of the list from its start is found in the whole
/// list.
pub proof fn lemma_first_for_field_prefix(
    fields: Seq<(Seq<char>, DifferenceModel)>,
    n: int,
    name: Seq<char>,
)
    requires
        0 <= n <= fields.len(),
        first_for_field(fields.take(n), name) is Some,
    ensures
        first_for_field(fields, name) == first_for_field(fields.take(n), name),
    decreases fields.len() - n,
{
    if n < fields.len() {
        assert(fields.take(n + 1).drop_last() =~= fields.take(n));
        lemma_first_for_field_prefix(fields, n + 1, name);
    } else {
        assert(fields.take(n) =~= fields);
    }
}

/// Takes out of a comparison the differences that do not matter, and says
/// whether it took anything out or nothing is left.
pub fn clean_comparison_result(comparison: &mut ComparisonResult) -> (cleaned_any: bool)
    ensures
        fields_view(final(comparison).differences.fields@) == cleaned(
            fields_view(old(comparison).differences.fields@),
            old(comparison).comparison_event@.client_upload_time is Some && old(
                comparison,
            ).original_event@.client_upload_time is Some,
        ),
        cleaned_any == was_cleaned(
            fields_view(old(comparison).differences.fields@),
            old(comparison).comparison_event@.client_upload_time is Some && old(
                comparison,
            ).original_event@.client_upload_time is Some,
        ),
        final(comparison).insert_id == old(comparison).insert_id,
        final(comparison).comparison_event == old(comparison).comparison_event,
        final(comparison).original_event == old(comparison).original_event,
{
    let ghost before = fields_view(comparison.differences.fields@);
    let count = comparison.differences.fields.len();
    assert(before.len() == count);
    let both_uploaded = comparison.comparison_event.client_upload_time.is_some()
        && comparison.original_event.client_upload_time.is_some();
    let material = keep_material(&comparison.differences.fields);
    let settle = both_uploaded && match find_field(&material, "event_properties") {
        Some(i) => match (&material[i].1.comparison, &material[i].1.original) {
            (JsonValue::Object(c), JsonValue::Object(o)) => has_property_name_differences(c, o),
            _ => false,
        },
        None => false,
    };
    assert(settle == properties_settle(fields_view(material@), both_uploaded));
    let left = if settle {
        drop_field(&material, "event_properties")
    } else {
        material
    };
    proof {
        lemma_taking_out_shrinks(before, "event_properties"@);
        lemma_taking_out_shrinks(material_fields(before), "event_properties"@);
        assert(fields_view(left@).len() == left@.len());
    }
    let cleaned_any = left.len() != count || count == 0;
    comparison.differences.fields = left;
    cleaned_any
}

/// The map holds the value under some key.
pub open spec fn holds_value(map: Map<Seq<char>, JsonModel>, value: JsonModel) -> bool {
    exists|key: Seq<char>| map.dom().contains(key) && #[trigger] map[key] == value
}

/// The two maps hold the same values, under whatever keys.
pub open spec fn same_values(a: Map<Seq<char>, JsonModel>, b: Map<Seq<char>, JsonModel>) -> bool {
    forall|value: JsonModel| holds_value(a, value) == holds_value(b, value)
}

/// The keys that exactly one of the two maps has.
pub open spec fn keys_of_one(a: Map<Seq<char>, JsonModel>, b: Map<Seq<char>, JsonModel>) -> Set<
    Seq<char>,
> {
    Set::new(|key: Seq<char>| a.dom().contains(key) != b.dom().contains(key))
}

/// The names that differ between two sets of event properties that hold the
/// same values: the keys that only one of them has. `None` where the sets
/// are not of the same size, do not hold the same values, or have the same
/// keys.
pub open spec fn differing_names(
    comparison: Map<Seq<char>, JsonModel>,
    original: Map<Seq<char>, JsonModel>,
) -> Option<Set<Seq<char>>> {
    if comparison.dom().len() != original.dom().len() {
        None
    } else if same_values(comparison, original) && comparison.dom() != original.dom() {
        Some(keys_of_one(comparison, original))
    } else {
        None
    }
}

/// How many of the members are the first with their key.
pub open spec fn key_count(members: Seq<(String, JsonValue)>) -> nat
    decreases members.len(),
{
    if members.len() == 0 {
        0
    } else if index_of_key(members.drop_last(), members.last().0@) is None {
        key_count(members.drop_last()) + 1
    } else {
        key_count(members.drop_last())
    }
}

/// An object has as many keys as its list of members has first members.
pub proof fn lemma_key_count(members: Seq<(String, JsonValue)>)
    ensures
        object_model(members).dom().finite(),
        object_model(members).dom().len() == key_count(members),
    decreases members.len(),
{
    if members.len() == 0 {
        assert(object_model(members).dom() =~= Set::<Seq<char>>::empty());
    } else {
        let rest = members.drop_last();
        let key = members.last().0@;
        lemma_key_count(rest);
        lemma_index_of_key(rest, key);
        assert(object_model(members).dom() =~= object_model(rest).dom().insert(key)) by {
            assert forall|k: Seq<char>|
                object_model(members).dom().contains(k) <==> object_model(rest).dom().insert(
                    key,
                ).contains(k) by {
                lemma_object_model_dom(members, k);
                lemma_object_model_dom(rest, k);
                if object_model(members).dom().contains(k) {
                    let i = choose|i: int| 0 <= i < members.len() && (#[trigger] members[i]).0@ == k;
                    if i < rest.len() {
                        assert(rest[i].0@ == k);
                    }
                }
                if object_model(rest).dom().contains(k) {
                    let i = choose|i: int| 0 <= i < rest.len() && (#[trigger] rest[i]).0@ == k;
                    assert(members[i].0@ == k);
                }
                if k == key {
                    assert(members[members.len() - 1].0@ == k);
                }
            }
        }
    }
}

/// What is found in the whole list before a place is found in the part of
/// the list before that place, and nothing else is.
pub proof fn lemma_index_of_key_prefix(members: Seq<(String, JsonValue)>, n: int, key: Seq<char>)
    requires
        0 <= n <= members.len(),
    ensures
        index_of_key(members.take(n), key) is Some <==> (index_of_key(members, key) matches Some(p)
            && p < n),
{
    lemma_index_of_key(members, key);
    lemma_index_of_key(members.take(n), key);
    let part = members.take(n);
    if let Some(p) = index_of_key(members, key) {
        if p < n {
            assert(part[p].0@ == key);
        }
    }
    if let Some(q) = index_of_key(part, key) {
        assert(members[q].0@ == key);
    }
}

/// How many keys the members have.
pub fn count_keys(members: &Vec<(String, JsonValue)>) -> (count: usize)
    ensures
        count == object_model(members@).dom().len(),
{
    let mut count: usize = 0;
    let mut i: usize = 0;
    assert(members@.take(0) =~= Seq::<(String, JsonValue)>::empty());
    while i < members.len()
        invariant
            i <= members.len(),
            count == key_count(members@.take(i as int)),
            count <= i,
        decreases members.len() - i,
    {
        assert(members@.take(i + 1).drop_last() =~= members@.take(i as int));
        assert(members@.take(i + 1).last() == members@[i as int]);
        proof {
            lemma_index_of_key_prefix(members@, i as int, members@[i as int].0@);
            lemma_index_of_key(members@, members@[i as int].0@);
        }
        let first = match find_key(members, &members[i].0) {
            Some(p) => p == i,
            None => false,
        };
        if first {
            count += 1;
        }
        i += 1;
    }
    assert(members@.take(members.len() as int) =~= members@);
    proof {
        lemma_key_count(members@);
    }
    count
}

/// Whether the members hold the value under some key.
pub fn value_held(members: &Vec<(String, JsonValue)>, value: &JsonValue) -> (held: bool)
    ensures
        held == holds_value(object_model(members@), value.model()),
{
    let ghost map = object_model(members@);
    let mut j: usize = 0;
    while j < members.len()
        invariant
            j <= members.len(),
            map == object_model(members@),
            forall|p: int|
                0 <= p < j && index_of_key(members@, (#[trigger] members@[p]).0@) == Some(p)
                    ==> members@[p].1.model() != value.model(),
        decreases members.len() - j,
    {
        proof {
            lemma_index_of_key(members@, members@[j as int].0@);
        }
        let first = match find_key(members, &members[j].0) {
            Some(p) => p == j,
            None => false,
        };
        if first && json_eq(&members[j].1, value) {
            assert(map.dom().contains(members@[j as int].0@) && map[members@[j as int].0@]
                == value.model());
            return true;
        }
        j += 1;
    }
    proof {
        assert forall|key: Seq<char>| map.dom().contains(key) implies #[trigger] map[key]
            != value.model() by {
            lemma_index_of_key(members@, key);
            let p = index_of_key(members@, key)->0;
            assert(members@[p].0@ == key);
        }
    }
    false
}

/// Whether the second list of members holds every value of the first.
fn all_values_held(a: &Vec<(String, JsonValue)>, b: &Vec<(String, JsonValue)>) -> (all: bool)
    ensures
        all <==> forall|value: JsonModel|
            holds_value(object_model(a@), value) ==> holds_value(object_model(b@), value),
{
    let ghost ma = object_model(a@);
    let ghost mb = object_model(b@);
    let mut i: usize = 0;
    while i < a.len()
        invariant
            i <= a.len(),
            ma == object_model(a@),
            mb == object_model(b@),
            forall|p: int|
                0 <= p < i && index_of_key(a@, (#[trigger] a@[p]).0@) == Some(p) ==> holds_value(
                    mb,
                    a@[p].1.model(),
                ),
        decreases a.len() - i,
    {
        proof {
            lemma_index_of_key(a@, a@[i as int].0@);
        }
        let first = match find_key(a, &a[i].0) {
            Some(p) => p == i,
            None => false,
        };
        if first && !value_held(b, &a[i].1) {
            assert(ma.dom().contains(a@[i as int].0@) && ma[a@[i as int].0@] == a@[i as int].1.model());
            assert(holds_value(ma, a@[i as int].1.model()));
            return false;
        }
        i += 1;
    }
    proof {
        assert forall|value: JsonModel| holds_value(ma, value) implies holds_value(mb, value) by {
            let key = choose|key: Seq<char>| ma.dom().contains(key) && #[trigger] ma[key] == value;
            lemma_index_of_key(a@, key);
            let p = index_of_key(a@, key)->0;
            assert(a@[p].0@ == key);
        }
    }
    true
}

/// Whether two sets of event properties hold the same values, under
/// whatever names.
pub fn have_identical_values(
    comparison_props: &Vec<(String, JsonValue)>,
    original_props: &Vec<(String, JsonValue)>,
) -> (same: bool)
    ensures
        same == same_values(object_model(comparison_props@), object_model(original_props@)),
{
    all_values_held(comparison_props, original_props) && all_values_held(
        original_props,
        comparison_props,
    )
}

/// What one more name changes in what a list of names holds.
proof fn lemma_push_name(names: Seq<Seq<char>>, name: Seq<char>, key: Seq<char>)
    ensures
        names.push(name).contains(key) <==> names.contains(key) || key == name,
        names.no_duplicates() && !names.contains(name) ==> names.push(name).no_duplicates(),
{
    let longer = names.push(name);
    if names.contains(key) {
        let n = choose|n: int| 0 <= n < names.len() && names[n] == key;
        assert(longer[n] == key);
    }
    if key == name {
        assert(longer[names.len() as int] == key);
    }
    if longer.contains(key) {
        let n = choose|n: int| 0 <= n < longer.len() && longer[n] == key;
        if n < names.len() {
            assert(names[n] == key);
        }
    }
    if names.no_duplicates() && !names.contains(name) {
        assert forall|i: int, j: int| 0 <= i < longer.len() && 0 <= j < longer.len() && i
            != j implies longer[i] != longer[j] by {
            if i < names.len() && j < names.len() {
                assert(names[i] != names[j]);
            } else if i < names.len() {
                assert(names.contains(names[i]));
            } else if j < names.len() {
                assert(names.contains(names[j]));
            }
        }
    }
}

/// The key is first held by one of the first `n` members, and the map does
/// not have it.
pub open spec fn taken_from(
    members: Seq<(String, JsonValue)>,
    other: Map<Seq<char>, JsonModel>,
    key: Seq<char>,
    n: int,
) -> bool {
    index_of_key(members, key) is Some && index_of_key(members, key)->0 < n && !other.dom().contains(
        key,
    )
}

/// The keys of the first list of members that the second does not have,
/// each once, put behind `names`.
fn push_keys_missing_in(
    names: &mut Vec<String>,
    a: &Vec<(String, JsonValue)>,
    b: &Vec<(String, JsonValue)>,
)
    requires
        forall|key: Seq<char>| #[trigger]
            texts_view(old(names)@).contains(key) ==> !object_model(a@).dom().contains(key),
        texts_view(old(names)@).no_duplicates(),
    ensures
        texts_view(final(names)@).no_duplicates(),
        forall|key: Seq<char>| #[trigger]
            texts_view(final(names)@).contains(key) <==> texts_view(old(names)@).contains(key) || (
            object_model(a@).dom().contains(key) && !object_model(b@).dom().contains(key)),
{
    let ghost ma = object_model(a@);
    let ghost mb = object_model(b@);
    let ghost start = texts_view(names@);
    let mut i: usize = 0;
    assert forall|key: Seq<char>| #[trigger]
        texts_view(names@).contains(key) <==> start.contains(key) || taken_from(
            a@,
            mb,
            key,
            0,
        ) by {
        lemma_index_of_key(a@, key);
    }
    while i < a.len()
        invariant
            i <= a.len(),
            ma == object_model(a@),
            mb == object_model(b@),
            texts_view(names@).no_duplicates(),
            forall|key: Seq<char>| #[trigger]
                texts_view(names@).contains(key) <==> start.contains(key) || taken_from(
                    a@,
                    mb,
                    key,
                    i as int,
                ),
            forall|key: Seq<char>| #[trigger] start.contains(key) ==> !ma.dom().contains(key),
        decreases a.len() - i,
    {
        let ghost key = a@[i as int].0@;
        let ghost before = texts_view(names@);
        proof {
            lemma_index_of_key(a@, key);
            lemma_index_of_key(b@, key);
        }
        let first = match find_key(a, &a[i].0) {
            Some(p) => p == i,
            None => false,
        };
        if first && find_key(b, &a[i].0).is_none() {
            proof {
                assert(index_of_key(a@, key) == Some(i as int));
                assert(ma.dom().contains(key));
                assert(before.contains(key) <==> start.contains(key) || taken_from(
                    a@,
                    mb,
                    key,
                    i as int,
                ));
                assert(!before.contains(key));
            }
            names.push(a[i].0.clone());
            proof {
                let after = texts_view(names@);
                assert(after =~= before.push(key));
                lemma_push_name(before, key, key);
                assert forall|k: Seq<char>| #[trigger]
                    after.contains(k) <==> start.contains(k) || taken_from(a@, mb, k, i + 1) by {
                    lemma_index_of_key(a@, k);
                    lemma_push_name(before, key, k);
                    assert(before.contains(k) <==> start.contains(k) || taken_from(
                        a@,
                        mb,
                        k,
                        i as int,
                    ));
                }
            }
        } else {
            proof {
                assert forall|k: Seq<char>| #[trigger]
                    before.contains(k) <==> start.contains(k) || taken_from(a@, mb, k, i + 1) by {
                    lemma_index_of_key(a@, k);
                    assert(before.contains(k) <==> start.contains(k) || taken_from(
                        a@,
                        mb,
                        k,
                        i as int,
                    ));
                }
            }
        }
        i += 1;
    }
    proof {
        assert forall|key: Seq<char>| #[trigger]
            texts_view(names@).contains(key) <==> start.contains(key) || (ma.dom().contains(key)
                && !mb.dom().contains(key)) by {
            lemma_index_of_key(a@, key);
            assert(texts_view(names@).contains(key) <==> start.contains(key) || taken_from(
                a@,
                mb,
                key,
                a.len() as int,
            ));
        }
    }
}

/// The names that differ between two sets of event properties that hold the
/// same values: each key that only one of them has, once.
pub fn get_differing_property_names(
    comparison_props: &Vec<(String, JsonValue)>,
    original_props: &Vec<(String, JsonValue)>,
) -> (names: Option<Vec<String>>)
    ensures
        names is Some == differing_names(
            object_model(comparison_props@),
            object_model(original_props@),
        ) is Some,
        names matches Some(list) ==> texts_view(list@).no_duplicates() && forall|key: Seq<char>|
            texts_view(list@).contains(key) <==> keys_of_one(
                object_model(comparison_props@),
                object_model(original_props@),
            ).contains(key),
{
    let ghost c = object_model(comparison_props@);
    let ghost o = object_model(original_props@);
    if count_keys(comparison_props) != count_keys(original_props) {
        return None;
    }
    if !have_identical_values(comparison_props, original_props) {
        return None;
    }
    let mut names: Vec<String> = Vec::new();
    assert(texts_view(names@) =~= Seq::<Seq<char>>::empty());
    push_keys_missing_in(&mut names, comparison_props, original_props);
    push_keys_missing_in(&mut names, original_props, comparison_props);
    if names.len() == 0 {
        proof {
            assert forall|key: Seq<char>| c.dom().contains(key) == o.dom().contains(key) by {
                if c.dom().contains(key) != o.dom().contains(key) {
                    assert(texts_view(names@).contains(key));
                }
            }
            assert(c.dom() =~= o.dom());
        }
        return None;
    }
    proof {
        let key = texts_view(names@)[0];
        assert(texts_view(names@).contains(key));
        assert(c.dom().contains(key) != o.dom().contains(key));
    }
    Some(names)
}

} // verus!
