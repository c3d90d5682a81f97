//! The fields in which two records differ.

use crate::export_json::{lemma_object_model_is_pairs_map, members_view, pairs_map};
use crate::fields::json_view;
use crate::json::{
    copy_json, find_key, index_of_key, json_eq, lemma_index_of_key, object_model, JsonModel,
    JsonValue,
};
use vstd::prelude::*;

verus! {

/// One field in which two records differ, with what each record holds
/// there; `None` where a record does not have the field.
#[derive(Debug)]
pub struct FieldDifference {
    pub key: String,
    pub event1_value: Option<JsonValue>,
    pub event2_value: Option<JsonValue>,
}

/// What a map holds under a key, if it holds anything.
pub open spec fn value_at(map: Map<Seq<char>, JsonModel>, key: Seq<char>) -> Option<JsonModel> {
    if map.dom().contains(key) {
        Some(map[key])
    } else {
        None
    }
}

/// The two maps do not hold the same under the key: one holds a value and
/// the other another or none.
pub open spec fn differs_at(
    a: Map<Seq<char>, JsonModel>,
    b: Map<Seq<char>, JsonModel>,
    key: Seq<char>,
) -> bool {
    value_at(a, key) != value_at(b, key)
}

/// The keys under which the two maps do not hold the same.
pub open spec fn changed_keys(a: Map<Seq<char>, JsonModel>, b: Map<Seq<char>, JsonModel>) -> Set<
    Seq<char>,
> {
    Set::new(|key: Seq<char>| differs_at(a, b, key))
}

/// The list of differences has an entry for the key.
pub open spec fn reports(diffs: Seq<FieldDifference>, key: Seq<char>) -> bool {
    exists|i: int| 0 <= i < diffs.len() && (#[trigger] diffs[i]).key@ == key
}

/// The entry names a key under which the maps differ and holds what each map
/// has there.
pub open spec fn entry_holds(
    entry: FieldDifference,
    a: Map<Seq<char>, JsonModel>,
    b: Map<Seq<char>, JsonModel>,
) -> bool {
    &&& differs_at(a, b, entry.key@)
    &&& json_view(entry.event1_value) == value_at(a, entry.key@)
    &&& json_view(entry.event2_value) == value_at(b, entry.key@)
}

/// No two entries of the list are for the same key.
pub open spec fn one_entry_per_key(diffs: Seq<FieldDifference>) -> bool {
    forall|i: int, j: int|
        0 <= i < j < diffs.len() ==> (#[trigger] diffs[i]).key@ != (#[trigger] diffs[j]).key@
}

/// The list is the difference of the two maps: one entry for each key under
/// which they differ, none for another key, and each entry with what the
/// maps hold under its key.
pub open spec fn is_diff_of(
    diffs: Seq<FieldDifference>,
    a: Map<Seq<char>, JsonModel>,
    b: Map<Seq<char>, JsonModel>,
) -> bool {
    &&& forall|key: Seq<char>| #[trigger] reports(diffs, key) <==> differs_at(a, b, key)
    &&& forall|i: int| 0 <= i < diffs.len() ==> entry_holds(#[trigger] diffs[i], a, b)
    &&& one_entry_per_key(diffs)
}

/// The place of the first pair with the given key, if there is one.
pub open spec fn first_place(pairs: Seq<(Seq<char>, JsonModel)>, key: Seq<char>) -> Option<int>
    decreases pairs.len(),
{
    if pairs.len() == 0 {
        None
    } else if pairs[0].0 == key {
        Some(0)
    } else {
        match first_place(pairs.drop_first(), key) {
            Some(i) => Some(i + 1),
            None => None,
        }
    }
}

/// What an entry holds, apart from how it is stored: the key, and what each
/// record has under it.
pub open spec fn entry_view(entry: FieldDifference) -> (
    Seq<char>,
    Option<JsonModel>,
    Option<JsonModel>,
) {
    (entry.key@, json_view(entry.event1_value), json_view(entry.event2_value))
}

/// The contents of a list of entries, in order.
pub open spec fn entries_view(diffs: Seq<FieldDifference>) -> Seq<
    (Seq<char>, Option<JsonModel>, Option<JsonModel>),
> {
    diffs.map_values(|d: FieldDifference| entry_view(d))
}

/// The entries for the keys of the first `n` pairs of the first record: one
/// for each key that stands there for the first time and under which the
/// second record does not hold the same, in the order of the pairs.
pub open spec fn left_entries(
    a: Seq<(Seq<char>, JsonModel)>,
    b: Seq<(Seq<char>, JsonModel)>,
    n: int,
) -> Seq<(Seq<char>, Option<JsonModel>, Option<JsonModel>)>
    decreases n,
{
    if n <= 0 {
        Seq::empty()
    } else {
        let before = left_entries(a, b, n - 1);
        let pair = a[n - 1];
        if first_place(a, pair.0) == Some(n - 1) && value_at(pairs_map(b), pair.0) != Some(
            pair.1,
        ) {
            before.push((pair.0, Some(pair.1), value_at(pairs_map(b), pair.0)))
        } else {
            before
        }
    }
}

/// The entries for the keys of the first `n` pairs of the second record that
/// the first record does not have: one for each such key that stands there
/// for the first time, in the order of the pairs.
pub open spec fn right_entries(
    a: Seq<(Seq<char>, JsonModel)>,
    b: Seq<(Seq<char>, JsonModel)>,
    n: int,
) -> Seq<(Seq<char>, Option<JsonModel>, Option<JsonModel>)>
    decreases n,
{
    if n <= 0 {
        Seq::empty()
    } else {
        let before = right_entries(a, b, n - 1);
        let pair = b[n - 1];
        if first_place(b, pair.0) == Some(n - 1) && !pairs_map(a).dom().contains(pair.0) {
            before.push((pair.0, None, Some(pair.1)))
        } else {
            before
        }
    }
}

/// The differences between two records in the order in which they are
/// reported: first the keys of the first record, in its order, then the keys
/// that only the second record has, in its order.
pub open spec fn diff_entries(a: Seq<(Seq<char>, JsonModel)>, b: Seq<(Seq<char>, JsonModel)>) -> Seq<
    (Seq<char>, Option<JsonModel>, Option<JsonModel>),
> {
    left_entries(a, b, a.len() as int) + right_entries(a, b, b.len() as int)
}

/// The first member with a key stands where the first pair with the key
/// stands.
pub proof fn lemma_first_place(members: Seq<(String, JsonValue)>, key: Seq<char>)
    ensures
        first_place(members_view(members), key) == index_of_key(members, key),
    decreases members.len(),
{
    if members.len() > 0 {
        lemma_first_place(members.drop_first(), key);
        assert(members_view(members).drop_first() =~= members_view(members.drop_first()));
    }
}

/// What one more entry changes in what a list reports.
proof fn lemma_reports_push(diffs: Seq<FieldDifference>, entry: FieldDifference, key: Seq<char>)
    ensures
        reports(diffs.push(entry), key) <==> reports(diffs, key) || key == entry.key@,
{
    let longer = diffs.push(entry);
    if reports(diffs, key) {
        let i = choose|i: int| 0 <= i < diffs.len() && (#[trigger] diffs[i]).key@ == key;
        assert(longer[i].key@ == key);
    }
    if key == entry.key@ {
        assert(longer[diffs.len() as int].key@ == key);
    }
    if reports(longer, key) {
        let i = choose|i: int| 0 <= i < longer.len() && (#[trigger] longer[i]).key@ == key;
        if i < diffs.len() {
            assert(diffs[i].key@ == key);
        }
    }
}

/// The differences between two lists of members, read as maps.
pub fn object_differences(a: &Vec<(String, JsonValue)>, b: &Vec<(String, JsonValue)>) -> (diffs:
    Vec<FieldDifference>)
    ensures
        is_diff_of(diffs@, object_model(a@), object_model(b@)),
        entries_view(diffs@) == diff_entries(members_view(a@), members_view(b@)),
{
    let ghost ma = object_model(a@);
    let ghost mb = object_model(b@);
    let ghost pa = members_view(a@);
    let ghost pb = members_view(b@);
    proof {
        lemma_object_model_is_pairs_map(a@);
        lemma_object_model_is_pairs_map(b@);
    }
    let mut diffs: Vec<FieldDifference> = Vec::new();
    let mut i: usize = 0;
    assert(entries_view(diffs@) =~= left_entries(pa, pb, 0));
    while i < a.len()
        invariant
            i <= a.len(),
            ma == object_model(a@),
            mb == object_model(b@),
            pa == members_view(a@),
            pb == members_view(b@),
            ma == pairs_map(pa),
            mb == pairs_map(pb),
            entries_view(diffs@) == left_entries(pa, pb, i as int),
            forall|d: int| 0 <= d < diffs@.len() ==> entry_holds(#[trigger] diffs@[d], ma, mb),
            forall|d: int|
                0 <= d < diffs@.len() ==> (index_of_key(a@, (#[trigger] diffs@[d]).key@) matches Some(
                    p,
                ) && p < i),
            forall|p: int|
                0 <= p < i && differs_at(ma, mb, (#[trigger] a@[p]).0@) ==> reports(
                    diffs@,
                    a@[p].0@,
                ),
            one_entry_per_key(diffs@),
        decreases a.len() - i,
    {
        let ghost key = a@[i as int].0@;
        let ghost before = diffs@;
        proof {
            lemma_index_of_key(a@, key);
            lemma_index_of_key(b@, key);
            lemma_first_place(a@, key);
            assert(pa[i as int] == (key, a@[i as int].1.model()));
        }
        let first = find_key(a, &a[i].0);
        let is_first = match first {
            Some(p) => p == i,
            None => false,
        };
        if is_first {
            let other = find_key(b, &a[i].0);
            let differs = match other {
                Some(q) => !json_eq(&a[i].1, &b[q].1),
                None => true,
            };
            if differs {
                let entry = FieldDifference {
                    key: a[i].0.clone(),
                    event1_value: Some(copy_json(&a[i].1)),
                    event2_value: match other {
                        Some(q) => Some(copy_json(&b[q].1)),
                        None => None,
                    },
                };
                assert(entry_holds(entry, ma, mb));
                diffs.push(entry);
                assert(entries_view(diffs@) =~= entries_view(before).push(entry_view(entry)));
                proof {
                    assert forall|p: int|
                        0 <= p < i + 1 && differs_at(ma, mb, (#[trigger] a@[p]).0@) implies reports(
                        diffs@,
                        a@[p].0@,
                    ) by {
                        lemma_reports_push(before, entry, a@[p].0@);
                    }
                }
            }
        } else {
            proof {
                let p0 = index_of_key(a@, key)->0;
                assert(a@[p0].0@ == key);
            }
        }
        i += 1;
    }
    proof {
        assert forall|d: int| 0 <= d < diffs@.len() implies ma.dom().contains(
            (#[trigger] diffs@[d]).key@,
        ) by {
            lemma_index_of_key(a@, diffs@[d].key@);
        }
    }
    let ghost left = entries_view(diffs@);
    let mut j: usize = 0;
    assert(entries_view(diffs@) =~= left + right_entries(pa, pb, 0));
    while j < b.len()
        invariant
            j <= b.len(),
            ma == object_model(a@),
            mb == object_model(b@),
            pa == members_view(a@),
            pb == members_view(b@),
            ma == pairs_map(pa),
            mb == pairs_map(pb),
            left == left_entries(pa, pb, a.len() as int),
            entries_view(diffs@) == left + right_entries(pa, pb, j as int),
            forall|d: int| 0 <= d < diffs@.len() ==> entry_holds(#[trigger] diffs@[d], ma, mb),
            forall|d: int|
                0 <= d < diffs@.len() ==> ma.dom().contains((#[trigger] diffs@[d]).key@) || (
                index_of_key(b@, diffs@[d].key@) matches Some(q) && q < j),
            forall|p: int|
                0 <= p < a.len() && differs_at(ma, mb, (#[trigger] a@[p]).0@) ==> reports(
                    diffs@,
                    a@[p].0@,
                ),
            forall|q: int|
                0 <= q < j && !ma.dom().contains((#[trigger] b@[q]).0@) ==> reports(
                    diffs@,
                    b@[q].0@,
                ),
            one_entry_per_key(diffs@),
        decreases b.len() - j,
    {
        let ghost key = b@[j as int].0@;
        let ghost before = diffs@;
        proof {
            lemma_index_of_key(a@, key);
            lemma_index_of_key(b@, key);
            lemma_first_place(b@, key);
            assert(pb[j as int] == (key, b@[j as int].1.model()));
            assert forall|d: int| 0 <= d < before.len() implies ma.dom().contains(
                (#[trigger] before[d]).key@,
            ) || (index_of_key(b@, before[d].key@) matches Some(q) && q < j) by {
                lemma_index_of_key(a@, before[d].key@);
            }
        }
        let first = find_key(b, &b[j].0);
        let is_first = match first {
            Some(q) => q == j,
            None => false,
        };
        if is_first && find_key(a, &b[j].0).is_none() {
            let entry = FieldDifference {
                key: b[j].0.clone(),
                event1_value: None,
                event2_value: Some(copy_json(&b[j].1)),
            };
            assert(entry_holds(entry, ma, mb));
            diffs.push(entry);
            assert(entries_view(diffs@) =~= entries_view(before).push(entry_view(entry)));
            assert(left + right_entries(pa, pb, j as int).push(entry_view(entry)) =~= (left
                + right_entries(pa, pb, j as int)).push(entry_view(entry)));
            proof {
                assert forall|p: int|
                    0 <= p < a.len() && differs_at(ma, mb, (#[trigger] a@[p]).0@) implies reports(
                    diffs@,
                    a@[p].0@,
                ) by {
                    lemma_reports_push(before, entry, a@[p].0@);
                }
                assert forall|q: int|
                    0 <= q < j + 1 && !ma.dom().contains((#[trigger] b@[q]).0@) implies reports(
                    diffs@,
                    b@[q].0@,
                ) by {
                    lemma_reports_push(before, entry, b@[q].0@);
                }
            }
        } else {
            proof {
                if !ma.dom().contains(key) {
                    let q0 = index_of_key(b@, key)->0;
                    assert(b@[q0].0@ == key);
                }
            }
        }
        j += 1;
    }
    proof {
        assert forall|key: Seq<char>| #[trigger] reports(diffs@, key) <==> differs_at(
            ma,
            mb,
            key,
        ) by {
            lemma_index_of_key(a@, key);
            lemma_index_of_key(b@, key);
            if reports(diffs@, key) {
                let d = choose|d: int| 0 <= d < diffs@.len() && (#[trigger] diffs@[d]).key@ == key;
                assert(entry_holds(diffs@[d], ma, mb));
            }
            if differs_at(ma, mb, key) {
                if ma.dom().contains(key) {
                    let p = index_of_key(a@, key)->0;
                    assert(a@[p].0@ == key);
                } else {
                    let q = index_of_key(b@, key)->0;
                    assert(b@[q].0@ == key);
                }
            }
        }
    }
    diffs
}

/// The two maps differ under the same keys whichever is taken first, and
/// what they hold there changes places.
pub proof fn law_diff_is_symmetric(a: Map<Seq<char>, JsonModel>, b: Map<Seq<char>, JsonModel>)
    ensures
        changed_keys(a, b) == changed_keys(b, a),
        forall|key: Seq<char>| differs_at(a, b, key) == differs_at(b, a, key),
{
    assert(changed_keys(a, b) =~= changed_keys(b, a));
}

/// Against a record without properties every property of the other record
/// is a difference, and nothing else is.
pub proof fn law_diff_against_nothing(b: Map<Seq<char>, JsonModel>)
    ensures
        changed_keys(Map::empty(), b) == b.dom(),
        changed_keys(b, Map::empty()) == b.dom(),
{
    assert(changed_keys(Map::empty(), b) =~= b.dom());
    assert(changed_keys(b, Map::empty()) =~= b.dom());
}

/// Two maps differ nowhere exactly when they are the same map.
pub proof fn law_no_difference_means_equal(
    a: Map<Seq<char>, JsonModel>,
    b: Map<Seq<char>, JsonModel>,
)
    ensures
        changed_keys(a, b) == Set::<Seq<char>>::empty() <==> a == b,
{
    if changed_keys(a, b) == Set::<Seq<char>>::empty() {
        assert forall|key: Seq<char>| a.dom().contains(key) == b.dom().contains(key) by {
            assert(!changed_keys(a, b).contains(key));
        }
        assert forall|key: Seq<char>| #[trigger] a.dom().contains(key) implies a[key]
            == b[key] by {
            assert(!changed_keys(a, b).contains(key));
        }
        assert(a =~= b);
    }
    if a == b {
        assert(changed_keys(a, b) =~= Set::<Seq<char>>::empty());
    }
}

/// A list that is the difference of two maps reports exactly the keys under
/// which they differ.
pub proof fn law_diff_reports_changed_keys(
    diffs: Seq<FieldDifference>,
    a: Map<Seq<char>, JsonModel>,
    b: Map<Seq<char>, JsonModel>,
)
    requires
        is_diff_of(diffs, a, b),
    ensures
        Set::new(|key: Seq<char>| reports(diffs, key)) == changed_keys(a, b),
        diffs.len() == 0 <==> a == b,
{
    assert(Set::new(|key: Seq<char>| reports(diffs, key)) =~= changed_keys(a, b));
    law_no_difference_means_equal(a, b);
    if diffs.len() == 0 {
        assert forall|key: Seq<char>| !changed_keys(a, b).contains(key) by {
            assert(!reports(diffs, key));
        }
        assert(changed_keys(a, b) =~= Set::<Seq<char>>::empty());
    }
    if a == b && diffs.len() > 0 {
        assert(entry_holds(diffs[0], a, b));
    }
}

} // verus!
