//! Two exports side by side, insert id by insert id.

use crate::export_event::{events_view, same_event, ExportEvent, ExportEventModel};
use crate::export_json::{flatten, record_map};
use crate::names::texts_view;
use crate::transform::diff::{diff_entries, entries_view, is_diff_of, FieldDifference};
use crate::transform::dupe_analyzer::find_event_differences;
use crate::transform::grouping::{
    count_without_insert_id, distinct_insert_ids, events_without_key, find_last_with_key,
    keys_in_order, last_place_with_key, last_with_key, lemma_keys_in_order,
    lemma_last_place_with_key,
};
use vstd::prelude::*;

verus! {

/// How an insert id stands in two exports.
#[derive(Clone, Copy, Debug, PartialEq, Eq, Structural)]
pub enum Standing {
    /// Both exports have it, and their events agree in all that is not
    /// volatile.
    Identical,
    /// Both exports have it, and their events differ.
    Different,
    /// Only the first export has it.
    OnlyInOriginal,
    /// Only the second export has it.
    OnlyInComparison,
}

/// How the insert id stands in the two exports; `None` where neither has it.
/// Of several events with one insert id in one export, the last counts.
pub open spec fn standing(
    original: Seq<ExportEventModel>,
    comparison: Seq<ExportEventModel>,
    key: Seq<char>,
) -> Option<Standing> {
    match (last_with_key(original, key), last_with_key(comparison, key)) {
        (Some(a), Some(b)) => if same_event(a, b) {
            Some(Standing::Identical)
        } else {
            Some(Standing::Different)
        },
        (Some(_), None) => Some(Standing::OnlyInOriginal),
        (None, Some(_)) => Some(Standing::OnlyInComparison),
        (None, None) => None,
    }
}

/// The keys of the list that stand in the two exports in the given way, in
/// order.
pub open spec fn keys_standing(
    keys: Seq<Seq<char>>,
    original: Seq<ExportEventModel>,
    comparison: Seq<ExportEventModel>,
    wanted: Standing,
) -> Seq<Seq<char>>
    decreases keys.len(),
{
    if keys.len() == 0 {
        Seq::empty()
    } else if standing(original, comparison, keys.last()) == Some(wanted) {
        keys_standing(keys.drop_last(), original, comparison, wanted).push(keys.last())
    } else {
        keys_standing(keys.drop_last(), original, comparison, wanted)
    }
}

/// An insert id under which the two exports differ, with both events and
/// the fields in which they differ.
#[derive(Debug)]
pub struct DifferentEvent {
    pub insert_id: String,
    pub original_event: ExportEvent,
    pub comparison_event: ExportEvent,
    pub differences: Vec<FieldDifference>,
}

/// An insert id that only one export has, with its event.
#[derive(Debug)]
pub struct LoneEvent {
    pub insert_id: String,
    pub event: ExportEvent,
}

/// Two exports compared.
#[derive(Debug)]
pub struct ComparisonOutcome {
    pub total_original_events: usize,
    pub total_comparison_events: usize,
    /// How many events of the first export have no insert id and are left
    /// out of the comparison.
    pub original_without_insert_id: usize,
    /// How many events of the second export have no insert id and are left
    /// out of the comparison.
    pub comparison_without_insert_id: usize,
    pub identical_events: Vec<String>,
    pub different_events: Vec<DifferentEvent>,
    pub only_in_original: Vec<LoneEvent>,
    pub only_in_comparison: Vec<LoneEvent>,
}

/// The insert ids of a list of entries for differing events, in order.
pub open spec fn different_ids(entries: Seq<DifferentEvent>) -> Seq<Seq<char>> {
    entries.map_values(|e: DifferentEvent| e.insert_id@)
}

/// The insert ids of a list of entries for lone events, in order.
pub open spec fn lone_ids(entries: Seq<LoneEvent>) -> Seq<Seq<char>> {
    entries.map_values(|e: LoneEvent| e.insert_id@)
}

/// The entry holds the last event of each export under its insert id, and
/// the fields in which the two differ.
pub open spec fn different_entry_holds(
    entry: DifferentEvent,
    original: Seq<ExportEventModel>,
    comparison: Seq<ExportEventModel>,
) -> bool {
    &&& last_with_key(original, entry.insert_id@) == Some(entry.original_event@)
    &&& last_with_key(comparison, entry.insert_id@) == Some(entry.comparison_event@)
    &&& is_diff_of(
        entry.differences@,
        record_map(entry.original_event@),
        record_map(entry.comparison_event@),
    )
    &&& entries_view(entry.differences@) == diff_entries(
        flatten(entry.original_event@),
        flatten(entry.comparison_event@),
    )
}

/// The outcome is the comparison of the two exports. The insert ids of each
/// list stand in the order in which they first occur in their export.
pub open spec fn is_comparison_of(
    outcome: ComparisonOutcome,
    original: Seq<ExportEventModel>,
    comparison: Seq<ExportEventModel>,
) -> bool {
    &&& outcome.total_original_events == original.len()
    &&& outcome.total_comparison_events == comparison.len()
    &&& outcome.original_without_insert_id == events_without_key(original).len()
    &&& outcome.comparison_without_insert_id == events_without_key(comparison).len()
    &&& texts_view(outcome.identical_events@) == keys_standing(
        keys_in_order(original),
        original,
        comparison,
        Standing::Identical,
    )
    &&& different_ids(outcome.different_events@) == keys_standing(
        keys_in_order(original),
        original,
        comparison,
        Standing::Different,
    )
    &&& forall|i: int|
        0 <= i < outcome.different_events@.len() ==> different_entry_holds(
            #[trigger] outcome.different_events@[i],
            original,
            comparison,
        )
    &&& lone_ids(outcome.only_in_original@) == keys_standing(
        keys_in_order(original),
        original,
        comparison,
        Standing::OnlyInOriginal,
    )
    &&& forall|i: int|
        0 <= i < outcome.only_in_original@.len() ==> last_with_key(
            original,
            (#[trigger] outcome.only_in_original@[i]).insert_id@,
        ) == Some(outcome.only_in_original@[i].event@)
    &&& lone_ids(outcome.only_in_comparison@) == keys_standing(
        keys_in_order(comparison),
        original,
        comparison,
        Standing::OnlyInComparison,
    )
    &&& forall|i: int|
        0 <= i < outcome.only_in_comparison@.len() ==> last_with_key(
            comparison,
            (#[trigger] outcome.only_in_comparison@[i]).insert_id@,
        ) == Some(outcome.only_in_comparison@[i].event@)
}

/// Compares two exports insert id by insert id: which ids both have with
/// the same event, which with different events, and which only one has.
pub fn compare_export_events(original: &Vec<ExportEvent>, comparison: &Vec<ExportEvent>) -> (outcome:
    ComparisonOutcome)
    ensures
        is_comparison_of(outcome, events_view(original@), events_view(comparison@)),
{
    let ghost first = events_view(original@);
    let ghost second = events_view(comparison@);
    let keys = distinct_insert_ids(original);
    let ghost key_views = texts_view(keys@);
    let mut identical: Vec<String> = Vec::new();
    let mut different: Vec<DifferentEvent> = Vec::new();
    let mut lone_first: Vec<LoneEvent> = Vec::new();
    let mut k: usize = 0;
    assert(key_views.take(0) =~= Seq::<Seq<char>>::empty());
    assert(texts_view(identical@) =~= Seq::<Seq<char>>::empty());
    assert(different_ids(different@) =~= Seq::<Seq<char>>::empty());
    assert(lone_ids(lone_first@) =~= Seq::<Seq<char>>::empty());
    while k < keys.len()
        invariant
            k <= keys.len(),
            first == events_view(original@),
            second == events_view(comparison@),
            key_views == texts_view(keys@),
            key_views == keys_in_order(first),
            texts_view(identical@) == keys_standing(
                key_views.take(k as int),
                first,
                second,
                Standing::Identical,
            ),
            different_ids(different@) == keys_standing(
                key_views.take(k as int),
                first,
                second,
                Standing::Different,
            ),
            lone_ids(lone_first@) == keys_standing(
                key_views.take(k as int),
                first,
                second,
                Standing::OnlyInOriginal,
            ),
            forall|i: int|
                0 <= i < different@.len() ==> different_entry_holds(
                    #[trigger] different@[i],
                    first,
                    second,
                ),
            forall|i: int|
                0 <= i < lone_first@.len() ==> last_with_key(
                    first,
                    (#[trigger] lone_first@[i]).insert_id@,
                ) == Some(lone_first@[i].event@),
        decreases keys.len() - k,
    {
        let ghost key = keys@[k as int]@;
        assert(key_views.take(k + 1).drop_last() =~= key_views.take(k as int));
        assert(key_views.take(k + 1).last() == key);
        proof {
            assert(key_views[k as int] == key);
            assert(keys_in_order(first).contains(key));
            lemma_keys_in_order(first);
            lemma_last_place_with_key(first, key);
            lemma_last_place_with_key(second, key);
        }
        let here = find_last_with_key(original, keys[k].as_str());
        let there = find_last_with_key(comparison, keys[k].as_str());
        match here {
            Some(p) => {
                assert(first[p as int] == original@[p as int]@);
                match there {
                    Some(q) => {
                        assert(second[q as int] == comparison@[q as int]@);
                        if original[p].is_same_event(&comparison[q]) {
                            let ghost before = texts_view(identical@);
                            identical.push(keys[k].clone());
                            assert(texts_view(identical@) =~= before.push(key));
                        } else {
                            let ghost before = different_ids(different@);
                            let entry = DifferentEvent {
                                insert_id: keys[k].clone(),
                                original_event: original[p].clone(),
                                comparison_event: comparison[q].clone(),
                                differences: find_event_differences(&original[p], &comparison[q]),
                            };
                            different.push(entry);
                            assert(different_ids(different@) =~= before.push(key));
                        }
                    },
                    None => {
                        let ghost before = lone_ids(lone_first@);
                        lone_first.push(
                            LoneEvent { insert_id: keys[k].clone(), event: original[p].clone() },
                        );
                        assert(lone_ids(lone_first@) =~= before.push(key));
                    },
                }
            },
            None => {
                unreached::<()>();
            },
        }
        k += 1;
    }
    assert(key_views.take(keys.len() as int) =~= key_views);

    let other_keys = distinct_insert_ids(comparison);
    let ghost other_views = texts_view(other_keys@);
    let mut lone_second: Vec<LoneEvent> = Vec::new();
    let mut j: usize = 0;
    assert(other_views.take(0) =~= Seq::<Seq<char>>::empty());
    assert(lone_ids(lone_second@) =~= Seq::<Seq<char>>::empty());
    while j < other_keys.len()
        invariant
            j <= other_keys.len(),
            first == events_view(original@),
            second == events_view(comparison@),
            other_views == texts_view(other_keys@),
            other_views == keys_in_order(second),
            lone_ids(lone_second@) == keys_standing(
                other_views.take(j as int),
                first,
                second,
                Standing::OnlyInComparison,
            ),
            forall|i: int|
                0 <= i < lone_second@.len() ==> last_with_key(
                    second,
                    (#[trigger] lone_second@[i]).insert_id@,
                ) == Some(lone_second@[i].event@),
        decreases other_keys.len() - j,
    {
        let ghost key = other_keys@[j as int]@;
        assert(other_views.take(j + 1).drop_last() =~= other_views.take(j as int));
        assert(other_views.take(j + 1).last() == key);
        proof {
            assert(other_views[j as int] == key);
            assert(keys_in_order(second).contains(key));
            lemma_keys_in_order(second);
            lemma_last_place_with_key(first, key);
            lemma_last_place_with_key(second, key);
        }
        let here = find_last_with_key(original, other_keys[j].as_str());
        let there = find_last_with_key(comparison, other_keys[j].as_str());
        match there {
            Some(q) => {
                assert(second[q as int] == comparison@[q as int]@);
                if here.is_none() {
                    let ghost before = lone_ids(lone_second@);
                    lone_second.push(
                        LoneEvent {
                            insert_id: other_keys[j].clone(),
                            event: comparison[q].clone(),
                        },
                    );
                    assert(lone_ids(lone_second@) =~= before.push(key));
                }
            },
            None => {
                unreached::<()>();
            },
        }
        j += 1;
    }
    assert(other_views.take(other_keys.len() as int) =~= other_views);
    ComparisonOutcome {
        total_original_events: original.len(),
        total_comparison_events: comparison.len(),
        original_without_insert_id: count_without_insert_id(original),
        comparison_without_insert_id: count_without_insert_id(comparison),
        identical_events: identical,
        different_events: different,
        only_in_original: lone_first,
        only_in_comparison: lone_second,
    }
}

} // verus!
