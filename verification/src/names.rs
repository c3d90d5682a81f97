//! Lists of names: which names a list holds, each once, and how often.

use vstd::prelude::*;

verus! {

/// The views of a list of strings, in order.
pub open spec fn texts_view(texts: Seq<String>) -> Seq<Seq<char>> {
    texts.map_values(|t: String| t@)
}

/// The names of the list, each once, in the order in which they first occur.
pub open spec fn first_occurrences(names: Seq<Seq<char>>) -> Seq<Seq<char>>
    decreases names.len(),
{
    if names.len() == 0 {
        Seq::empty()
    } else {
        let before = first_occurrences(names.drop_last());
        if before.contains(names.last()) {
            before
        } else {
            before.push(names.last())
        }
    }
}

/// The names of the list but the given one, in order.
pub open spec fn without_name(names: Seq<Seq<char>>, excluded: Seq<char>) -> Seq<Seq<char>>
    decreases names.len(),
{
    if names.len() == 0 {
        Seq::empty()
    } else if names.last() == excluded {
        without_name(names.drop_last(), excluded)
    } else {
        without_name(names.drop_last(), excluded).push(names.last())
    }
}

/// How often the name stands in the list.
pub open spec fn count_of(names: Seq<Seq<char>>, name: Seq<char>) -> nat
    decreases names.len(),
{
    if names.len() == 0 {
        0
    } else if names.last() == name {
        count_of(names.drop_last(), name) + 1
    } else {
        count_of(names.drop_last(), name)
    }
}

/// `first_occurrences` holds exactly the names of the list, each once.
pub proof fn law_first_occurrences(names: Seq<Seq<char>>)
    ensures
        first_occurrences(names).no_duplicates(),
        forall|name: Seq<char>| #[trigger]
            first_occurrences(names).contains(name) <==> names.contains(name),
    decreases names.len(),
{
    if names.len() > 0 {
        let rest = names.drop_last();
        let before = first_occurrences(rest);
        let all = first_occurrences(names);
        law_first_occurrences(rest);
        assert forall|name: Seq<char>| #[trigger] all.contains(name) <==> names.contains(name) by {
            if all.contains(name) {
                let j = choose|j: int| 0 <= j < all.len() && all[j] == name;
                if j < before.len() {
                    assert(before[j] == name);
                    assert(before.contains(name));
                    let i = choose|i: int| 0 <= i < rest.len() && rest[i] == name;
                    assert(names[i] == name);
                } else {
                    assert(names[names.len() - 1] == name);
                }
            }
            if names.contains(name) {
                let i = choose|i: int| 0 <= i < names.len() && names[i] == name;
                if i < rest.len() {
                    assert(rest[i] == name);
                    assert(rest.contains(name));
                }
                if before.contains(name) {
                    let j = choose|j: int| 0 <= j < before.len() && before[j] == name;
                    assert(all[j] == name);
                } else {
                    assert(all[before.len() as int] == name);
                }
            }
        }
    }
}

/// Whether the list holds the name.
pub fn contains_text(list: &Vec<String>, name: &String) -> (found: bool)
    ensures
        found == texts_view(list@).contains(name@),
{
    let ghost views = texts_view(list@);
    let mut k: usize = 0;
    while k < list.len()
        invariant
            k <= list.len(),
            views == texts_view(list@),
            forall|j: int| 0 <= j < k ==> views[j] != name@,
        decreases list.len() - k,
    {
        assert(views[k as int] == list@[k as int]@);
        if list[k] == *name {
            return true;
        }
        k += 1;
    }
    false
}

/// The names of the list, each once, in the order in which they first occur.
pub fn distinct_texts(names: &Vec<String>) -> (once: Vec<String>)
    ensures
        texts_view(once@) == first_occurrences(texts_view(names@)),
{
    let ghost all = texts_view(names@);
    let mut once: Vec<String> = Vec::new();
    let mut i: usize = 0;
    assert(all.take(0) =~= Seq::<Seq<char>>::empty());
    assert(texts_view(once@) =~= Seq::<Seq<char>>::empty());
    while i < names.len()
        invariant
            i <= names.len(),
            all == texts_view(names@),
            texts_view(once@) == first_occurrences(all.take(i as int)),
        decreases names.len() - i,
    {
        assert(all.take(i + 1).drop_last() =~= all.take(i as int));
        assert(all.take(i + 1).last() == names@[i as int]@);
        if !contains_text(&once, &names[i]) {
            let ghost before = texts_view(once@);
            once.push(names[i].clone());
            assert(texts_view(once@) =~= before.push(names@[i as int]@));
        }
        i += 1;
    }
    assert(all.take(names.len() as int) =~= all);
    once
}

/// How often the name stands in the list.
pub fn count_text(names: &Vec<String>, name: &String) -> (count: usize)
    ensures
        count == count_of(texts_view(names@), name@),
{
    let ghost all = texts_view(names@);
    let mut count: usize = 0;
    let mut i: usize = 0;
    assert(all.take(0) =~= Seq::<Seq<char>>::empty());
    while i < names.len()
        invariant
            i <= names.len(),
            all == texts_view(names@),
            count == count_of(all.take(i as int), name@),
            count <= i,
        decreases names.len() - i,
    {
        assert(all.take(i + 1).drop_last() =~= all.take(i as int));
        assert(all.take(i + 1).last() == names@[i as int]@);
        if names[i] == *name {
            count += 1;
        }
        i += 1;
    }
    assert(all.take(names.len() as int) =~= all);
    count
}

/// Each name of the list, once, with how often it stands in the list, in the
/// order in which the names first occur.
pub open spec fn tally(names: Seq<Seq<char>>) -> Seq<(Seq<char>, nat)> {
    first_occurrences(names).map_values(|name: Seq<char>| (name, count_of(names, name)))
}

/// The names and numbers of a list of counts, in order.
pub open spec fn counts_view(counts: Seq<(String, usize)>) -> Seq<(Seq<char>, nat)> {
    counts.map_values(|c: (String, usize)| (c.0@, c.1 as nat))
}

/// Each name of the list, once, with how often it stands in the list.
pub fn tally_texts(names: &Vec<String>) -> (counts: Vec<(String, usize)>)
    ensures
        counts_view(counts@) == tally(texts_view(names@)),
{
    let ghost all = texts_view(names@);
    let once = distinct_texts(names);
    let mut counts: Vec<(String, usize)> = Vec::new();
    let mut k: usize = 0;
    while k < once.len()
        invariant
            k <= once.len(),
            all == texts_view(names@),
            texts_view(once@) == first_occurrences(all),
            counts@.len() == k,
            forall|j: int|
                0 <= j < k ==> (#[trigger] counts@[j]).0@ == once@[j]@ && counts@[j].1 == count_of(
                    all,
                    once@[j]@,
                ),
        decreases once.len() - k,
    {
        let n = count_text(names, &once[k]);
        counts.push((once[k].clone(), n));
        k += 1;
    }
    proof {
        assert forall|j: int| 0 <= j < counts@.len() implies counts_view(counts@)[j] == tally(
            all,
        )[j] by {
            assert(texts_view(once@)[j] == once@[j]@);
        }
        assert(counts_view(counts@) =~= tally(all));
    }
    counts
}

} // verus!
