use vstd::prelude::*;
use crate::text::{contains_text, is_substring};

verus! {

/// A name is kept by the find filter when the query is empty or occurs in
/// it. Matching is case-sensitive: `pro` does not find `Proxima`, `Pro` does.
pub open spec fn matches_query(name: Seq<char>, query: Seq<char>) -> bool {
    query.len() == 0 || is_substring(query, name)
}

/// The entries `(index, name)` of the names that match `query`, in the
/// order of `names`.
pub open spec fn filter_spec(names: Seq<Seq<char>>, query: Seq<char>) -> Seq<(int, Seq<char>)>
    decreases names.len(),
{
    if names.len() == 0 {
        Seq::empty()
    } else {
        let rest = filter_spec(names.drop_last(), query);
        if matches_query(names.last(), query) {
            rest.push(((names.len() - 1) as int, names.last()))
        } else {
            rest
        }
    }
}

/// The mathematical content of a filter result.
pub open spec fn entry_views(r: Seq<(usize, String)>) -> Seq<(int, Seq<char>)> {
    r.map_values(|e: (usize, String)| (e.0 as int, e.1@))
}

/// The texts of a list of strings.
pub open spec fn string_views(names: Seq<String>) -> Seq<Seq<char>> {
    names.map_values(|s: String| s@)
}

/// The names of a list of entries.
pub open spec fn entry_names(r: Seq<(int, Seq<char>)>) -> Seq<Seq<char>> {
    r.map_values(|e: (int, Seq<char>)| e.1)
}

/// The entries `(index, name)` of the names that contain `query` (all of
/// them when `query` is empty), in the order of `names`.
pub fn filter_names(names: &Vec<String>, query: &str) -> (r: Vec<(usize, String)>)
    ensures
        entry_views(r@) == filter_spec(string_views(names@), query@),
{
    let ghost all = string_views(names@);
    let mut r: Vec<(usize, String)> = Vec::new();
    let mut i: usize = 0;
    assert(all.subrange(0, 0) =~= Seq::<Seq<char>>::empty());
    while i < names.len()
        invariant
            i <= names@.len(),
            all == string_views(names@),
            entry_views(r@) == filter_spec(all.subrange(0, i as int), query@),
        decreases names@.len() - i,
    {
        let ghost before = r@;
        let ghost next = all.subrange(0, i + 1);
        assert(next.drop_last() =~= all.subrange(0, i as int));
        assert(next.last() == names@[i as int]@);
        if query.is_empty() || contains_text(names[i].as_str(), query) {
            r.push((i, names[i].clone()));
            assert(entry_views(r@) =~= entry_views(before).push((i as int, names@[i as int]@)));
        }
        i = i + 1;
    }
    assert(all.subrange(0, i as int) =~= all);
    r
}

/// Every entry of a filter result is an index of `names` with its name, a
/// name that matches the query, and the indices rise strictly.
pub proof fn lemma_filter_entries(names: Seq<Seq<char>>, query: Seq<char>)
    ensures
        filter_spec(names, query).len() <= names.len(),
        forall|j: int|
            0 <= j < filter_spec(names, query).len() ==> {
                let e = #[trigger] filter_spec(names, query)[j];
                &&& 0 <= e.0 < names.len()
                &&& names[e.0] == e.1
                &&& matches_query(e.1, query)
            },
        forall|j1: int, j2: int|
            0 <= j1 < j2 < filter_spec(names, query).len() ==> #[trigger] filter_spec(names, query)[j1].0
                < #[trigger] filter_spec(names, query)[j2].0,
    decreases names.len(),
{
    if names.len() > 0 {
        lemma_filter_entries(names.drop_last(), query);
    }
}

/// Every entry `(i, names[i])`, in order.
pub open spec fn all_entries(names: Seq<Seq<char>>) -> Seq<(int, Seq<char>)> {
    Seq::new(names.len(), |i: int| (i, names[i]))
}

/// When every name matches, the filter keeps them all, in order.
pub proof fn lemma_filter_all_match(names: Seq<Seq<char>>, query: Seq<char>)
    requires
        forall|i: int| 0 <= i < names.len() ==> matches_query(#[trigger] names[i], query),
    ensures
        filter_spec(names, query) == all_entries(names),
    decreases names.len(),
{
    if names.len() > 0 {
        let rest = names.drop_last();
        assert forall|i: int| 0 <= i < rest.len() implies matches_query(#[trigger] rest[i], query) by {
            assert(rest[i] == names[i]);
        }
        lemma_filter_all_match(rest, query);
        assert(all_entries(names) =~= all_entries(rest).push(((names.len() - 1) as int, names.last())));
    }
}

/// The empty query keeps the whole collection, in its own order.
pub proof fn lemma_filter_empty_query(names: Seq<Seq<char>>)
    ensures
        filter_spec(names, Seq::empty()) == all_entries(names),
{
    lemma_filter_all_match(names, Seq::empty());
}

/// Filtering the names that a filter kept, by any query, yields only
/// entries of the whole collection: each names the kept entry it comes
/// from, and that entry is the collection's own at its index there.
pub proof fn lemma_filter_of_filter_within_all(names: Seq<Seq<char>>, q1: Seq<char>, q: Seq<char>)
    ensures
        forall|j: int|
            0 <= j < filter_spec(entry_names(filter_spec(names, q1)), q).len() ==> {
                let e = #[trigger] filter_spec(entry_names(filter_spec(names, q1)), q)[j];
                let f = filter_spec(names, q1)[e.0];
                &&& 0 <= e.0 < filter_spec(names, q1).len()
                &&& e.1 == f.1
                &&& 0 <= f.0 < names.len()
                &&& filter_spec(names, Seq::empty())[f.0] == f
            },
{
    let f1 = filter_spec(names, q1);
    lemma_filter_entries(names, q1);
    lemma_filter_entries(entry_names(f1), q);
    lemma_filter_empty_query(names);
}

/// Filtering again by the same query keeps every entry that the first
/// filter kept, in the same order.
pub proof fn lemma_filter_idempotent(names: Seq<Seq<char>>, query: Seq<char>)
    ensures
        entry_names(filter_spec(entry_names(filter_spec(names, query)), query)) == entry_names(
            filter_spec(names, query),
        ),
{
    let f1 = filter_spec(names, query);
    let kept = entry_names(f1);
    lemma_filter_entries(names, query);
    assert forall|i: int| 0 <= i < kept.len() implies matches_query(#[trigger] kept[i], query) by {
        assert(kept[i] == f1[i].1);
    }
    lemma_filter_all_match(kept, query);
    assert(entry_names(all_entries(kept)) =~= kept);
}

} // verus!
