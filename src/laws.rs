//! What holds of searches across the store, stated over the contracts of
//! `create_index`, `add_document` and `search`.

use vstd::prelude::*;
use crate::engine::text_matches;
use crate::ids::{id_text, lemma_id_text_injective};
use crate::plan::{fixed_text, request_admits};
use crate::store::{search_matches, search_outcome, with_doc, Doc, TOP_K};

verus! {

broadcast use Seq::lemma_filter_contains_rev, Seq::lemma_filter_pred, Seq::lemma_filter_contains;

/// A document is among the matches of a request exactly when the index holds
/// it and the request admits it.
pub proof fn lemma_matches_contain(docs: Seq<Doc>, text: Option<Seq<char>>, facet: Option<Seq<char>>, d: Doc)
    ensures
        search_matches(docs, text, facet).contains(d) <==> docs.contains(d) && request_admits(text, facet, d),
{
    let pred = |x: Doc| request_admits(text, facet, x);
    let m = search_matches(docs, text, facet);
    if m.contains(d) {
        let i = choose|i: int| 0 <= i < m.len() && m[i] == d;
        assert(pred(m[i]));
    }
    if docs.contains(d) && request_admits(text, facet, d) {
        let i = choose|i: int| 0 <= i < docs.len() && docs[i] == d;
        assert(docs.filter(pred).contains(docs[i]));
    }
}

/// Every document of a search result is a match of the request.
proof fn lemma_found_are_matches(docs: Seq<Doc>, text: Option<Seq<char>>, facet: Option<Seq<char>>, found: Seq<Doc>, j: int)
    requires
        search_outcome(docs, text, facet, found),
        0 <= j < found.len(),
    ensures
        docs.contains(found[j]),
        request_admits(text, facet, found[j]),
{
    lemma_matches_contain(docs, text, facet, found[j]);
}

/// Where all matches fit in one result, every match is found.
proof fn lemma_match_is_found(docs: Seq<Doc>, text: Option<Seq<char>>, facet: Option<Seq<char>>, found: Seq<Doc>, d: Doc)
    requires
        search_outcome(docs, text, facet, found),
        fixed_text(text),
        search_matches(docs, text, facet).len() <= TOP_K,
        docs.contains(d),
        request_admits(text, facet, d),
    ensures
        found.contains(d),
{
    let m = search_matches(docs, text, facet);
    lemma_matches_contain(docs, text, facet, d);
    m.to_multiset_ensures();
    found.to_multiset_ensures();
    assert(m.to_multiset().count(d) > 0);
    assert(found.to_multiset() == m.to_multiset());
    assert(found.to_multiset().count(d) > 0);
}

/// Indexes are separate: two positions get two identifiers, and a document
/// added to one index is never found by a search of another index in memory
/// that did not already hold it.
pub proof fn law_indexes_are_separate(
    before: Seq<Option<Seq<Doc>>>,
    k: int,
    j: int,
    d: Doc,
    text: Option<Seq<char>>,
    facet: Option<Seq<char>>,
    found: Seq<Doc>,
)
    requires
        0 <= k < before.len(),
        0 <= j < before.len(),
        k != j,
        before[j] is Some,
        !before[j]->Some_0.contains(d),
        before.update(k, with_doc(before[k], d))[j] is Some,
        search_outcome(before.update(k, with_doc(before[k], d))[j]->Some_0, text, facet, found),
    ensures
        id_text(k as nat) != id_text(j as nat),
        !found.contains(d),
{
    lemma_id_text_injective(k as nat, j as nat);
    let docs = before[j]->Some_0;
    assert(before.update(k, with_doc(before[k], d))[j] == before[j]);
    if found.contains(d) {
        let i = choose|i: int| 0 <= i < found.len() && found[i] == d;
        lemma_found_are_matches(docs, text, facet, found, i);
    }
}

/// A document that a text query without `*` matches is found by that query,
/// where no more than `TOP_K` documents match; every document found matches.
pub proof fn law_text_match_is_found(docs: Seq<Doc>, q: Seq<char>, d: Doc, found: Seq<Doc>)
    requires
        !q.contains('*'),
        search_outcome(docs, Some(q), None, found),
    ensures
        forall|j: int| 0 <= j < found.len() ==> text_matches(q, (#[trigger] found[j]).0, found[j].1),
        docs.contains(d) && text_matches(q, d.0, d.1) && search_matches(docs, Some(q), None).len() <= TOP_K
            ==> found.contains(d),
{
    assert forall|j: int| 0 <= j < found.len() implies text_matches(q, (#[trigger] found[j]).0, found[j].1) by {
        lemma_found_are_matches(docs, Some(q), None, found, j);
    }
    if docs.contains(d) && text_matches(q, d.0, d.1) && search_matches(docs, Some(q), None).len() <= TOP_K {
        lemma_match_is_found(docs, Some(q), None, found, d);
    }
}

/// A facet filter finds only documents of exactly that facet, and each of
/// them where no more than `TOP_K` documents have it.
pub proof fn law_facet_filter_is_exact(docs: Seq<Doc>, f: Seq<char>, d: Doc, found: Seq<Doc>)
    requires
        search_outcome(docs, None, Some(f), found),
    ensures
        forall|j: int| 0 <= j < found.len() ==> (#[trigger] found[j]).1 == f,
        d.1 != f ==> !found.contains(d),
        docs.contains(d) && d.1 == f && search_matches(docs, None, Some(f)).len() <= TOP_K
            ==> found.contains(d),
{
    assert forall|j: int| 0 <= j < found.len() implies (#[trigger] found[j]).1 == f by {
        lemma_found_are_matches(docs, None, Some(f), found, j);
    }
    if docs.contains(d) && d.1 == f && search_matches(docs, None, Some(f)).len() <= TOP_K {
        lemma_match_is_found(docs, None, Some(f), found, d);
    }
}

/// A text query without `*` with a facet filter finds the intersection: only
/// documents that satisfy both, and each of them where no more than `TOP_K` do.
pub proof fn law_combined_is_intersection(docs: Seq<Doc>, q: Seq<char>, f: Seq<char>, d: Doc, found: Seq<Doc>)
    requires
        !q.contains('*'),
        search_outcome(docs, Some(q), Some(f), found),
    ensures
        forall|j: int| 0 <= j < found.len() ==> docs.contains(#[trigger] found[j])
            && text_matches(q, found[j].0, found[j].1) && found[j].1 == f,
        docs.contains(d) && text_matches(q, d.0, d.1) && d.1 == f
            && search_matches(docs, Some(q), Some(f)).len() <= TOP_K ==> found.contains(d),
{
    assert forall|j: int| 0 <= j < found.len() implies docs.contains(#[trigger] found[j])
        && text_matches(q, found[j].0, found[j].1) && found[j].1 == f by {
        lemma_found_are_matches(docs, Some(q), Some(f), found, j);
    }
    if docs.contains(d) && text_matches(q, d.0, d.1) && d.1 == f && search_matches(docs, Some(q), Some(f)).len() <= TOP_K {
        lemma_match_is_found(docs, Some(q), Some(f), found, d);
    }
}

proof fn lemma_match_all(docs: Seq<Doc>)
    ensures
        search_matches(docs, None, None) == docs,
    decreases docs.len(),
{
    reveal(Seq::filter);
    if docs.len() > 0 {
        lemma_match_all(docs.drop_last());
        assert(docs.drop_last().push(docs.last()) =~= docs);
    } else {
        assert(search_matches(docs, None, None) =~= docs);
    }
}

/// A search with neither a text query nor a facet filter finds as many
/// documents as the index holds, up to `TOP_K`, each one of the index.
pub proof fn law_match_all_is_capped(docs: Seq<Doc>, found: Seq<Doc>)
    requires
        search_outcome(docs, None, None, found),
    ensures
        found.len() == if docs.len() < TOP_K { docs.len() as int } else { TOP_K as int },
        forall|j: int| 0 <= j < found.len() ==> docs.contains(#[trigger] found[j]),
        docs.len() <= TOP_K ==> found.to_multiset() == docs.to_multiset(),
{
    lemma_match_all(docs);
    assert forall|j: int| 0 <= j < found.len() implies docs.contains(#[trigger] found[j]) by {
        lemma_found_are_matches(docs, None, None, found, j);
    }
}

} // verus!
