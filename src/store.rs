//! The index store: independent indexes under minted identifiers, with the
//! operations that create them, add documents to them and search them.

use vstd::prelude::*;
use crate::engine::{
    check_text_query, commit_document, create_in_ram, doc_count, engine_error_text, engine_schema,
    facet_encoding, in_memory, index_docs, is_facet_path, matching_docs, open_or_create,
    parse_facet, plan_admits, plan_fixed, query_error_text, text_query_parses, top_docs,
};
use crate::ids::{find_id, format_id, id_text, lemma_id_text_injective};
use crate::model::DocRecord;
use crate::plan::{fixed_text, opt_view, plan_query, request_admits, request_finds};

verus! {

broadcast use vstd::multiset::group_multiset_axioms;

/// How many documents a search returns at most.
pub const TOP_K: usize = 10;

/// A document as the contracts see it: its title and its encoded facet.
pub type Doc = (Seq<char>, Seq<char>);

/// Why an operation failed.
#[derive(Debug)]
pub enum EngineError {
    /// No index has the given identifier.
    NotFound,
    /// A directory could not be opened as an index, or a reader could not be had.
    Storage(String),
    /// A document could not be added.
    Write(String),
    /// A text query could not be parsed.
    Query(String),
}

/// The indexes of a process, each under the decimal text of its position.
/// Each successful creation adds a handle under a fresh identifier, also for
/// a directory that another handle has open.
pub struct IndexStore {
    indexes: Vec<tantivy::Index>,
}

/// What the contracts know of one index: its committed documents where it is
/// held in memory; nothing (`None`) where it is kept in a directory.
pub open spec fn known_docs(index: tantivy::Index) -> Option<Seq<Doc>> {
    if in_memory(index) { Some(index_docs(index)) } else { None }
}

impl IndexStore {
    /// What is known of each index, by position.
    pub closed spec fn view(&self) -> Seq<Option<Seq<Doc>>> {
        self.indexes@.map_values(|i: tantivy::Index| known_docs(i))
    }

    /// An empty store.
    pub fn new() -> (r: IndexStore)
        ensures
            r@ == Seq::<Option<Seq<Doc>>>::empty(),
    {
        let r = IndexStore { indexes: Vec::new() };
        assert(r@ =~= Seq::<Option<Seq<Doc>>>::empty());
        r
    }

    /// The number of indexes in the store.
    pub fn len(&self) -> (r: usize)
        ensures
            r == self@.len(),
    {
        self.indexes.len()
    }
}

/// What an index is known to hold after a document was committed to it.
pub open spec fn with_doc(known: Option<Seq<Doc>>, d: Doc) -> Option<Seq<Doc>> {
    match known {
        Some(docs) => Some(docs.push(d)),
        None => None,
    }
}

/// The encoded facet of a category path. A path that starts with a slash is
/// parsed by tantivy; any other text is taken whole, as one flat segment.
pub open spec fn category_encoding(path: Seq<char>) -> Seq<char> {
    if is_facet_path(path) { facet_encoding(path) } else { path }
}

/// The encoded facet of a category path, as `category_encoding` says.
pub fn facet_code(path: &str) -> (r: String)
    ensures
        r@ == category_encoding(path@),
{
    if path.unicode_len() > 0 && path.get_char(0) == '/' {
        match parse_facet(path) {
            Ok(encoded) => encoded,
            Err(_) => {
                proof { assert(false); }
                String::new()
            },
        }
    } else {
        proof {
            if path@.len() > 0 {
                assert(path@[0] != '/');
            }
        }
        path.to_owned()
    }
}

/// The encoded facet filter of a request.
pub open spec fn facet_filter(facet: Option<&str>) -> Option<Seq<char>> {
    match facet {
        Some(f) => Some(category_encoding(f@)),
        None => None,
    }
}

/// The text query of a request.
pub open spec fn text_request(query: Option<&str>) -> Option<Seq<char>> {
    match query {
        Some(q) => Some(q@),
        None => None,
    }
}

/// The documents of an index that a request admits, in commit order.
pub open spec fn search_matches(docs: Seq<Doc>, text: Option<Seq<char>>, facet: Option<Seq<char>>) -> Seq<Doc> {
    docs.filter(|d: Doc| request_admits(text, facet, d))
}

/// What a search of `docs` may return: admitted documents, none more often
/// than the index holds it, at most `TOP_K`; and, where the text holds no
/// `*`, as many as there are up to `TOP_K`, every one of them where they fit.
pub open spec fn search_outcome(
    docs: Seq<Doc>,
    text: Option<Seq<char>>,
    facet: Option<Seq<char>>,
    found: Seq<Doc>,
) -> bool {
    let m = search_matches(docs, text, facet);
    &&& found.len() <= TOP_K
    &&& forall|j: int| 0 <= j < found.len() ==> m.contains(#[trigger] found[j])
    &&& found.to_multiset().subset_of(m.to_multiset())
    &&& fixed_text(text) ==> found.len() == if m.len() < TOP_K { m.len() as int } else { TOP_K as int }
    &&& fixed_text(text) && m.len() <= TOP_K ==> found.to_multiset() == m.to_multiset()
}

/// What a search of an index kept in a directory may return: at most `TOP_K`
/// documents, each of exactly the filter's facet where one is given.
pub open spec fn stored_outcome(facet: Option<Seq<char>>, found: Seq<Doc>) -> bool {
    &&& found.len() <= TOP_K
    &&& forall|j: int| 0 <= j < found.len() ==> (facet matches Some(f) ==> (#[trigger] found[j]).1 == f)
}

/// Whether `id` names no index of a store of `n` indexes.
pub open spec fn unknown_id(n: nat, id: Seq<char>) -> bool {
    forall|k: nat| k < n ==> id_text(k) != id
}

proof fn lemma_single_owner(n: nat, id: Seq<char>, k: nat)
    requires
        k < n,
        id_text(k) == id,
    ensures
        forall|j: nat| j < n && id_text(j) == id ==> j == k,
{
    assert forall|j: nat| j < n && id_text(j) == id implies j == k by {
        if j != k {
            lemma_id_text_injective(j, k);
        }
    }
}

/// How often a document occurs in a filtered sequence.
proof fn lemma_filter_count(s: Seq<Doc>, p: spec_fn(Doc) -> bool, x: Doc)
    ensures
        s.filter(p).to_multiset().count(x) == if p(x) { s.to_multiset().count(x) } else { 0 },
    decreases s.len(),
{
    reveal(Seq::filter);
    s.to_multiset_ensures();
    if s.len() > 0 {
        let rest = s.drop_last();
        lemma_filter_count(rest, p, x);
        rest.to_multiset_ensures();
        rest.filter(p).to_multiset_ensures();
        assert(rest.push(s.last()) =~= s);
    } else {
        assert(s.filter(p) =~= s);
    }
}

/// A prefix holds no document more often than the whole.
proof fn lemma_prefix_sub_multiset(a: Seq<Doc>, b: Seq<Doc>)
    requires
        a.is_prefix_of(b),
    ensures
        a.to_multiset().subset_of(b.to_multiset()),
    decreases b.len(),
{
    if a.len() == b.len() {
        assert(a =~= b);
    } else {
        let rest = b.drop_last();
        assert(a.is_prefix_of(rest));
        lemma_prefix_sub_multiset(a, rest);
        rest.to_multiset_ensures();
        assert(rest.push(b.last()) =~= b);
    }
}

pub open spec fn record_views(rs: Seq<DocRecord>) -> Seq<Doc> {
    rs.map_values(|d: DocRecord| d@)
}

pub open spec fn has_facet(facet: Seq<char>) -> spec_fn(Doc) -> bool {
    |d: Doc| d.1 == facet
}

/// Keeps the hits whose facet is exactly `facet`, in their order, up to `cap`.
fn keep_exact(hits: Vec<DocRecord>, facet: &String, cap: usize) -> (r: Vec<DocRecord>)
    ensures
        record_views(r@).is_prefix_of(record_views(hits@).filter(has_facet(facet@))),
        record_views(r@).len() == if record_views(hits@).filter(has_facet(facet@)).len() < cap {
            record_views(hits@).filter(has_facet(facet@)).len() as int } else { cap as int },
{
    broadcast use Seq::lemma_filter_push;
    let ghost hv = record_views(hits@);
    let ghost p = has_facet(facet@);
    let mut kept: Vec<DocRecord> = Vec::new();
    let mut i: usize = 0;
    assert(hv.take(0) =~= Seq::<Doc>::empty());
    assert(record_views(kept@) =~= hv.take(0).filter(p));
    while i < hits.len() && kept.len() < cap
        invariant
            i <= hits@.len(),
            kept@.len() <= cap,
            hv == record_views(hits@),
            p == has_facet(facet@),
            record_views(kept@) == hv.take(i as int).filter(p),
        decreases hits@.len() - i,
    {
        assert(hv.take(i as int + 1) =~= hv.take(i as int).push(hv[i as int]));
        assert(hv.take(i as int + 1).filter(p) == hv.take(i as int).push(hv[i as int]).filter(p));
        assert(hv[i as int] == hits@[i as int]@);
        if hits[i].facet == *facet {
            let copy = DocRecord { title: hits[i].title.clone(), facet: hits[i].facet.clone() };
            let ghost before = kept@;
            assert(p(hv[i as int]));
            assert(copy@ == hv[i as int]);
            proof { hv.take(i as int).lemma_filter_push(hv[i as int], p); }
            kept.push(copy);
            assert(record_views(kept@) =~= record_views(before).push(hv[i as int]));
        } else {
            assert(!p(hv[i as int]));
            proof { hv.take(i as int).lemma_filter_push(hv[i as int], p); }
        }
        i = i + 1;
    }
    proof {
        hv.take(i as int).lemma_filter_monotone(hv, p);
        if i == hits.len() {
            assert(hv.take(i as int) =~= hv);
        }
    }
    kept
}

/// Creates an index and returns its fresh identifier: in memory where no
/// directory is given, else the index kept in the directory, created there if
/// absent.
pub fn create_index(store: &mut IndexStore, location: Option<tantivy::directory::MmapDirectory>) -> (r: Result<String, EngineError>)
    ensures
        location is None ==> r is Ok,
        r matches Ok(id) ==> {
            &&& id@ == id_text(old(store)@.len())
            &&& unknown_id(old(store)@.len(), id@)
            &&& final(store)@.len() == old(store)@.len() + 1
            &&& final(store)@.take(old(store)@.len() as int) == old(store)@
            &&& final(store)@.last() == if location is None { Some(Seq::<Doc>::empty()) } else { None }
        },
        r matches Err(e) ==> e is Storage && final(store)@ == old(store)@,
{
    let n = store.indexes.len();
    let index = match location {
        None => create_in_ram(engine_schema()),
        Some(directory) => match open_or_create(directory, engine_schema()) {
            Ok(index) => index,
            Err(e) => return Err(EngineError::Storage(engine_error_text(&e))),
        },
    };
    store.indexes.push(index);
    proof {
        assert(store@.take(n as int) =~= old(store)@);
        assert forall|k: nat| k < n implies id_text(k) != id_text(n as nat) by {
            lemma_id_text_injective(k, n as nat);
        }
    }
    Ok(format_id(n))
}

/// Adds a document with a title and a category facet path to the index named
/// `id`, and commits it.
pub fn add_document(store: &mut IndexStore, id: &str, title: &str, category: &str) -> (r: Result<(), EngineError>)
    ensures
        (r matches Err(EngineError::NotFound)) <==> unknown_id(old(store)@.len(), id@),
        r is Err ==> final(store)@ == old(store)@,
        forall|k: nat| k < old(store)@.len() && id_text(k) == id@ ==> {
            &&& (r matches Err(e) ==> e is Write)
            &&& (r is Ok ==> final(store)@ == old(store)@.update(k as int,
                    with_doc(old(store)@[k as int], (title@, category_encoding(category@)))))
        },
{
    let k = match find_id(store.indexes.len(), id) {
        Some(k) => k,
        None => return Err(EngineError::NotFound),
    };
    proof {
        lemma_single_owner(old(store)@.len(), id@, k as nat);
    }
    let facet = facet_code(category);
    let ghost before = store.indexes@;
    let index = &mut store.indexes[k];
    let written = commit_document(index, title, facet.as_str());
    proof {
        assert(store.indexes@ == before.update(k as int, store.indexes@[k as int]));
    }
    match written {
        Ok(()) => {
            assert(store@ =~= old(store)@.update(k as int, with_doc(old(store)@[k as int], (title@, category_encoding(category@)))));
            Ok(())
        },
        Err(e) => {
            assert(store@ =~= old(store)@);
            Err(EngineError::Write(engine_error_text(&e)))
        },
    }
}

/// Searches the index named `id` for the documents whose title matches the
/// text query and whose facet equals the facet filter, each where given, and
/// returns at most `TOP_K` of them.
pub fn search(store: &IndexStore, id: &str, query: Option<&str>, facet: Option<&str>) -> (r: Result<Vec<DocRecord>, EngineError>)
    ensures
        (r matches Err(EngineError::NotFound)) <==> unknown_id(store@.len(), id@),
        forall|k: nat| k < store@.len() && id_text(k) == id@ ==> {
            &&& (r matches Err(EngineError::Query(_))) <==> (query matches Some(q) && !text_query_parses(q@))
            &&& (r matches Err(e) ==> !(e is Write))
            &&& (r matches Ok(found) ==> match store@[k as int] {
                    Some(docs) => search_outcome(docs, text_request(query), facet_filter(facet), record_views(found@)),
                    None => stored_outcome(facet_filter(facet), record_views(found@)),
                })
        },
{
    let k = match find_id(store.indexes.len(), id) {
        Some(k) => k,
        None => return Err(EngineError::NotFound),
    };
    proof {
        lemma_single_owner(store@.len(), id@, k as nat);
    }
    let index = &store.indexes[k];
    let text = match query {
        Some(q) => match check_text_query(index, q) {
            Ok(()) => Some(q.to_owned()),
            Err(e) => return Err(EngineError::Query(query_error_text(&e))),
        },
        None => None,
    };
    let filter = match facet {
        Some(f) => Some(facet_code(f)),
        None => None,
    };
    let ghost (tv, fv) = (opt_view(text), opt_view(filter));
    let ghost docs = index_docs(*index);
    let ghost mem = in_memory(*index);
    assert(store@[k as int] == known_docs(*index));
    assert(tv == text_request(query));
    assert(fv == facet_filter(facet));
    let exact = match &filter {
        Some(f) => Some(f.clone()),
        None => None,
    };
    let limit: usize = match &exact {
        None => TOP_K,
        Some(_) => match doc_count(index) {
            Ok(count) => {
                if count >= usize::MAX as u64 {
                    return Err(EngineError::Storage("the index holds more documents than a search can collect".to_owned()));
                }
                if count == 0 { 1 } else { count as usize }
            },
            Err(e) => return Err(EngineError::Storage(engine_error_text(&e))),
        },
    };
    let plan = plan_query(text, filter);
    let ghost found_by = |d: Doc| request_finds(tv, fv, d);
    let ghost admitted = |d: Doc| request_admits(tv, fv, d);
    proof {
        assert((|d: Doc| plan_admits(plan, d)) =~= found_by);
        assert(matching_docs(*index, plan) == docs.filter(found_by));
        docs.lemma_filter_take_len(found_by, docs.len() as int);
        assert(docs.take(docs.len() as int) =~= docs);
    }
    let hits = match top_docs(index, &plan, limit) {
        Ok(hits) => hits,
        Err(e) => return Err(EngineError::Storage(engine_error_text(&e))),
    };
    let ghost m = search_matches(docs, tv, fv);
    let ghost hv = record_views(hits@);
    match exact {
        None => {
            proof {
                assert(hv.len() == hits@.len());
                if mem {
                    assert(found_by =~= admitted);
                    assert(m == docs.filter(found_by));
                    assert forall|j: int| 0 <= j < hv.len() implies m.contains(#[trigger] hv[j]) by {
                        assert(hv[j] == hits@[j]@);
                    }
                }
            }
            Ok(hits)
        },
        Some(f) => {
            let kept = keep_exact(hits, &f, TOP_K);
            proof {
                let pf = has_facet(f@);
                let hf = hv.filter(pf);
                let kv = record_views(kept@);
                assert(fv == Some(f@));
                lemma_prefix_sub_multiset(kv, hf);
                kv.to_multiset_ensures();
                hf.to_multiset_ensures();
                assert forall|j: int| 0 <= j < kv.len() implies (#[trigger] kv[j]).1 == f@ by {
                    assert(kv.to_multiset().count(kv[j]) > 0);
                    assert(hf.contains(kv[j]));
                }
                if mem {
                    let t = docs.filter(found_by);
                    assert(hv.to_multiset().subset_of(t.to_multiset()));
                    assert forall|x: Doc| hf.to_multiset().count(x) <= m.to_multiset().count(x) by {
                        lemma_filter_count(hv, pf, x);
                        lemma_filter_count(docs, found_by, x);
                        lemma_filter_count(docs, admitted, x);
                    }
                    assert(hf.to_multiset().subset_of(m.to_multiset()));
                    m.to_multiset_ensures();
                    if fixed_text(tv) {
                        assert(plan_fixed(plan));
                        assert(hv.to_multiset() == t.to_multiset());
                        assert forall|x: Doc| hf.to_multiset().count(x) == m.to_multiset().count(x) by {
                            lemma_filter_count(hv, pf, x);
                            lemma_filter_count(docs, found_by, x);
                            lemma_filter_count(docs, admitted, x);
                        }
                        assert(hf.to_multiset() =~= m.to_multiset());
                        if m.len() <= TOP_K {
                            assert(kv =~= hf);
                        }
                    }
                    assert forall|j: int| 0 <= j < kv.len() implies m.contains(#[trigger] kv[j]) by {
                        assert(kv.to_multiset().count(kv[j]) > 0);
                    }
                }
            }
            Ok(kept)
        },
    }
}

} // verus!
