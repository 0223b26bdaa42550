//! The query planner: turns an optional text query and an optional facet
//! filter into a plan under which a document must satisfy every clause.

use vstd::prelude::*;
use crate::engine::{facet_within, plan_admits, plan_fixed, text_matches};
use crate::model::{Clause, QueryPlan};

verus! {

/// Whether a document, given as title and encoded facet, satisfies a request:
/// the text query, where there is one, matches it (a query with `*` is not
/// judged here), and the encoded facet filter, where there is one, equals its
/// facet.
pub open spec fn request_admits(
    text: Option<Seq<char>>,
    facet: Option<Seq<char>>,
    doc: (Seq<char>, Seq<char>),
) -> bool {
    &&& (text matches Some(q) ==> q.contains('*') || text_matches(q, doc.0, doc.1))
    &&& (facet matches Some(f) ==> doc.1 == f)
}

/// Whether tantivy's query for a request finds a document: as
/// `request_admits`, but a facet filter also finds the facets below it.
pub open spec fn request_finds(
    text: Option<Seq<char>>,
    facet: Option<Seq<char>>,
    doc: (Seq<char>, Seq<char>),
) -> bool {
    &&& (text matches Some(q) ==> q.contains('*') || text_matches(q, doc.0, doc.1))
    &&& (facet matches Some(f) ==> facet_within(f, doc.1))
}

/// Whether a request's text query, if any, holds no `*`.
pub open spec fn fixed_text(text: Option<Seq<char>>) -> bool {
    text matches Some(q) ==> !q.contains('*')
}

pub open spec fn opt_view(s: Option<String>) -> Option<Seq<char>> {
    match s {
        Some(x) => Some(x@),
        None => None,
    }
}

/// Builds the plan of a request: no clause matches every document, one clause
/// stands alone, and two are joined in a conjunction.
pub fn plan_query(text: Option<String>, facet: Option<String>) -> (r: QueryPlan)
    ensures
        forall|d: (Seq<char>, Seq<char>)|
            plan_admits(r, d) == request_finds(opt_view(text), opt_view(facet), d),
        plan_fixed(r) <==> fixed_text(opt_view(text)),
        (text is None && facet is None) <==> r is MatchAll,
        (text is None || facet is None) <==> !(r is Conjunction),
        r matches QueryPlan::Conjunction(cs) ==> cs@.len() == 2,
{
    match (text, facet) {
        (None, None) => QueryPlan::MatchAll,
        (Some(q), None) => QueryPlan::Single(Clause::Text(q)),
        (None, Some(f)) => QueryPlan::Single(Clause::Facet(f)),
        (Some(q), Some(f)) => {
            let ghost (qv, fv) = (q@, f@);
            let mut clauses: Vec<Clause> = Vec::new();
            clauses.push(Clause::Text(q));
            clauses.push(Clause::Facet(f));
            let ghost cs = clauses@;
            assert(cs[0] matches Clause::Text(x) && x@ == qv);
            assert(cs[1] matches Clause::Facet(x) && x@ == fv);
            let r = QueryPlan::Conjunction(clauses);
            assert forall|d: (Seq<char>, Seq<char>)|
                plan_admits(r, d) == request_finds(Some(qv), Some(fv), d) by {
                assert(r->Conjunction_0@ == cs);
                if plan_admits(r, d) {
                    assert(crate::engine::clause_admits(cs[0], d));
                    assert(crate::engine::clause_admits(cs[1], d));
                }
            }
            r
        },
    }
}

} // verus!
