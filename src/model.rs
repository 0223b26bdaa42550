//! The library's own view of documents and queries, in plain values.

use vstd::prelude::*;

verus! {

/// One leaf of a query: a free-text query over the title, or an exact match
/// on the encoded form of a category facet.
#[derive(Debug)]
pub enum Clause {
    Text(String),
    Facet(String),
}

/// A query ready to run: every document, one clause, or the conjunction of
/// two or more clauses.
#[derive(Debug)]
pub enum QueryPlan {
    MatchAll,
    Single(Clause),
    Conjunction(Vec<Clause>),
}

/// A document as it comes back from a search: its stored title and the
/// encoded form of its category facet.
#[derive(Debug, Clone)]
pub struct DocRecord {
    pub title: String,
    pub facet: String,
}

impl DocRecord {
    pub open spec fn view(&self) -> (Seq<char>, Seq<char>) {
        (self.title@, self.facet@)
    }
}

} // verus!
