//! The boundary with tantivy: the outside types this library carries and the
//! calls it makes into the search engine, each with the contract relied on.

use vstd::prelude::*;
use tantivy::collector::TopDocs;
use tantivy::query::{AllQuery, BooleanQuery, Occur, Query, QueryParser, TermQuery};
use tantivy::schema::{Facet, IndexRecordOption, Value};
use tantivy::{DocAddress, Searcher, TantivyDocument, TantivyError, Term};
use crate::model::{Clause, DocRecord, QueryPlan};

verus! {

#[verifier::external_type_specification]
#[verifier::external_body]
pub struct ExIndex(tantivy::Index);

#[verifier::external_type_specification]
#[verifier::external_body]
pub struct ExSchema(tantivy::schema::Schema);

#[verifier::external_type_specification]
#[verifier::external_body]
pub struct ExTantivyError(TantivyError);

#[verifier::external_type_specification]
#[verifier::external_body]
pub struct ExFacetParseError(tantivy::schema::FacetParseError);

#[verifier::external_type_specification]
#[verifier::external_body]
pub struct ExQueryParserError(tantivy::query::QueryParserError);

#[verifier::external_type_specification]
#[verifier::external_body]
pub struct ExBooleanQuery(tantivy::query::BooleanQuery);

#[verifier::external_type_specification]
#[verifier::external_body]
pub struct ExSearcher(tantivy::Searcher);

#[verifier::external_type_specification]
#[verifier::external_body]
pub struct ExDocAddress(tantivy::DocAddress);

#[verifier::external_type_specification]
#[verifier::external_body]
pub struct ExTantivyDocument(tantivy::TantivyDocument);

#[verifier::external_type_specification]
#[verifier::external_body]
pub struct ExMmapDirectory(tantivy::directory::MmapDirectory);

/// The committed documents of an index held in memory, in the order of their
/// commits, each as its stored title and the encoded form of its category
/// facet (a value that was not stored reads as empty text, as `stored_record`
/// reads it). Nothing is claimed of it for an index kept in a directory, whose
/// documents live in the directory and may be changed through other handles.
pub uninterp spec fn index_docs(index: tantivy::Index) -> Seq<(Seq<char>, Seq<char>)>;

/// Whether an index is held in memory (made by `Index::create_in_ram`), so
/// that its handle is the only way to its documents.
pub uninterp spec fn in_memory(index: tantivy::Index) -> bool;

/// The encoded form of the text after a facet path's leading slash: an
/// unescaped slash becomes the null character that separates segments, and a
/// backslash keeps the character after it as it is and is itself dropped.
pub open spec fn facet_steps(s: Seq<char>) -> Seq<char>
    decreases s.len(),
{
    if s.len() == 0 {
        s
    } else if s[0] == '\\' {
        if s.len() == 1 { Seq::empty() } else { seq![s[1]] + facet_steps(s.skip(2)) }
    } else if s[0] == '/' {
        seq!['\0'] + facet_steps(s.skip(1))
    } else {
        seq![s[0]] + facet_steps(s.skip(1))
    }
}

/// The encoded form that tantivy's facet parser gives a facet path.
pub open spec fn facet_encoding(path: Seq<char>) -> Seq<char> {
    facet_steps(path.skip(1))
}

/// Whether tantivy's query parser accepts a text query over the title field.
pub uninterp spec fn text_query_parses(query: Seq<char>) -> bool;

/// Whether the query that tantivy's query parser builds from a text query
/// without `*` (over the title by default, over any field it names) matches a
/// document of the given title and encoded facet. Only `*` brings in queries
/// whose matches depend on the other documents of the index (phrase prefixes,
/// field existence), so without it the answer depends on these three alone.
pub uninterp spec fn text_matches(query: Seq<char>, title: Seq<char>, facet: Seq<char>) -> bool;

/// Whether a facet term finds a document of the given encoded facet: tantivy
/// indexes a facet under itself, under the root and under each of its
/// ancestors, so a term finds its own facet and every facet below it.
pub open spec fn facet_within(term: Seq<char>, facet: Seq<char>) -> bool {
    ||| term.len() == 0
    ||| term == facet
    ||| (term.len() < facet.len() && facet[term.len() as int] == '\0' && facet.take(term.len() as int) == term)
}

/// Whether a text names a facet: tantivy's parser takes exactly the non-empty
/// paths that start with a slash.
pub open spec fn is_facet_path(path: Seq<char>) -> bool {
    path.len() > 0 && path[0] == '/'
}

/// Relies on tantivy's `SchemaBuilder`: a schema with the stored, tokenized
/// text field `title` and the stored facet field `category`.
#[verifier::external_body]
pub(crate) fn engine_schema() -> (r: tantivy::schema::Schema) {
    let mut builder = tantivy::schema::Schema::builder();
    builder.add_text_field(TITLE_FIELD, tantivy::schema::TEXT | tantivy::schema::STORED);
    builder.add_facet_field(CATEGORY_FIELD, tantivy::schema::FacetOptions::default().set_stored());
    builder.build()
}

/// Relies on `Index::create_in_ram`: a fresh index in memory, holding no
/// document.
#[verifier::external_body]
pub(crate) fn create_in_ram(schema: tantivy::schema::Schema) -> (r: tantivy::Index)
    ensures
        in_memory(r),
        index_docs(r) == Seq::<(Seq<char>, Seq<char>)>::empty(),
{
    tantivy::Index::create_in_ram(schema)
}

/// Relies on `Index::open_or_create`: opens the index kept in a directory, or
/// creates an empty one there, kept in the directory; fails where the directory holds an index of
/// another schema or cannot be read.
#[verifier::external_body]
pub(crate) fn open_or_create(
    directory: tantivy::directory::MmapDirectory,
    schema: tantivy::schema::Schema,
) -> (r: Result<tantivy::Index, TantivyError>)
    ensures
        r is Ok ==> !in_memory(r->Ok_0),
{
    tantivy::Index::open_or_create(directory, schema)
}

/// Relies on `Facet::from_text`: it accepts exactly the non-empty paths that
/// start with a slash, and encodes them as `facet_encoding` says (its loop
/// reads bytes, but the two bytes it looks for are ASCII, so it reads as one
/// over characters); the result is read back with `Facet::encoded_str`.
#[verifier::external_body]
pub(crate) fn parse_facet(path: &str) -> (r: Result<String, tantivy::schema::FacetParseError>)
    ensures
        r is Ok <==> is_facet_path(path@),
        r is Ok ==> r->Ok_0@ == facet_encoding(path@),
{
    tantivy::schema::Facet::from_text(path).map(|f| f.encoded_str().to_string())
}

/// The name of the free-text field.
pub const TITLE_FIELD: &'static str = "title";

/// The name of the category facet field.
pub const CATEGORY_FIELD: &'static str = "category";

/// Whether tantivy's query for a clause finds a document, given as title and
/// encoded facet.
pub open spec fn clause_admits(c: Clause, doc: (Seq<char>, Seq<char>)) -> bool {
    match c {
        Clause::Text(q) => q@.contains('*') || text_matches(q@, doc.0, doc.1),
        Clause::Facet(f) => facet_within(f@, doc.1),
    }
}

/// Whether tantivy's query for a plan finds a document: every clause of it
/// does.
pub open spec fn plan_admits(plan: QueryPlan, doc: (Seq<char>, Seq<char>)) -> bool {
    match plan {
        QueryPlan::MatchAll => true,
        QueryPlan::Single(c) => clause_admits(c, doc),
        QueryPlan::Conjunction(cs) => forall|i: int| 0 <= i < cs@.len() ==> clause_admits(#[trigger] cs@[i], doc),
    }
}

/// Whether no text clause of a plan holds `*`.
pub open spec fn plan_fixed(plan: QueryPlan) -> bool {
    match plan {
        QueryPlan::MatchAll => true,
        QueryPlan::Single(c) => c matches Clause::Text(q) ==> !q@.contains('*'),
        QueryPlan::Conjunction(cs) => forall|i: int| 0 <= i < cs@.len() ==>
            (#[trigger] cs@[i] matches Clause::Text(q) ==> !q@.contains('*')),
    }
}

/// The committed documents of an index that a plan admits, in commit order.
pub open spec fn matching_docs(index: tantivy::Index, plan: QueryPlan) -> Seq<(Seq<char>, Seq<char>)> {
    index_docs(index).filter(|d: (Seq<char>, Seq<char>)| plan_admits(plan, d))
}

/// Part of `commit_document`. Relies on `TantivyDocument::add_text` and
/// `add_facet`: the document to write, with the facet rebuilt from its encoded form by
/// `Facet::from_path`.
#[verifier::external_body]
fn new_document(index: &tantivy::Index, title: &str, facet: &str) -> (r: Result<TantivyDocument, TantivyError>) {
    let schema = index.schema();
    let mut doc = TantivyDocument::default();
    doc.add_text(schema.get_field(TITLE_FIELD)?, title);
    doc.add_facet(schema.get_field(CATEGORY_FIELD)?, Facet::from_path(facet.split('\u{0}')));
    Ok(doc)
}

/// Relies on `Index::writer`, `IndexWriter::add_document` and
/// `IndexWriter::commit`: a document with the given title and encoded facet is
/// committed, and visible to every reader opened afterwards; on an error
/// nothing is committed. Said of an index in memory only.
#[verifier::external_body]
pub(crate) fn commit_document(index: &mut tantivy::Index, title: &str, facet: &str) -> (r: Result<(), TantivyError>)
    ensures
        in_memory(*final(index)) == in_memory(*old(index)),
        in_memory(*old(index)) && r is Ok ==> index_docs(*final(index)) == index_docs(*old(index)).push((title@, facet@)),
        in_memory(*old(index)) && r is Err ==> index_docs(*final(index)) == index_docs(*old(index)),
{
    let doc = new_document(index, title, facet)?;
    let mut writer: tantivy::IndexWriter = index.writer(50_000_000)?;
    writer.add_document(doc)?;
    writer.commit()?;
    Ok(())
}

/// Relies on `QueryParser::parse_query` over the title field: whether the
/// text query is accepted.
#[verifier::external_body]
pub(crate) fn check_text_query(index: &tantivy::Index, query: &str) -> (r: Result<(), tantivy::query::QueryParserError>)
    ensures
        r is Ok <==> text_query_parses(query@),
{
    let title = index.schema().get_field(TITLE_FIELD).map_err(|_| tantivy::query::QueryParserError::FieldDoesNotExist(TITLE_FIELD.to_string()))?;
    tantivy::query::QueryParser::for_index(index, vec![title]).parse_query(query).map(|_| ())
}

/// Part of `top_docs`. Relies on `QueryParser::parse_query` and `TermQuery`:
/// one clause as a tantivy query, held as the only `Must` clause of a
/// `BooleanQuery`.
#[verifier::external_body]
fn clause_query(index: &tantivy::Index, c: &Clause) -> (r: Result<BooleanQuery, TantivyError>) {
    let schema = index.schema();
    let leaf: Box<dyn Query> = match c {
        Clause::Text(q) => QueryParser::for_index(index, vec![schema.get_field(TITLE_FIELD)?])
            .parse_query(q).map_err(|e| TantivyError::InvalidArgument(e.to_string()))?,
        Clause::Facet(f) => Box::new(TermQuery::new(
            Term::from_facet(schema.get_field(CATEGORY_FIELD)?, &Facet::from_path(f.split('\u{0}'))),
            IndexRecordOption::Basic)),
    };
    Ok(BooleanQuery::new(vec![(Occur::Must, leaf)]))
}

/// Part of `top_docs`. Relies on `AllQuery` and `BooleanQuery::intersection`:
/// a plan as a tantivy query, one for one.
#[verifier::external_body]
fn plan_as_query(index: &tantivy::Index, plan: &QueryPlan) -> (r: Result<BooleanQuery, TantivyError>) {
    Ok(match plan {
        QueryPlan::MatchAll => BooleanQuery::new(vec![(Occur::Must, Box::new(AllQuery))]),
        QueryPlan::Single(c) => clause_query(index, c)?,
        QueryPlan::Conjunction(cs) => BooleanQuery::intersection(cs.iter()
            .map(|c| clause_query(index, c).map(|q| Box::new(q) as Box<dyn Query>))
            .collect::<Result<Vec<_>, _>>()?),
    })
}

/// Part of `top_docs`. Relies on `Searcher::doc`: the stored title and facet
/// of a hit.
#[verifier::external_body]
fn stored_record(searcher: &Searcher, address: DocAddress) -> (r: Result<DocRecord, TantivyError>) {
    let doc: TantivyDocument = searcher.doc(address)?;
    let schema = searcher.schema();
    let (title, category) = (schema.get_field(TITLE_FIELD)?, schema.get_field(CATEGORY_FIELD)?);
    Ok(DocRecord {
        title: doc.get_first(title).and_then(|v| v.as_str()).unwrap_or_default().to_string(),
        facet: doc.get_first(category).and_then(|v| v.as_facet()).map(|f| f.encoded_str().to_string()).unwrap_or_default(),
    })
}

/// Relies on `Searcher::search` with `TopDocs::with_limit`, and on
/// `Searcher::doc`: the plan is turned into tantivy's query one for one (no
/// clause: `AllQuery`; one: the clause itself; more: `BooleanQuery::intersection`),
/// and the stored fields of the top hits are read back. As many documents come
/// back as match, up to the limit, each one a committed document that matches,
/// and no document more often than the index holds it. Said of an index in
/// memory only; the count, of a plan whose text holds no `*` only.
#[verifier::external_body]
pub(crate) fn top_docs(index: &tantivy::Index, plan: &QueryPlan, limit: usize) -> (r: Result<Vec<DocRecord>, TantivyError>)
    requires
        limit > 0,
        plan matches QueryPlan::Conjunction(cs) ==> cs@.len() >= 2,
    ensures
        r is Ok ==> r->Ok_0@.len() <= limit,
        in_memory(*index) && r is Ok ==> forall|j: int| 0 <= j < r->Ok_0@.len() ==> matching_docs(*index, *plan).contains(#[trigger] r->Ok_0@[j]@),
        forall|j: int| *plan matches QueryPlan::Single(Clause::Text(q)) ==> (in_memory(*index) && !q@.contains('*') && r is Ok && 0 <= j < r->Ok_0@.len() ==> text_matches(q@, (#[trigger] r->Ok_0@[j]).title@, r->Ok_0@[j].facet@)),
        in_memory(*index) && r is Ok ==> r->Ok_0@.map_values(|d: DocRecord| d@).to_multiset().subset_of(matching_docs(*index, *plan).to_multiset()),
        in_memory(*index) && plan_fixed(*plan) && r is Ok ==> r->Ok_0@.len() == if matching_docs(*index, *plan).len() < limit { matching_docs(*index, *plan).len() as int } else { limit as int },
        in_memory(*index) && plan_fixed(*plan) && r is Ok && matching_docs(*index, *plan).len() <= limit ==> r->Ok_0@.map_values(|d: DocRecord| d@).to_multiset() =~= matching_docs(*index, *plan).to_multiset(),
{
    let query = plan_as_query(index, plan)?;
    let searcher = index.reader()?.searcher();
    let hits = searcher.search(&query, &TopDocs::with_limit(limit))?;
    hits.into_iter().map(|(_, address)| stored_record(&searcher, address)).collect()
}

/// Relies on `Searcher::num_docs`: how many documents a reader of the index
/// sees.
#[verifier::external_body]
pub(crate) fn doc_count(index: &tantivy::Index) -> (r: Result<u64, TantivyError>)
    ensures
        in_memory(*index) && r is Ok ==> r->Ok_0 == index_docs(*index).len(),
{
    Ok(index.reader()?.searcher().num_docs())
}

/// Relies on `TantivyError`'s `Display`: the message of an engine error.
#[verifier::external_body]
pub(crate) fn engine_error_text(e: &TantivyError) -> (r: String) {
    e.to_string()
}

/// Relies on `QueryParserError`'s `Display`: the message of a query error.
#[verifier::external_body]
pub(crate) fn query_error_text(e: &tantivy::query::QueryParserError) -> (r: String) {
    e.to_string()
}

} // verus!
