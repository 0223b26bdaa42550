use facet_search::ids::{find_id, format_id};
use facet_search::model::{Clause, DocRecord, QueryPlan};
use facet_search::plan::plan_query;
use facet_search::store::{add_document, create_index, facet_code, search, EngineError, IndexStore, TOP_K};
use tantivy::directory::MmapDirectory;

fn titles(found: &[DocRecord]) -> Vec<String> {
    let mut t: Vec<String> = found.iter().map(|d| d.title.clone()).collect();
    t.sort();
    t
}

fn library() -> (IndexStore, String) {
    let mut store = IndexStore::new();
    let id = create_index(&mut store, None).unwrap();
    add_document(&mut store, &id, "Dune", "/fiction/scifi").unwrap();
    add_document(&mut store, &id, "Hobbit", "/fiction/fantasy").unwrap();
    (store, id)
}

#[test]
fn dune_and_hobbit_example() {
    let (store, id) = library();
    let by_text = search(&store, &id, Some("Dune"), None).unwrap();
    assert_eq!(titles(&by_text), vec!["Dune".to_string()]);
    let by_facet = search(&store, &id, None, Some("/fiction/fantasy")).unwrap();
    assert_eq!(titles(&by_facet), vec!["Hobbit".to_string()]);
    let both = search(&store, &id, Some("Dune"), Some("/fiction/fantasy")).unwrap();
    assert!(both.is_empty());
}

#[test]
fn ephemeral_indexes_are_separate() {
    let mut store = IndexStore::new();
    let a = create_index(&mut store, None).unwrap();
    let b = create_index(&mut store, None).unwrap();
    assert_ne!(a, b);
    assert_eq!(a, "0");
    assert_eq!(b, "1");
    add_document(&mut store, &a, "Dune", "/fiction/scifi").unwrap();
    assert!(search(&store, &b, Some("Dune"), None).unwrap().is_empty());
    assert!(search(&store, &b, None, None).unwrap().is_empty());
    assert_eq!(search(&store, &a, None, None).unwrap().len(), 1);
}

#[test]
fn text_query_finds_each_term_of_a_title() {
    let mut store = IndexStore::new();
    let id = create_index(&mut store, None).unwrap();
    add_document(&mut store, &id, "The Left Hand of Darkness", "/fiction/scifi").unwrap();
    add_document(&mut store, &id, "Dune Messiah", "/fiction/scifi").unwrap();
    let found = search(&store, &id, Some("darkness"), None).unwrap();
    assert_eq!(titles(&found), vec!["The Left Hand of Darkness".to_string()]);
    let found = search(&store, &id, Some("messiah"), None).unwrap();
    assert_eq!(titles(&found), vec!["Dune Messiah".to_string()]);
}

#[test]
fn facet_filter_is_exact() {
    let mut store = IndexStore::new();
    let id = create_index(&mut store, None).unwrap();
    add_document(&mut store, &id, "Dune", "/fiction/scifi").unwrap();
    add_document(&mut store, &id, "Hobbit", "/fiction/fantasy").unwrap();
    add_document(&mut store, &id, "Cosmos", "/nonfiction/science").unwrap();
    let found = search(&store, &id, None, Some("/fiction/scifi")).unwrap();
    assert_eq!(titles(&found), vec!["Dune".to_string()]);
    assert_eq!(found[0].facet, "fiction\u{0}scifi");
    assert!(search(&store, &id, None, Some("/poetry")).unwrap().is_empty());
}

#[test]
fn text_and_facet_intersect() {
    let mut store = IndexStore::new();
    let id = create_index(&mut store, None).unwrap();
    add_document(&mut store, &id, "Dune", "/fiction/scifi").unwrap();
    add_document(&mut store, &id, "Dune Guide", "/nonfiction/guides").unwrap();
    add_document(&mut store, &id, "Hyperion", "/fiction/scifi").unwrap();
    let found = search(&store, &id, Some("dune"), Some("/fiction/scifi")).unwrap();
    assert_eq!(titles(&found), vec!["Dune".to_string()]);
    let found = search(&store, &id, Some("dune"), Some("/nonfiction/guides")).unwrap();
    assert_eq!(titles(&found), vec!["Dune Guide".to_string()]);
}

#[test]
fn match_all_is_capped_at_ten() {
    let mut store = IndexStore::new();
    let id = create_index(&mut store, None).unwrap();
    for i in 0..12 {
        add_document(&mut store, &id, &format!("Book {}", i), "/shelf").unwrap();
    }
    assert_eq!(TOP_K, 10);
    assert_eq!(search(&store, &id, None, None).unwrap().len(), 10);
    let mut small = IndexStore::new();
    let id = create_index(&mut small, None).unwrap();
    assert!(search(&small, &id, None, None).unwrap().is_empty());
    add_document(&mut small, &id, "Only", "/shelf").unwrap();
    assert_eq!(titles(&search(&small, &id, None, None).unwrap()), vec!["Only".to_string()]);
}

#[test]
fn persistent_index_reopens_with_its_documents() {
    let directory = MmapDirectory::create_from_tempdir().unwrap();
    let mut first = IndexStore::new();
    let id = create_index(&mut first, Some(directory.clone())).unwrap();
    add_document(&mut first, &id, "Dune", "/fiction/scifi").unwrap();
    add_document(&mut first, &id, "Hobbit", "/fiction/fantasy").unwrap();
    let before = titles(&search(&first, &id, Some("Dune"), None).unwrap());
    drop(first);
    let mut second = IndexStore::new();
    let id = create_index(&mut second, Some(directory)).unwrap();
    assert_eq!(titles(&search(&second, &id, Some("Dune"), None).unwrap()), before);
    assert_eq!(titles(&search(&second, &id, None, None).unwrap()), vec!["Dune".to_string(), "Hobbit".to_string()]);
}

#[test]
fn unknown_index_is_not_found() {
    let (mut store, _) = library();
    assert!(matches!(add_document(&mut store, "7", "X", "/x"), Err(EngineError::NotFound)));
    assert!(matches!(search(&store, "7", None, None), Err(EngineError::NotFound)));
    assert!(matches!(search(&store, "00", None, None), Err(EngineError::NotFound)));
}

#[test]
fn facet_without_leading_slash_is_one_flat_segment() {
    let (mut store, id) = library();
    add_document(&mut store, &id, "Loose", "fiction").unwrap();
    let found = search(&store, &id, None, Some("fiction")).unwrap();
    assert_eq!(titles(&found), vec!["Loose".to_string()]);
    assert_eq!(found[0].facet, "fiction");
    assert_eq!(facet_code("fiction"), "fiction");
    assert_eq!(facet_code("/fiction/scifi"), "fiction\u{0}scifi");
    assert_eq!(facet_code("/"), "");
    assert_eq!(search(&store, &id, None, None).unwrap().len(), 3);
}

#[test]
fn facet_filter_does_not_find_descendants() {
    let (store, id) = library();
    assert!(search(&store, &id, None, Some("/fiction")).unwrap().is_empty());
    assert!(search(&store, &id, None, Some("/")).unwrap().is_empty());
    assert!(search(&store, &id, Some("dune"), Some("/fiction")).unwrap().is_empty());
}

#[test]
fn facet_filter_is_capped_with_distinct_documents() {
    let mut store = IndexStore::new();
    let id = create_index(&mut store, None).unwrap();
    for i in 0..12 {
        add_document(&mut store, &id, &format!("Book {}", i), "/shelf").unwrap();
        add_document(&mut store, &id, &format!("Child {}", i), "/shelf/low").unwrap();
    }
    let found = search(&store, &id, None, Some("/shelf")).unwrap();
    assert_eq!(found.len(), 10);
    let mut names = titles(&found);
    names.dedup();
    assert_eq!(names.len(), 10);
    assert!(found.iter().all(|d| d.facet == "shelf"));
}

#[test]
fn same_directory_twice_gets_two_fresh_identifiers() {
    let directory = MmapDirectory::create_from_tempdir().unwrap();
    let mut store = IndexStore::new();
    let a = create_index(&mut store, Some(directory.clone())).unwrap();
    let b = create_index(&mut store, Some(directory)).unwrap();
    assert_eq!(a, "0");
    assert_eq!(b, "1");
    assert_eq!(store.len(), 2);
    add_document(&mut store, &a, "Dune", "/fiction/scifi").unwrap();
    assert_eq!(titles(&search(&store, &b, Some("dune"), None).unwrap()), vec!["Dune".to_string()]);
}

#[test]
fn phrase_prefix_query_runs() {
    let mut store = IndexStore::new();
    let id = create_index(&mut store, None).unwrap();
    add_document(&mut store, &id, "big bad wolf", "/tales").unwrap();
    add_document(&mut store, &id, "little pigs", "/tales").unwrap();
    let found = search(&store, &id, Some("\"big bad wo\"*"), Some("/tales")).unwrap();
    assert_eq!(titles(&found), vec!["big bad wolf".to_string()]);
}

#[test]
fn malformed_text_query_is_refused() {
    let (store, id) = library();
    assert!(matches!(search(&store, &id, Some("nosuchfield:dune"), None), Err(EngineError::Query(_))));
}

#[test]
fn identifiers_are_decimal_positions() {
    assert_eq!(format_id(0), "0");
    assert_eq!(format_id(9), "9");
    assert_eq!(format_id(10), "10");
    assert_eq!(format_id(1234), "1234");
    assert_eq!(find_id(3, "2"), Some(2));
    assert_eq!(find_id(3, "3"), None);
    assert_eq!(find_id(20, "12"), Some(12));
    assert_eq!(find_id(20, "x"), None);
}

#[test]
fn plans_by_clause_count() {
    assert!(matches!(plan_query(None, None), QueryPlan::MatchAll));
    assert!(matches!(plan_query(Some("a".to_string()), None), QueryPlan::Single(Clause::Text(_))));
    assert!(matches!(plan_query(None, Some("f".to_string())), QueryPlan::Single(Clause::Facet(_))));
    match plan_query(Some("a".to_string()), Some("f".to_string())) {
        QueryPlan::Conjunction(cs) => assert_eq!(cs.len(), 2),
        other => panic!("expected a conjunction, got {:?}", other),
    }
}

#[test]
fn directory_of_another_schema_is_a_storage_error() {
    let directory = MmapDirectory::create_from_tempdir().unwrap();
    let mut builder = tantivy::schema::Schema::builder();
    builder.add_text_field("body", tantivy::schema::TEXT);
    tantivy::Index::open_or_create(directory.clone(), builder.build()).unwrap();
    let mut store = IndexStore::new();
    assert!(matches!(create_index(&mut store, Some(directory)), Err(EngineError::Storage(_))));
    assert_eq!(store.len(), 0);
}

#[test]
fn facet_escapes_keep_the_next_character() {
    assert_eq!(facet_code("/a\\/b"), "a/b");
    assert_eq!(facet_code("/a//b"), "a\u{0}\u{0}b");
    assert_eq!(facet_code("/a\\"), "a");
    assert_eq!(facet_code("/a\\\\b/c"), "a\\b\u{0}c");
}
