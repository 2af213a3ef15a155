use groxide::search::{parse_query, score_term, search, SearchEntry};
use groxide::types::{DocIndex, IndexItem, ItemKind, SourceSpan};
use groxide::error::GroxError;

fn make_item(name: &str, path: &str, kind: ItemKind) -> IndexItem {
    IndexItem {
        path: path.to_string(),
        name: name.to_string(),
        kind,
        signature: String::new(),
        docs: String::new(),
        summary: String::new(),
        span: SourceSpan { file: String::new(), line_start: 0, line_end: 0 },
        children: Vec::new(),
        is_public: true,
        has_body: false,
        feature_gate: None,
        reexport_source: None,
    }
}

fn make_item_with_sig(name: &str, path: &str, kind: ItemKind, signature: &str) -> IndexItem {
    let mut item = make_item(name, path, kind);
    item.signature = signature.to_string();
    item
}

fn make_item_with_docs(name: &str, path: &str, kind: ItemKind, docs: &str) -> IndexItem {
    let mut item = make_item(name, path, kind);
    item.docs = docs.to_string();
    item
}

fn build_test_index(items: Vec<IndexItem>) -> DocIndex {
    let mut index = DocIndex::new("testcrate".to_string(), "0.1.0".to_string());
    for item in items {
        index.add_item(item);
    }
    index
}

// ---- Exact name match scores 100 ----

#[test]
fn search_exact_name_match_scores_100() {
    let index = build_test_index(vec![make_item(
        "Mutex",
        "testcrate::sync::Mutex",
        ItemKind::Struct,
    )]);

    let results = search(&index, "mutex", None).unwrap();
    assert_eq!(results.len(), 1);
    assert_eq!(results[0].score, 100);
    assert_eq!(results[0].index, 0);
}

// ---- Substring match scores 75 ----

#[test]
fn search_substring_name_match_scores_75() {
    let index = build_test_index(vec![make_item(
        "HashMap",
        "testcrate::HashMap",
        ItemKind::Struct,
    )]);

    let results = search(&index, "map", None).unwrap();
    assert_eq!(results.len(), 1);
    assert_eq!(results[0].score, 75);
}

// ---- Signature match scores 40 ----

#[test]
fn search_signature_match_scores_40() {
    let index = build_test_index(vec![make_item_with_sig(
        "connect",
        "testcrate::connect",
        ItemKind::Function,
        "pub fn connect(addr: SocketAddr) -> TcpStream",
    )]);

    // "socketaddr" appears only in the signature, not in name
    let results = search(&index, "socketaddr", None).unwrap();
    assert_eq!(results.len(), 1);
    assert_eq!(results[0].score, 40);
}

// ---- Module path match scores 30 ----

#[test]
fn search_module_path_match_scores_30() {
    let index = build_test_index(vec![make_item(
        "Mutex",
        "testcrate::sync::Mutex",
        ItemKind::Struct,
    )]);

    // "sync" appears in the module path but not in name, signature, or docs
    let results = search(&index, "sync", None).unwrap();
    assert_eq!(results.len(), 1);
    assert_eq!(results[0].score, 30);
}

// ---- Doc match scores 20 ----

#[test]
fn search_doc_match_scores_20() {
    let index = build_test_index(vec![make_item_with_docs(
        "Mutex",
        "testcrate::Mutex",
        ItemKind::Struct,
        "A mutual exclusion primitive useful for protecting shared data.",
    )]);

    // "primitive" appears only in docs
    let results = search(&index, "primitive", None).unwrap();
    assert_eq!(results.len(), 1);
    assert_eq!(results[0].score, 20);
}

// ---- OR query finds both ----

#[test]
fn search_or_query_finds_both_terms() {
    let index = build_test_index(vec![
        make_item("Mutex", "testcrate::Mutex", ItemKind::Struct),
        make_item("RwLock", "testcrate::RwLock", ItemKind::Struct),
        make_item("Vec", "testcrate::Vec", ItemKind::Struct),
    ]);

    let results = search(&index, "Mutex | RwLock", None).unwrap();
    assert_eq!(results.len(), 2);

    let names: Vec<&str> = results
        .iter()
        .map(|r| index.items[r.index].name.as_str())
        .collect();
    assert!(names.contains(&"Mutex"));
    assert!(names.contains(&"RwLock"));
}

// ---- Results capped at 20 ----

#[test]
fn search_results_capped_at_20() {
    let items: Vec<IndexItem> = (0..30)
        .map(|i| {
            make_item_with_docs(
                &format!("Item{i}"),
                &format!("testcrate::Item{i}"),
                ItemKind::Struct,
                "searchable content here",
            )
        })
        .collect();
    let index = build_test_index(items);

    let results = search(&index, "searchable", None).unwrap();
    assert!(results.len() <= 20);
}

// ---- Empty query returns error ----

#[test]
fn search_empty_query_returns_error() {
    let index = build_test_index(vec![]);
    let result = search(&index, "", None);
    assert!(result.is_err());

    let result = search(&index, "   ", None);
    assert!(result.is_err());

    let result = search(&index, " | ", None);
    assert!(result.is_err());
}

// ---- Kind filter restricts results ----

#[test]
fn search_kind_filter_restricts_results() {
    let index = build_test_index(vec![
        make_item("Mutex", "testcrate::Mutex", ItemKind::Struct),
        make_item("mutex_new", "testcrate::mutex_new", ItemKind::Function),
    ]);

    // Without filter: both match "mutex"
    let all_results = search(&index, "mutex", None).unwrap();
    assert_eq!(all_results.len(), 2);

    // With struct filter: only Mutex
    let filtered = search(&index, "mutex", Some(ItemKind::Struct)).unwrap();
    assert_eq!(filtered.len(), 1);
    assert_eq!(index.items[filtered[0].index].name, "Mutex");

    // With function filter: only mutex_new
    let filtered = search(&index, "mutex", Some(ItemKind::Function)).unwrap();
    assert_eq!(filtered.len(), 1);
    assert_eq!(index.items[filtered[0].index].name, "mutex_new");
}

// ---- Sorting: score desc, path asc ----

#[test]
fn search_results_sorted_by_score_desc_then_path_asc() {
    let index = build_test_index(vec![
        make_item_with_docs(
            "Zeta",
            "testcrate::Zeta",
            ItemKind::Struct,
            "contains the word target in docs",
        ),
        make_item("target", "testcrate::target", ItemKind::Function),
        make_item("Alpha", "testcrate::Alpha", ItemKind::Struct),
    ]);
    // "target" is:
    // - exact name match for "target" function (score 100)
    // - doc match for "Zeta" (score 20)
    // - "Alpha" doesn't match

    let results = search(&index, "target", None).unwrap();
    assert_eq!(results.len(), 2);
    assert_eq!(results[0].score, 100); // target (exact name)
    assert_eq!(results[1].score, 20); // Zeta (doc match)
}

// ---- Path-based dedup for re-exports ----

#[test]
fn search_deduplicates_by_path() {
    let index = build_test_index(vec![
        make_item("Mutex", "testcrate::sync::Mutex", ItemKind::Struct),
        make_item("Mutex", "testcrate::sync::Mutex", ItemKind::Struct),
    ]);

    let results = search(&index, "mutex", None).unwrap();
    // Both items have the same path — dedup should keep only the first
    assert_eq!(results.len(), 1);
}

// ---- AND query requires all terms ----

#[test]
fn search_and_query_requires_all_terms() {
    let index = build_test_index(vec![
        make_item_with_sig(
            "read_file",
            "testcrate::read_file",
            ItemKind::Function,
            "pub fn read_file(path: &Path) -> String",
        ),
        make_item("read", "testcrate::read", ItemKind::Function),
    ]);

    // "read file" requires both terms
    let results = search(&index, "read file", None).unwrap();
    // Only read_file matches both (name contains "read" and "file")
    assert_eq!(results.len(), 1);
    assert_eq!(index.items[results[0].index].name, "read_file");
}

// ---- Docs truncated to 500 chars for search ----

#[test]
fn search_docs_truncated_to_500_chars() {
    let long_docs = format!("{}unique_deep_marker", "x".repeat(600));
    let index = build_test_index(vec![make_item_with_docs(
        "LongDoc",
        "testcrate::LongDoc",
        ItemKind::Struct,
        &long_docs,
    )]);

    // "unique_deep_marker" is past 500 chars, should not be found
    let results = search(&index, "unique_deep_marker", None).unwrap();
    assert!(results.is_empty());
}

// ---- Tier interactions: signature overrides path but not name ----

#[test]
fn search_signature_overrides_path_score() {
    let mut item = make_item(
        "something",
        "testcrate::network::something",
        ItemKind::Function,
    );
    item.signature = "pub fn something(network: Network)".to_string();

    let index = build_test_index(vec![item]);

    // "network" appears in both module path (score 30) and signature (score 40)
    // Signature should win (40 > 30)
    let results = search(&index, "network", None).unwrap();
    assert_eq!(results.len(), 1);
    assert_eq!(results[0].score, 40);
}

#[test]
fn search_name_not_overridden_by_signature() {
    let mut item = make_item("connect", "testcrate::connect", ItemKind::Function);
    item.signature = "pub fn connect()".to_string();

    let index = build_test_index(vec![item]);

    // "connect" matches name exactly (100) and signature (40)
    // Name should win (100 > 40)
    let results = search(&index, "connect", None).unwrap();
    assert_eq!(results.len(), 1);
    assert_eq!(results[0].score, 100);
}

// ---- OR with empty groups handled gracefully ----

#[test]
fn search_or_with_empty_groups_handled() {
    let index = build_test_index(vec![make_item(
        "Mutex",
        "testcrate::Mutex",
        ItemKind::Struct,
    )]);

    // Leading/trailing pipes should not cause issues
    let results = search(&index, "|mutex", None).unwrap();
    assert_eq!(results.len(), 1);

    let results = search(&index, "mutex|", None).unwrap();
    assert_eq!(results.len(), 1);

    let results = search(&index, "mutex||rwlock", None).unwrap();
    assert_eq!(results.len(), 1);
}

// ---- parse_query tests ----

#[test]
fn parse_query_single_term() {
    let groups = parse_query("read").unwrap();
    assert_eq!(groups, vec![vec!["read"]]);
}

#[test]
fn parse_query_and_terms() {
    let groups = parse_query("async file").unwrap();
    assert_eq!(groups, vec![vec!["async", "file"]]);
}

#[test]
fn parse_query_or_terms() {
    let groups = parse_query("read|write").unwrap();
    assert_eq!(groups, vec![vec!["read"], vec!["write"]]);
}

#[test]
fn parse_query_mixed_and_or() {
    let groups = parse_query("async read|write").unwrap();
    assert_eq!(groups, vec![vec!["async", "read"], vec!["write"]]);
}

#[test]
fn parse_query_empty_returns_error() {
    assert!(parse_query("").is_err());
    assert!(parse_query("   ").is_err());
    assert!(parse_query("|").is_err());
    assert!(parse_query("||").is_err());
}

#[test]
fn parse_query_lowercases_input() {
    let groups = parse_query("Mutex").unwrap();
    assert_eq!(groups, vec![vec!["mutex"]]);
}

// ---- score_term unit tests ----

#[test]
fn score_term_exact_name_returns_100() {
    let entry = SearchEntry {
        name: "mutex".to_string(),
        path: "crate::mutex".to_string(),
        signature: String::new(),
        docs: String::new(),
    };
    assert_eq!(score_term(&entry, "mutex"), 100);
}

#[test]
fn score_term_name_substring_returns_75() {
    let entry = SearchEntry {
        name: "hashmap".to_string(),
        path: "crate::hashmap".to_string(),
        signature: String::new(),
        docs: String::new(),
    };
    assert_eq!(score_term(&entry, "map"), 75);
}

#[test]
fn score_term_signature_returns_40() {
    let entry = SearchEntry {
        name: "connect".to_string(),
        path: "crate::connect".to_string(),
        signature: "pub fn connect(addr: socketaddr)".to_string(),
        docs: String::new(),
    };
    assert_eq!(score_term(&entry, "socketaddr"), 40);
}

#[test]
fn score_term_module_path_returns_30() {
    let entry = SearchEntry {
        name: "mutex".to_string(),
        path: "crate::sync::mutex".to_string(),
        signature: String::new(),
        docs: String::new(),
    };
    assert_eq!(score_term(&entry, "sync"), 30);
}

#[test]
fn score_term_docs_returns_20() {
    let entry = SearchEntry {
        name: "mutex".to_string(),
        path: "crate::mutex".to_string(),
        signature: String::new(),
        docs: "thread-safe locking primitive".to_string(),
    };
    assert_eq!(score_term(&entry, "locking"), 20);
}

#[test]
fn score_term_no_match_returns_0() {
    let entry = SearchEntry {
        name: "mutex".to_string(),
        path: "crate::mutex".to_string(),
        signature: String::new(),
        docs: String::new(),
    };
    assert_eq!(score_term(&entry, "zzzzz"), 0);
}

#[test]
fn score_term_module_path_excludes_name_segment() {
    // "mutex" appears in the path as the last segment (the name),
    // but the module path (everything before last "::") doesn't contain "mutex"
    let entry = SearchEntry {
        name: "mutex".to_string(),
        path: "crate::sync::mutex".to_string(),
        signature: String::new(),
        docs: String::new(),
    };
    // "mutex" as a term: name exact match (100), not module path match
    assert_eq!(score_term(&entry, "mutex"), 100);
}

#[test]
fn search_empty_query_message() {
    let index = build_test_index(vec![]);
    match search(&index, "||", None) {
        Err(GroxError::InvalidQuery { message }) => assert_eq!(message, "search query cannot be empty"),
        _ => panic!("expected an invalid-query error"),
    }
}
