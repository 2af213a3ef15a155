use groxide::cli::{CrateSpec, QueryPath};
use groxide::resolution::resolve_item;
use groxide::query::{
    compute_suggestions, could_match_within_distance, levenshtein_distance, lookup, lookup_method,
    looks_like_item_name,
};
use groxide::types::{ChildRef, DocIndex, IndexItem, ItemKind, QueryResult, SourceSpan};

fn make_item(name: &str, path: &str, kind: ItemKind) -> IndexItem {
    IndexItem {
        path: path.to_string(),
        name: name.to_string(),
        kind,
        signature: String::new(),
        docs: String::new(),
        summary: String::new(),
        span: SourceSpan { file: String::new(), line_start: 0, line_end: 0 },
        children: Vec::new(),
        is_public: true,
        has_body: false,
        feature_gate: None,
        reexport_source: None,
    }
}

/// Builds a synthetic `DocIndex` with common test items.
fn build_test_index() -> DocIndex {
    let mut index = DocIndex::new("tokio".to_string(), "1.0.0".to_string());

    // Index 0: crate root
    index.add_item(make_item("tokio", "tokio", ItemKind::Module));
    // Index 1: sync module
    index.add_item(make_item("sync", "tokio::sync", ItemKind::Module));
    // Index 2: Mutex struct
    index.add_item(make_item("Mutex", "tokio::sync::Mutex", ItemKind::Struct));
    // Index 3: RwLock struct
    index.add_item(make_item("RwLock", "tokio::sync::RwLock", ItemKind::Struct));
    // Index 4: spawn function
    index.add_item(make_item("spawn", "tokio::spawn", ItemKind::Function));
    // Index 5: Runtime struct at crate root
    index.add_item(make_item("Runtime", "tokio::Runtime", ItemKind::Struct));
    // Index 6: Builder struct nested
    index.add_item(make_item(
        "Builder",
        "tokio::runtime::Builder",
        ItemKind::Struct,
    ));
    // Index 7: MAX_THREADS constant
    index.add_item(make_item(
        "MAX_THREADS",
        "tokio::runtime::MAX_THREADS",
        ItemKind::Constant,
    ));

    index
}

// ---- Stage 1: Exact path match ----

#[test]
fn lookup_returns_found_when_exact_path_matches() {
    let index = build_test_index();
    let result = lookup(&index, "tokio::sync::Mutex", None);
    match result {
        QueryResult::Found { index: idx } => {
            assert_eq!(idx, 2);
        }
        other => panic!("expected Found, got {other:?}"),
    }
}

#[test]
fn lookup_returns_found_for_exact_crate_root() {
    let index = build_test_index();
    let result = lookup(&index, "tokio", None);
    match result {
        QueryResult::Found { index: idx } => {
            assert_eq!(idx, 0);
        }
        other => panic!("expected Found, got {other:?}"),
    }
}

// ---- Stage 2: Case-insensitive path match ----

#[test]
fn lookup_returns_found_when_case_insensitive_path_matches() {
    let index = build_test_index();
    // "mutex" (all lowercase) should find "Mutex" case-insensitively
    let result = lookup(&index, "mutex", None);
    match result {
        QueryResult::Found { index: idx } => {
            assert_eq!(index.items[idx].name, "Mutex");
        }
        other => panic!("expected Found, got {other:?}"),
    }
}

#[test]
fn lookup_case_insensitive_full_path() {
    let index = build_test_index();
    // "tokio::sync::mutex" (all lowercase) should match "tokio::sync::Mutex"
    let result = lookup(&index, "tokio::sync::mutex", None);
    match result {
        QueryResult::Found { index: idx } => {
            assert_eq!(index.items[idx].path, "tokio::sync::Mutex");
        }
        other => panic!("expected Found, got {other:?}"),
    }
}

// ---- Stage 3: Suffix match ----

#[test]
fn lookup_returns_found_when_suffix_matches() {
    let index = build_test_index();
    // "sync::Mutex" should match "tokio::sync::Mutex"
    let result = lookup(&index, "sync::Mutex", None);
    match result {
        QueryResult::Found { index: idx } => {
            assert_eq!(index.items[idx].path, "tokio::sync::Mutex");
        }
        other => panic!("expected Found, got {other:?}"),
    }
}

#[test]
fn lookup_suffix_match_case_insensitive() {
    let index = build_test_index();
    // "sync::mutex" (all lowercase) should match "tokio::sync::Mutex"
    let result = lookup(&index, "sync::mutex", None);
    match result {
        QueryResult::Found { index: idx } => {
            assert_eq!(index.items[idx].path, "tokio::sync::Mutex");
        }
        other => panic!("expected Found, got {other:?}"),
    }
}

// ---- Non-duplicate filtering ----

#[test]
fn lookup_prefers_non_duplicate_suffix_match() {
    // If "sync" appears as both "tokio::sync" (module) and "tokio::sync::sync" (hypothetical),
    // prefer the one where "sync" does NOT appear earlier in the path.
    let mut index = DocIndex::new("mycrate".to_string(), "1.0.0".to_string());
    // "sync" appears in the path prefix AND as the last segment -> duplicate
    index.add_item(make_item("sync", "mycrate::sync::sync", ItemKind::Function));
    // "sync" only appears as the last segment -> non-duplicate
    index.add_item(make_item("sync", "mycrate::sync", ItemKind::Module));

    let result = lookup(&index, "sync", None);
    match result {
        QueryResult::Found { index: idx } => {
            assert_eq!(index.items[idx].path, "mycrate::sync");
        }
        other => panic!("expected Found, got {other:?}"),
    }
}

// ---- Stage 4: Name match ----

#[test]
fn lookup_returns_found_via_name_match() {
    // Name match only triggers for single-segment queries when other stages fail
    let mut index = DocIndex::new("mycrate".to_string(), "1.0.0".to_string());
    index.add_item(make_item("Foo", "mycrate::inner::Foo", ItemKind::Struct));

    // "Foo" as a query: it's not in path_map as "Foo", not in suffix_map as "foo" with
    // exact suffix matching... actually it IS in suffix_map via the suffix "foo".
    // So this will actually match via suffix. Let's craft a case that specifically
    // requires name_map.
    //
    // Actually, suffix_map will contain "foo" for "mycrate::inner::Foo", so suffix
    // match will work. Name match is a fallback for edge cases where suffix_map
    // doesn't have the entry. In practice with DocIndex::add_item, name_map and
    // suffix_map both contain single-name entries. Name match is really for
    // robustness. Let's test it works regardless.
    let result = lookup(&index, "Foo", None);
    match result {
        QueryResult::Found { index: idx } => {
            assert_eq!(index.items[idx].name, "Foo");
        }
        other => panic!("expected Found, got {other:?}"),
    }
}

// ---- Kind filter ----

#[test]
fn lookup_kind_filter_narrows_results() {
    let mut index = DocIndex::new("mycrate".to_string(), "1.0.0".to_string());
    // Same name, different kinds
    index.add_item(make_item("Foo", "mycrate::Foo", ItemKind::Struct));
    index.add_item(make_item("Foo", "mycrate::Foo", ItemKind::Function));

    // Filter to struct only
    let result = lookup(&index, "mycrate::Foo", Some(ItemKind::Struct));
    match result {
        QueryResult::Found { index: idx } => {
            assert_eq!(index.items[idx].kind, ItemKind::Struct);
        }
        other => panic!("expected Found, got {other:?}"),
    }

    // Filter to function only
    let result = lookup(&index, "mycrate::Foo", Some(ItemKind::Function));
    match result {
        QueryResult::Found { index: idx } => {
            assert_eq!(index.items[idx].kind, ItemKind::Function);
        }
        other => panic!("expected Found, got {other:?}"),
    }
}

#[test]
fn lookup_kind_filter_relaxation_when_no_results() {
    // Task 7 scope: the lookup function itself just applies the filter at each
    // stage. Kind filter relaxation is done by the caller (resolve_item in
    // orchestration). Here we verify that when a kind filter produces NotFound,
    // re-calling without filter works.
    let mut index = DocIndex::new("mycrate".to_string(), "1.0.0".to_string());
    index.add_item(make_item("Foo", "mycrate::Foo", ItemKind::Module));

    // Filter for Function -> NotFound (it's a module)
    let result = lookup(&index, "mycrate::Foo", Some(ItemKind::Function));
    assert!(matches!(result, QueryResult::NotFound { .. }));

    // Without filter -> Found
    let result = lookup(&index, "mycrate::Foo", None);
    assert!(matches!(result, QueryResult::Found { .. }));
}

// ---- Multiple matches (Ambiguous) ----

#[test]
fn lookup_returns_ambiguous_when_multiple_matches() {
    let mut index = DocIndex::new("mycrate".to_string(), "1.0.0".to_string());
    // Two different structs at different paths, but same suffix
    index.add_item(make_item(
        "Builder",
        "mycrate::http::Builder",
        ItemKind::Struct,
    ));
    index.add_item(make_item(
        "Builder",
        "mycrate::runtime::Builder",
        ItemKind::Struct,
    ));

    let result = lookup(&index, "Builder", None);
    match result {
        QueryResult::Ambiguous { indices, .. } => {
            assert_eq!(indices.len(), 2);
        }
        other => panic!("expected Ambiguous, got {other:?}"),
    }
}

// ---- NotFound ----

#[test]
fn lookup_returns_not_found_when_nothing_matches() {
    let index = build_test_index();
    let result = lookup(&index, "NonexistentItem", None);
    match result {
        QueryResult::NotFound { query, .. } => {
            assert_eq!(query, "NonexistentItem");
        }
        other => panic!("expected NotFound, got {other:?}"),
    }
}

// ---- Case sensitivity: uppercase query matches exactly ----

#[test]
fn lookup_case_sensitive_uppercase_query_matches_exactly() {
    let mut index = DocIndex::new("mycrate".to_string(), "1.0.0".to_string());
    index.add_item(make_item("Mutex", "mycrate::Mutex", ItemKind::Struct));
    index.add_item(make_item("mutex", "mycrate::mutex", ItemKind::Module));

    // "Mutex" (uppercase M) should match only "Mutex", not "mutex"
    let result = lookup(&index, "Mutex", None);
    match result {
        QueryResult::Found { index: idx } => {
            assert_eq!(index.items[idx].name, "Mutex");
            assert_eq!(index.items[idx].kind, ItemKind::Struct);
        }
        other => panic!("expected Found, got {other:?}"),
    }
}

#[test]
fn lookup_case_insensitive_lowercase_query_matches_any_case() {
    let mut index = DocIndex::new("mycrate".to_string(), "1.0.0".to_string());
    index.add_item(make_item("Mutex", "mycrate::Mutex", ItemKind::Struct));

    // "mutex" (all lowercase) should match "Mutex"
    let result = lookup(&index, "mutex", None);
    match result {
        QueryResult::Found { index: idx } => {
            assert_eq!(index.items[idx].name, "Mutex");
        }
        other => panic!("expected Found, got {other:?}"),
    }
}

#[test]
fn lookup_case_sensitive_uppercase_does_not_match_different_case() {
    let mut index = DocIndex::new("mycrate".to_string(), "1.0.0".to_string());
    index.add_item(make_item("mutex", "mycrate::mutex", ItemKind::Module));

    // "Mutex" (uppercase M) should NOT match "mutex" (lowercase)
    let result = lookup(&index, "Mutex", None);
    assert!(matches!(result, QueryResult::NotFound { .. }));
}

// ---- Multi-segment case sensitivity ----

#[test]
fn lookup_case_sensitive_multi_segment() {
    let mut index = DocIndex::new("mycrate".to_string(), "1.0.0".to_string());
    index.add_item(make_item("Mutex", "mycrate::sync::Mutex", ItemKind::Struct));
    index.add_item(make_item("mutex", "mycrate::sync::mutex", ItemKind::Module));

    // "sync::Mutex" has uppercase -> exact match only
    let result = lookup(&index, "sync::Mutex", None);
    match result {
        QueryResult::Found { index: idx } => {
            assert_eq!(index.items[idx].path, "mycrate::sync::Mutex");
        }
        other => panic!("expected Found, got {other:?}"),
    }
}

// ---- Crate-root auto-selection ----

#[test]
fn lookup_auto_selects_crate_root_primary() {
    let mut index = DocIndex::new("serde".to_string(), "1.0.0".to_string());
    // Crate-root primary (depth 2, primary kind)
    index.add_item(make_item(
        "Deserialize",
        "serde::Deserialize",
        ItemKind::Trait,
    ));
    // Nested (depth 3)
    index.add_item(make_item(
        "Deserialize",
        "serde::de::Deserialize",
        ItemKind::Macro,
    ));

    let result = lookup(&index, "Deserialize", None);
    match result {
        QueryResult::Found { index: idx } => {
            assert_eq!(index.items[idx].path, "serde::Deserialize");
        }
        other => panic!("expected Found via auto-selection, got {other:?}"),
    }
}

// ---- (path, kind) deduplication ----

#[test]
fn lookup_deduplicates_by_path_and_kind() {
    let mut index = DocIndex::new("mycrate".to_string(), "1.0.0".to_string());
    // Two items with same path and kind (e.g., from re-exports)
    index.add_item(make_item("Foo", "mycrate::Foo", ItemKind::Struct));
    index.add_item(make_item("Foo", "mycrate::Foo", ItemKind::Struct));

    let result = lookup(&index, "mycrate::Foo", None);
    match result {
        QueryResult::Found { .. } => {} // Should deduplicate to 1
        other => panic!("expected Found after dedup, got {other:?}"),
    }
}

#[test]
fn lookup_preserves_different_kinds_same_path() {
    let mut index = DocIndex::new("mycrate".to_string(), "1.0.0".to_string());
    // Same path but different kinds -> genuinely different, both preserved
    index.add_item(make_item("Parser", "mycrate::Parser", ItemKind::Trait));
    index.add_item(make_item("Parser", "mycrate::Parser", ItemKind::ProcMacro));

    let result = lookup(&index, "mycrate::Parser", None);
    match result {
        QueryResult::Ambiguous { indices, .. } => {
            assert_eq!(indices.len(), 2);
        }
        other => panic!("expected Ambiguous (different kinds), got {other:?}"),
    }
}

// ---- Suggestions ----

#[test]
fn lookup_not_found_provides_suggestions_for_typos() {
    let index = build_test_index();
    // "Mutx" is close to "Mutex" (edit distance 1)
    let result = lookup(&index, "Mutx", None);
    match result {
        QueryResult::NotFound { suggestions, .. } => {
            assert!(
                suggestions.iter().any(|s| s.contains("Mutex")),
                "expected suggestion containing 'Mutex', got {suggestions:?}"
            );
        }
        other => panic!("expected NotFound with suggestions, got {other:?}"),
    }
}

// ---- Levenshtein distance ----

#[test]
fn levenshtein_identical_strings() {
    assert_eq!(levenshtein_distance("hello", "hello"), 0);
}

#[test]
fn levenshtein_empty_strings() {
    assert_eq!(levenshtein_distance("", ""), 0);
    assert_eq!(levenshtein_distance("abc", ""), 3);
    assert_eq!(levenshtein_distance("", "abc"), 3);
}

#[test]
fn levenshtein_single_edit() {
    assert_eq!(levenshtein_distance("kitten", "sitten"), 1); // substitution
    assert_eq!(levenshtein_distance("abc", "abcd"), 1); // insertion
    assert_eq!(levenshtein_distance("abcd", "abc"), 1); // deletion
}

#[test]
fn levenshtein_multiple_edits() {
    assert_eq!(levenshtein_distance("kitten", "sitting"), 3);
}

// ---- could_match_within_distance ----

#[test]
fn could_match_rejects_large_length_difference() {
    assert!(!could_match_within_distance("a", "abcde", 3));
}

#[test]
fn could_match_accepts_similar_length() {
    assert!(could_match_within_distance("abc", "abd", 3));
}

// ---- Empty query ----

#[test]
fn lookup_empty_query_returns_not_found() {
    let index = build_test_index();
    // Empty query produces empty segments -> empty query_path
    // This should hit Stage 5 (no path_map entry for "")
    let result = lookup(&index, "", None);
    assert!(matches!(result, QueryResult::NotFound { .. }));
}

// ---- Exact path match takes priority over suffix match ----

#[test]
fn lookup_exact_path_takes_priority_over_suffix() {
    let mut index = DocIndex::new("grox".to_string(), "0.1.0".to_string());
    // "grox::cli" is both a module (exact path) and suffix of "grox::cli::Cli"
    index.add_item(make_item("cli", "grox::cli", ItemKind::Module));
    index.add_item(make_item("Cli", "grox::cli::Cli", ItemKind::Struct));

    // "grox::cli" exact path match should return the module, not ambiguous
    let result = lookup(&index, "grox::cli", None);
    match result {
        QueryResult::Found { index: idx } => {
            assert_eq!(index.items[idx].path, "grox::cli");
            assert_eq!(index.items[idx].kind, ItemKind::Module);
        }
        other => panic!("expected Found for exact path, got {other:?}"),
    }
}

// ---- Task 8: Crate-root auto-selection ----

#[test]
fn auto_select_single_primary_at_root_wins() {
    let mut index = DocIndex::new("mycrate".to_string(), "1.0.0".to_string());
    // Crate-root primary (depth 2)
    index.add_item(make_item("Widget", "mycrate::Widget", ItemKind::Struct));
    // Nested non-primary (depth 3)
    index.add_item(make_item(
        "Widget",
        "mycrate::inner::Widget",
        ItemKind::Function,
    ));

    let result = lookup(&index, "Widget", None);
    match result {
        QueryResult::Found { index: idx } => {
            assert_eq!(index.items[idx].path, "mycrate::Widget");
            assert_eq!(index.items[idx].kind, ItemKind::Struct);
        }
        other => panic!("expected Found via auto-selection, got {other:?}"),
    }
}

#[test]
fn auto_select_blocked_by_3_level_primary() {
    let mut index = DocIndex::new("mycrate".to_string(), "1.0.0".to_string());
    // Crate-root primary
    index.add_item(make_item("Widget", "mycrate::Widget", ItemKind::Struct));
    // 3-level primary -> blocks auto-selection
    index.add_item(make_item("Widget", "mycrate::ui::Widget", ItemKind::Struct));

    let result = lookup(&index, "Widget", None);
    assert!(
        matches!(result, QueryResult::Ambiguous { .. }),
        "expected Ambiguous when 3-level primary exists, got {result:?}"
    );
}

// ---- Task 8: Dedup removes (path, kind) duplicates ----

#[test]
fn dedup_removes_path_kind_duplicates() {
    let mut index = DocIndex::new("mycrate".to_string(), "1.0.0".to_string());
    // Three items with same (path, kind)
    index.add_item(make_item("Foo", "mycrate::Foo", ItemKind::Struct));
    index.add_item(make_item("Foo", "mycrate::Foo", ItemKind::Struct));
    index.add_item(make_item("Foo", "mycrate::Foo", ItemKind::Struct));

    let result = lookup(&index, "mycrate::Foo", None);
    match result {
        QueryResult::Found { .. } => {} // Deduped to 1
        other => panic!("expected Found after dedup, got {other:?}"),
    }
}

// ---- Task 8: Re-export stubs resolved to canonical items ----

#[test]
fn reexport_stub_resolved_to_canonical() {
    let mut index = DocIndex::new("mycrate".to_string(), "1.0.0".to_string());
    // Canonical item (not a stub)
    let mut canonical = make_item("Widget", "mycrate::inner::Widget", ItemKind::Struct);
    canonical.children.push(ChildRef {
        index: 999, // dummy
        kind: ItemKind::Function,
        name: "new".to_string(),
    });
    index.add_item(canonical);
    // Re-export stub
    let mut stub = make_item("Widget", "mycrate::Widget", ItemKind::Struct);
    stub.signature = "pub use inner::Widget".to_string();
    // stub has no children -> is_reexport_stub() returns true
    index.add_item(stub);

    // Both match "Widget". The stub should be dropped in favor of the canonical.
    let result = lookup(&index, "Widget", None);
    match result {
        QueryResult::Found { index: idx } => {
            assert_eq!(index.items[idx].path, "mycrate::inner::Widget");
        }
        other => panic!("expected Found (canonical), got {other:?}"),
    }
}

// ---- Task 8: Suggestions for typos ----

#[test]
fn suggestions_returns_close_matches_for_typo() {
    let index = build_test_index();
    // "Mutx" -> "Mutex" (distance 1)
    let suggestions = compute_suggestions(&index, "Mutx");
    assert!(
        suggestions.iter().any(|s| s.contains("Mutex")),
        "expected Mutex in suggestions, got {suggestions:?}"
    );
}

#[test]
fn suggestions_dedup_and_cap_at_5() {
    // Build index with many similar items
    let mut index = DocIndex::new("mycrate".to_string(), "1.0.0".to_string());
    for i in 0..20 {
        let name = format!("Foob{i}");
        let path = format!("mycrate::{name}");
        index.add_item(make_item(&name, &path, ItemKind::Struct));
    }

    let suggestions = compute_suggestions(&index, "Foob");
    assert!(
        suggestions.len() <= 5,
        "suggestions should be capped at 5, got {}",
        suggestions.len()
    );
    // Verify no duplicates
    let unique: std::collections::HashSet<&String> = suggestions.iter().collect();
    assert_eq!(
        unique.len(),
        suggestions.len(),
        "suggestions should be deduplicated"
    );
}

// ---- Task 8: Method lookup ----

#[test]
fn method_lookup_finds_method_on_parent() {
    let mut index = DocIndex::new("tokio".to_string(), "1.0.0".to_string());
    // Parent: Mutex struct at index 0
    let mut mutex = make_item("Mutex", "tokio::sync::Mutex", ItemKind::Struct);
    // Child: lock method at index 1
    mutex.children.push(ChildRef {
        index: 1,
        kind: ItemKind::Function,
        name: "lock".to_string(),
    });
    index.add_item(mutex);
    // The actual lock item
    index.add_item(make_item(
        "lock",
        "tokio::sync::Mutex::lock",
        ItemKind::Function,
    ));

    let result = lookup_method(&index, &["sync", "Mutex"], "lock", None);
    match result {
        QueryResult::Found { index: idx } => {
            assert_eq!(index.items[idx].name, "lock");
        }
        other => panic!("expected Found for method lookup, got {other:?}"),
    }
}

#[test]
fn method_lookup_returns_not_found_with_suggestions_when_method_missing() {
    let mut index = DocIndex::new("tokio".to_string(), "1.0.0".to_string());
    let mut mutex = make_item("Mutex", "tokio::sync::Mutex", ItemKind::Struct);
    mutex.children.push(ChildRef {
        index: 1,
        kind: ItemKind::Function,
        name: "lock".to_string(),
    });
    index.add_item(mutex);
    index.add_item(make_item(
        "lock",
        "tokio::sync::Mutex::lock",
        ItemKind::Function,
    ));

    // "lokc" is a typo for "lock"
    let result = lookup_method(&index, &["sync", "Mutex"], "lokc", None);
    match result {
        QueryResult::NotFound { suggestions, .. } => {
            assert!(
                suggestions.iter().any(|s| s.contains("lock")),
                "expected lock in suggestions, got {suggestions:?}"
            );
        }
        other => panic!("expected NotFound with suggestions, got {other:?}"),
    }
}

#[test]
fn method_lookup_bubbles_ambiguous_parent() {
    let mut index = DocIndex::new("mycrate".to_string(), "1.0.0".to_string());
    // Two items named "Builder" at same depth -> ambiguous parent
    index.add_item(make_item(
        "Builder",
        "mycrate::http::Builder",
        ItemKind::Struct,
    ));
    index.add_item(make_item(
        "Builder",
        "mycrate::runtime::Builder",
        ItemKind::Struct,
    ));

    let result = lookup_method(&index, &["Builder"], "build", None);
    assert!(
        matches!(result, QueryResult::Ambiguous { .. }),
        "expected Ambiguous for ambiguous parent, got {result:?}"
    );
}

// ---- Task 8: looks_like_item_name ----

#[test]
fn looks_like_item_name_uppercase_returns_true() {
    assert!(looks_like_item_name("Mutex"));
    assert!(looks_like_item_name("HashMap"));
    assert!(looks_like_item_name("Vec"));
    assert!(looks_like_item_name("MAX_SIZE"));
}

#[test]
fn looks_like_item_name_lowercase_long_returns_false() {
    assert!(!looks_like_item_name("serde"));
    assert!(!looks_like_item_name("tokio"));
    assert!(!looks_like_item_name("regex"));
    assert!(!looks_like_item_name("reqwest"));
}

#[test]
fn looks_like_item_name_short_returns_true() {
    assert!(looks_like_item_name("new"));
    assert!(looks_like_item_name("len"));
    assert!(looks_like_item_name("pop"));
    assert!(looks_like_item_name("push"));
}

#[test]
fn looks_like_item_name_common_method_returns_true() {
    assert!(looks_like_item_name("clone"));
    assert!(looks_like_item_name("default"));
    assert!(looks_like_item_name("parse"));
    assert!(looks_like_item_name("format"));
}

#[test]
fn looks_like_item_name_hyphen_returns_false() {
    assert!(!looks_like_item_name("my-crate"));
    assert!(!looks_like_item_name("serde-json"));
}

#[test]
fn looks_like_item_name_empty_returns_false() {
    assert!(!looks_like_item_name(""));
}

#[test]
fn looks_like_item_name_underscore_crate_returns_false() {
    assert!(!looks_like_item_name("serde_json"));
    assert!(!looks_like_item_name("tokio_util"));
}

#[test]
fn looks_like_item_name_complex_snake_case_returns_true() {
    assert!(looks_like_item_name("my_longer_function_name"));
}

#[test]
fn resolve_item_not_found_suggests_near_matches() {
    let mut index = DocIndex::new("mycrate".to_string(), "1.0.0".to_string());
    index.add_item(make_item("Mutex", "mycrate::Mutex", ItemKind::Struct));
    let query = QueryPath { crate_spec: CrateSpec::CurrentCrate, item_segments: vec!["Mutx".to_string()] };
    match resolve_item(&query, &index, None) {
        QueryResult::NotFound { query, suggestions } => {
            assert_eq!(query, "Mutx");
            assert_eq!(suggestions, vec!["mycrate::Mutex".to_string()]);
        }
        _ => panic!("expected not found"),
    }
}

#[test]
fn resolve_item_not_found_far_query_has_no_suggestions() {
    let mut index = DocIndex::new("mycrate".to_string(), "1.0.0".to_string());
    index.add_item(make_item("Mutex", "mycrate::Mutex", ItemKind::Struct));
    let query = QueryPath { crate_spec: CrateSpec::CurrentCrate, item_segments: vec!["Completely".to_string()] };
    match resolve_item(&query, &index, None) {
        QueryResult::NotFound { query, suggestions } => {
            assert_eq!(query, "Completely");
            assert!(suggestions.is_empty());
        }
        _ => panic!("expected not found"),
    }
}

#[test]
fn levenshtein_laws_on_examples() {
    assert_eq!(levenshtein_distance("kitten", "sitting"), 3);
    assert_eq!(levenshtein_distance("sitting", "kitten"), 3);
    assert_eq!(levenshtein_distance("", "abc"), 3);
    assert_eq!(levenshtein_distance("same", "same"), 0);
}

#[test]
fn ambiguous_candidates_in_priority_order() {
    let mut index = DocIndex::new("mycrate".to_string(), "1.0.0".to_string());
    index.add_item(make_item("Thing", "mycrate::z::deep::Thing", ItemKind::Struct));
    index.add_item(make_item("Thing", "mycrate::b::Thing", ItemKind::Struct));
    index.add_item(make_item("Thing", "mycrate::a::Thing", ItemKind::Struct));
    index.add_item(make_item("Thing", "mycrate::a::Thing", ItemKind::Struct));
    match lookup(&index, "Thing", None) {
        QueryResult::Ambiguous { indices, .. } => assert_eq!(indices, vec![2, 1, 0]),
        other => panic!("expected Ambiguous, got {other:?}"),
    }
}
