use groxide::cli::{CrateSpec, QueryPath};
use groxide::reexport::{
    follow_by_name, glob_descent_plan, parse_reexport_source, prefix_descent_plan,
    try_resolve_reexport_on_not_found, DescentStep,
};
use groxide::types::{DocIndex, GlobUse, IndexItem, ItemKind, QueryResult, SourceSpan};

fn make_item(name: &str, path: &str, kind: ItemKind) -> IndexItem {
    IndexItem {
        path: path.to_string(),
        name: name.to_string(),
        kind,
        signature: String::new(),
        docs: String::new(),
        summary: String::new(),
        span: SourceSpan { file: String::new(), line_start: 0, line_end: 0 },
        children: Vec::new(),
        is_public: true,
        has_body: false,
        feature_gate: None,
        reexport_source: None,
    }
}

fn make_reexport_stub(name: &str, path: &str, kind: ItemKind, source: &str) -> IndexItem {
    let mut item = make_item(name, path, kind);
    item.signature = format!("pub use {source}");
    item.reexport_source = Some(source.to_string());
    item
}

fn query_path(crate_name: &str, segments: &[&str]) -> QueryPath {
    QueryPath {
        crate_spec: CrateSpec::Named(crate_name.to_string()),
        item_segments: segments.iter().map(|s| (*s).to_string()).collect(),
    }
}

// ---- try_resolve_reexport_on_not_found ----

#[test]
fn case_strict_match_does_not_treat_uppercase_vec_as_lowercase_vec() {
    let mut index = DocIndex::new("std".to_string(), "1.0.0".to_string());
    index.add_item(make_reexport_stub("vec", "std::vec", ItemKind::Module, "alloc::vec"));
    index.add_item(make_reexport_stub("vec", "std::vec", ItemKind::Macro, "alloc::vec"));

    let q = query_path("std", &["vec", "Vec"]);
    let result = try_resolve_reexport_on_not_found(&q, &index, None);
    assert!(result.is_none(), "case-strict 'Vec' must not match items named 'vec', got {result:?}");
}

#[test]
fn case_insensitive_match_when_query_is_all_lowercase() {
    let mut index = DocIndex::new("std".to_string(), "1.0.0".to_string());
    index.add_item(make_reexport_stub("vec", "std::vec", ItemKind::Module, "alloc::vec"));
    index.add_item(make_reexport_stub("vec", "std::vec", ItemKind::Macro, "alloc::vec"));

    let q = query_path("std", &["vec"]);
    let result = try_resolve_reexport_on_not_found(&q, &index, None);
    assert!(
        matches!(result, Some(QueryResult::Ambiguous { ref indices, .. }) if indices.len() == 2),
        "lowercase 'vec' should match both mod and macro stubs, got {result:?}"
    );
}

#[test]
fn exact_case_match_returns_found_singleton() {
    let mut index = DocIndex::new("mycrate".to_string(), "0.1.0".to_string());
    index.add_item(make_reexport_stub("Foo", "mycrate::Foo", ItemKind::Struct, "inner::Foo"));

    let q = query_path("mycrate", &["Foo"]);
    let result = try_resolve_reexport_on_not_found(&q, &index, None);
    assert!(
        matches!(result, Some(QueryResult::Found { .. })),
        "exact-case 'Foo' should resolve to Found, got {result:?}"
    );
}

#[test]
fn no_matches_returns_none() {
    let mut index = DocIndex::new("mycrate".to_string(), "0.1.0".to_string());
    index.add_item(make_item("real_thing", "mycrate::real_thing", ItemKind::Struct));

    let q = query_path("mycrate", &["nonexistent"]);
    let result = try_resolve_reexport_on_not_found(&q, &index, None);
    assert!(result.is_none());
}

// ---- follow_by_name ----

#[test]
fn follow_by_name_prefers_non_stub_over_stub() {
    let mut index = DocIndex::new("inner".to_string(), "0.1.0".to_string());
    index.add_item(make_reexport_stub("Foo", "inner::a::Foo", ItemKind::Struct, "deeper::Foo"));
    index.add_item(make_item("Foo", "inner::b::Foo", ItemKind::Struct));

    let idx = follow_by_name(&index, "Foo").expect("name match should be found");
    assert_eq!(idx, 1, "should prefer the non-stub at index 1, got {idx}");
}

#[test]
fn follow_by_name_returns_stub_when_only_stub_exists() {
    let mut index = DocIndex::new("inner".to_string(), "0.1.0".to_string());
    index.add_item(make_reexport_stub("Foo", "inner::a::Foo", ItemKind::Struct, "deeper::Foo"));

    let idx = follow_by_name(&index, "Foo").expect("stub fallback should match");
    assert_eq!(idx, 0);
}

#[test]
fn follow_by_name_unknown_returns_none() {
    let mut index = DocIndex::new("inner".to_string(), "0.1.0".to_string());
    index.add_item(make_item("Bar", "inner::Bar", ItemKind::Struct));

    assert!(follow_by_name(&index, "Foo").is_none());
}

#[test]
fn follow_by_name_handles_path_input_taking_last_segment() {
    let mut index = DocIndex::new("inner".to_string(), "0.1.0".to_string());
    index.add_item(make_item("Foo", "inner::deep::Foo", ItemKind::Struct));

    let idx = follow_by_name(&index, "anything::Foo").expect("trailing 'Foo' should match");
    assert_eq!(idx, 0);
}

// ---- prefix descent (early-exit branches) ----

#[test]
fn prefix_descent_returns_none_for_single_segment_query() {
    let mut index = DocIndex::new("std".to_string(), "1.0.0".to_string());
    index.add_item(make_reexport_stub("vec", "std::vec", ItemKind::Module, "alloc::vec"));

    let q = query_path("std", &["vec"]);
    let plan = prefix_descent_plan(&q, &index);
    assert!(plan.is_empty(), "1-segment query has no prefix to descend through");
}

#[test]
fn prefix_descent_returns_none_when_no_prefix_is_a_stub() {
    let index = DocIndex::new("mycrate".to_string(), "0.1.0".to_string());

    let q = query_path("mycrate", &["a", "b", "c"]);
    let plan = prefix_descent_plan(&q, &index);
    assert!(plan.is_empty());
}

// ---- glob descent (early-exit + glob filtering) ----

#[test]
fn glob_descent_returns_none_when_no_glob_uses() {
    let index = DocIndex::new("clap".to_string(), "4.5.0".to_string());

    let q = query_path("clap", &["Arg"]);
    let plan = glob_descent_plan(&q, &index);
    assert!(plan.is_empty());
}

#[test]
fn glob_descent_returns_none_for_empty_segments() {
    let mut index = DocIndex::new("clap".to_string(), "4.5.0".to_string());
    index.glob_uses.push(GlobUse {
        parent_path: "clap".to_string(),
        source_path: "clap_builder".to_string(),
    });

    let q = query_path("clap", &[]);
    let plan = glob_descent_plan(&q, &index);
    assert!(plan.is_empty(), "no item segments — nothing to look up via glob");
}

// ---- additional scenarios ----

#[test]
fn prefix_descent_plans_load_of_source_crate() {
    let mut index = DocIndex::new("std".to_string(), "1.0.0".to_string());
    index.add_item(make_reexport_stub("vec", "std::vec", ItemKind::Module, "alloc::vec"));

    let q = query_path("std", &["vec", "Vec"]);
    let plan = prefix_descent_plan(&q, &index);
    assert_eq!(
        plan,
        vec![DescentStep::Load {
            source_crate: "alloc".to_string(),
            inner_segments: vec!["vec".to_string(), "Vec".to_string()],
            fallback_name: "Vec".to_string(),
        }]
    );
}

#[test]
fn prefix_descent_aborts_on_source_without_separator() {
    let mut index = DocIndex::new("std".to_string(), "1.0.0".to_string());
    index.add_item(make_reexport_stub("vec", "std::vec", ItemKind::Module, "alloc"));

    let q = query_path("std", &["vec", "Vec"]);
    assert_eq!(prefix_descent_plan(&q, &index), vec![DescentStep::Abort]);
}

#[test]
fn glob_descent_plans_crate_root_glob() {
    let mut index = DocIndex::new("clap".to_string(), "4.5.0".to_string());
    index.glob_uses.push(GlobUse {
        parent_path: "clap".to_string(),
        source_path: "::clap_builder".to_string(),
    });

    let q = query_path("clap", &["Args"]);
    assert_eq!(
        glob_descent_plan(&q, &index),
        vec![DescentStep::Load {
            source_crate: "clap_builder".to_string(),
            inner_segments: vec!["Args".to_string()],
            fallback_name: "Args".to_string(),
        }]
    );
}

#[test]
fn parse_reexport_source_prefers_recorded_source() {
    let stub = make_reexport_stub("Foo", "a::Foo", ItemKind::Struct, "b::Foo");
    assert_eq!(parse_reexport_source(&stub), Some("b::Foo".to_string()));
}

#[test]
fn parse_reexport_source_reads_signature() {
    let mut item = make_item("Foo", "a::Foo", ItemKind::Struct);
    item.signature = "pub use b::Foo as Bar".to_string();
    assert_eq!(parse_reexport_source(&item), Some("b::Foo".to_string()));
    item.signature = "pub use c::Foo;;".to_string();
    assert_eq!(parse_reexport_source(&item), Some("c::Foo".to_string()));
    item.signature = "pub struct Foo".to_string();
    assert_eq!(parse_reexport_source(&item), None);
    item.signature = "pub use ;".to_string();
    assert_eq!(parse_reexport_source(&item), None);
}
