use groxide::cli::{Cli, KindFilter, OutputMode};
use groxide::error::GroxError;
use groxide::render::dispatch::{handle_output, render_found, OutputAction, RenderContext};
use groxide::search::{all_features_hint, render_search_text, should_retry_with_all_features};
use groxide::source::{source_excerpt, source_plan, span_readable, SourcePlan};
use groxide::types::{
    ChildRef, DocIndex, IndexItem, ItemKind, QueryResult, SearchResult, SourceSpan, TraitImplInfo,
};

fn make_item(name: &str, path: &str, kind: ItemKind) -> IndexItem {
    IndexItem {
        path: path.to_string(),
        name: name.to_string(),
        kind,
        signature: String::new(),
        docs: String::new(),
        summary: String::new(),
        span: SourceSpan { file: String::new(), line_start: 0, line_end: 0 },
        children: Vec::new(),
        is_public: true,
        has_body: false,
        feature_gate: None,
        reexport_source: None,
    }
}

fn child(index: usize, item: &IndexItem) -> ChildRef {
    ChildRef { index, kind: item.kind, name: item.name.clone() }
}

fn cli() -> Cli {
    Cli {
        path: None,
        brief: false,
        docs: false,
        source: false,
        search: None,
        kind: None,
        private: false,
        json: false,
        impls: None,
        recursive: false,
        readme: false,
        manifest_path: None,
        features: Vec::new(),
        all_features: false,
        no_default_features: false,
        clear_cache: false,
    }
}

/// mycrate { Foo (struct, with method bar), baz (fn), Hidden (private struct) }
fn sample_index() -> DocIndex {
    let mut index = DocIndex::new("mycrate".to_string(), "0.1.0".to_string());
    let mut foo = make_item("Foo", "mycrate::Foo", ItemKind::Struct);
    foo.signature = "pub struct Foo".to_string();
    foo.summary = "A foo.".to_string();
    let mut bar = make_item("bar", "mycrate::Foo::bar", ItemKind::Function);
    bar.signature = "pub fn bar(&self)".to_string();
    let mut baz = make_item("baz", "mycrate::baz", ItemKind::Function);
    baz.signature = "pub fn baz()".to_string();
    let mut hidden = make_item("Hidden", "mycrate::Hidden", ItemKind::Struct);
    hidden.is_public = false;
    let mut root = make_item("mycrate", "mycrate", ItemKind::Module);
    root.children = vec![child(1, &foo), child(3, &baz), child(4, &hidden)];
    foo.children = vec![child(2, &bar)];
    index.add_item(root);
    index.add_item(foo);
    index.add_item(bar);
    index.add_item(baz);
    index.add_item(hidden);
    index
}

#[test]
fn render_context_from_cli_reads_flags() {
    let index = sample_index();
    let mut c = cli();
    c.brief = true;
    c.private = true;
    c.kind = Some(KindFilter::Struct);
    let ctx = RenderContext::from_cli(&index, &c);
    assert_eq!(ctx.mode, OutputMode::Brief);
    assert!(ctx.include_private);
    assert_eq!(ctx.kind_filter, Some(ItemKind::Struct));
    assert_eq!(ctx.limits.max_doc_length, 1500);
    let mut c = cli();
    c.json = true;
    c.brief = true;
    assert_eq!(RenderContext::from_cli(&index, &c).mode, OutputMode::Json);
}

#[test]
fn handle_output_renders_found_item_as_text() {
    let index = sample_index();
    let ctx = RenderContext::from_cli(&index, &cli());
    match handle_output(&QueryResult::Found { index: 1 }, &ctx, false, false) {
        Ok(OutputAction::Text(t)) => {
            assert!(t.contains("struct mycrate::Foo"), "{t}");
            assert!(t.contains("bar"), "{t}");
        }
        _ => panic!("expected text"),
    }
}

#[test]
fn handle_output_modes() {
    let index = sample_index();
    let mut c = cli();
    c.json = true;
    let ctx = RenderContext::from_cli(&index, &c);
    assert!(matches!(
        handle_output(&QueryResult::Found { index: 3 }, &ctx, false, false),
        Ok(OutputAction::Json(_))
    ));
    assert!(matches!(
        handle_output(&QueryResult::Found { index: 3 }, &ctx, true, false),
        Ok(OutputAction::Recursive(3))
    ));
    let amb = QueryResult::Ambiguous { indices: vec![1, 3], query: "x".to_string() };
    match handle_output(&amb, &ctx, false, false) {
        Ok(OutputAction::JsonAmbiguous(v)) => assert_eq!(v, vec![1, 3]),
        _ => panic!("expected JSON matches"),
    }
    let ctx = RenderContext::from_cli(&index, &cli());
    match handle_output(&QueryResult::Found { index: 1 }, &ctx, false, true) {
        Ok(OutputAction::Text(t)) => assert!(t.contains("No trait implementations."), "{t}"),
        _ => panic!("expected impls text"),
    }
    match render_found(&ctx, 3, false, true) {
        OutputAction::Text(t) => assert!(t.starts_with("fn mycrate::baz"), "{t}"),
        _ => panic!("expected impls text"),
    }
}

#[test]
fn handle_output_follows_reexport_stubs() {
    let mut index = sample_index();
    let mut stub = make_item("Helper", "mycrate::Helper", ItemKind::Struct);
    stub.signature = "pub use other::Helper".to_string();
    index.add_item(stub);
    let ctx = RenderContext::from_cli(&index, &cli());
    assert!(matches!(
        handle_output(&QueryResult::Found { index: 5 }, &ctx, false, false),
        Ok(OutputAction::FollowReexport(5))
    ));
}

#[test]
fn handle_output_not_found_is_error_in_crate() {
    let index = sample_index();
    let ctx = RenderContext::from_cli(&index, &cli());
    let nf = QueryResult::NotFound {
        query: "Nope".to_string(),
        suggestions: vec!["Foo".to_string()],
    };
    match handle_output(&nf, &ctx, false, false) {
        Err(GroxError::ItemNotFound { query, crate_name, suggestions }) => {
            assert_eq!(query, "Nope");
            assert_eq!(crate_name.as_deref(), Some("mycrate"));
            assert_eq!(suggestions, vec!["Foo".to_string()]);
        }
        _ => panic!("expected ItemNotFound"),
    }
}

// ---- --search text output ----

#[test]
fn search_text_aligns_columns() {
    let index = sample_index();
    let results = vec![
        SearchResult { index: 1, score: 100 },
        SearchResult { index: 3, score: 75 },
    ];
    let text = render_search_text(&index, &results, "foo");
    assert_eq!(
        text,
        "2 results for \"foo\":\n\nstruct  mycrate::Foo  A foo.\nfn      mycrate::baz\n"
    );
}

#[test]
fn search_text_zero_results() {
    let index = sample_index();
    assert_eq!(render_search_text(&index, &Vec::new(), "zzz"), "0 results for \"zzz\":\n");
}

#[test]
fn search_all_features_hint() {
    assert!(should_retry_with_all_features(0, false, false));
    assert!(!should_retry_with_all_features(1, false, false));
    assert!(!should_retry_with_all_features(0, true, false));
    assert!(!should_retry_with_all_features(0, false, true));
    assert_eq!(all_features_hint(3), "hint: 3 items found with --all-features");
}

// ---- --source ----

#[test]
fn source_plan_for_found_item_and_module_filter() {
    let index = sample_index();
    assert!(matches!(
        source_plan(&index, &QueryResult::Found { index: 1 }, None),
        Ok(SourcePlan::Single(1))
    ));
    match source_plan(&index, &QueryResult::Found { index: 0 }, Some(ItemKind::Struct)) {
        Ok(SourcePlan::Several(v)) => assert_eq!(v, vec![1]),
        _ => panic!("expected the public structs"),
    }
    match source_plan(&index, &QueryResult::Found { index: 0 }, Some(ItemKind::Enum)) {
        Err(GroxError::ItemNotFound { query, crate_name, .. }) => {
            assert_eq!(query, "mycrate");
            assert_eq!(crate_name.as_deref(), Some("mycrate"));
        }
        _ => panic!("expected ItemNotFound"),
    }
    let amb = QueryResult::Ambiguous { indices: vec![3, 1], query: "x".to_string() };
    match source_plan(&index, &amb, None) {
        Ok(SourcePlan::Several(v)) => assert_eq!(v, vec![3, 1]),
        _ => panic!("expected both matches"),
    }
}

#[test]
fn source_excerpt_cuts_span_lines() {
    let content = "line1\nline2\r\nline3\nline4\n";
    assert_eq!(source_excerpt(content, 2, 3).as_deref(), Some("line2\nline3"));
    assert_eq!(source_excerpt(content, 0, 1).as_deref(), Some("line1"));
    assert_eq!(source_excerpt(content, 3, 99).as_deref(), Some("line3\nline4"));
    assert_eq!(source_excerpt(content, 5, 9), None);
    assert_eq!(source_excerpt(content, 3, 2), None);
}

#[test]
fn span_readable_needs_file_and_lines() {
    let mut item = make_item("a", "c::a", ItemKind::Function);
    assert!(!span_readable(&item));
    item.span = SourceSpan { file: "src/lib.rs".to_string(), line_start: 0, line_end: 0 };
    assert!(!span_readable(&item));
    item.span.line_end = 4;
    assert!(span_readable(&item));
}

#[test]
fn impls_view_narrowed_to_named_trait() {
    let mut index = DocIndex::new("mycrate".to_string(), "0.1.0".to_string());
    let mut root = make_item("mycrate", "mycrate", ItemKind::Module);
    let mut foo = make_item("Foo", "mycrate::Foo", ItemKind::Struct);
    foo.signature = "pub struct Foo".to_string();
    root.children = vec![child(1, &foo)];
    index.add_item(root);
    index.add_item(foo);
    index.trait_impls.insert(
        1,
        vec![
            TraitImplInfo { trait_path: "Clone".to_string(), is_synthetic: false },
            TraitImplInfo { trait_path: "Debug".to_string(), is_synthetic: false },
        ],
    );
    let mut c = cli();
    c.impls = Some("Clone".to_string());
    let ctx = RenderContext::from_cli(&index, &c);
    match render_found(&ctx, 1, false, true) {
        OutputAction::Text(t) => {
            assert!(t.contains("impl Clone"), "{t}");
            assert!(!t.contains("impl Debug"), "{t}");
        }
        _ => panic!("expected impls text"),
    }
    c.impls = Some(String::new());
    let ctx = RenderContext::from_cli(&index, &c);
    match render_found(&ctx, 1, false, true) {
        OutputAction::Text(t) => assert!(t.contains("impl Clone") && t.contains("impl Debug"), "{t}"),
        _ => panic!("expected impls text"),
    }
}
