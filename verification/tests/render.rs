use groxide::render::ambiguous::{
    extract_first_paragraph, filter_trait_impls, render_ambiguous, render_ambiguous_list, render_impls_other,
    render_impls_trait, render_impls_type, render_source, render_source_ambiguous,
};
use groxide::render::brief::{render_brief, render_brief_recursive};
use groxide::render::display::{build_display_item, DisplayItem};
use groxide::render::listing::{render_docs_recursive, render_list_recursive};
use groxide::render::markdown::strip_markdown;
use groxide::render::text::render_text;
use groxide::render::truncate::{feature_gate_suffix, truncate_doc};
use groxide::types::{
    ChildRef, DisplayLimits, DocIndex, IndexItem, ItemKind, SourceSpan, TraitImplInfo,
};

fn make_item(name: &str, path: &str, kind: ItemKind) -> IndexItem {
    IndexItem {
        path: path.to_string(),
        name: name.to_string(),
        kind,
        signature: String::new(),
        docs: String::new(),
        summary: String::new(),
        span: SourceSpan { file: String::new(), line_start: 0, line_end: 0 },
        children: Vec::new(),
        is_public: true,
        has_body: false,
        feature_gate: None,
        reexport_source: None,
    }
}

fn make_item_full(
    name: &str,
    path: &str,
    kind: ItemKind,
    signature: &str,
    docs: &str,
    summary: &str,
) -> IndexItem {
    let mut item = make_item(name, path, kind);
    item.signature = signature.to_string();
    item.docs = docs.to_string();
    item.summary = summary.to_string();
    item
}

fn with_span(mut item: IndexItem, file: &str, line_start: u32, line_end: u32) -> IndexItem {
    item.span = SourceSpan { file: file.to_string(), line_start, line_end };
    item
}

// ---- build_display_item ----

#[test]
fn build_display_item_returns_crate_when_path_equals_crate_name() {
    let mut index = DocIndex::new("mycrate".to_string(), "0.1.0".to_string());
    index.add_item(make_item("mycrate", "mycrate", ItemKind::Module));
    let di = build_display_item(&index, 0, false);
    assert!(matches!(di, DisplayItem::Crate { .. }));
}

#[test]
fn build_display_item_returns_module_when_not_crate_root() {
    let mut index = DocIndex::new("mycrate".to_string(), "0.1.0".to_string());
    index.add_item(make_item("sub", "mycrate::sub", ItemKind::Module));
    let di = build_display_item(&index, 0, false);
    assert!(matches!(di, DisplayItem::Module { .. }));
}

#[test]
fn build_display_item_returns_type_for_struct() {
    let mut index = DocIndex::new("mycrate".to_string(), "0.1.0".to_string());
    index.add_item(make_item("Foo", "mycrate::Foo", ItemKind::Struct));
    let di = build_display_item(&index, 0, false);
    assert!(matches!(di, DisplayItem::Type { .. }));
}

#[test]
fn build_display_item_returns_trait_for_trait() {
    let mut index = DocIndex::new("mycrate".to_string(), "0.1.0".to_string());
    index.add_item(make_item("MyTrait", "mycrate::MyTrait", ItemKind::Trait));
    let di = build_display_item(&index, 0, false);
    assert!(matches!(di, DisplayItem::Trait { .. }));
}

#[test]
fn build_display_item_returns_leaf_for_function() {
    let mut index = DocIndex::new("mycrate".to_string(), "0.1.0".to_string());
    index.add_item(make_item("foo", "mycrate::foo", ItemKind::Function));
    let di = build_display_item(&index, 0, false);
    assert!(matches!(di, DisplayItem::Leaf { .. }));
}

#[test]
fn build_display_item_collects_methods_and_variants() {
    let mut index = DocIndex::new("mycrate".to_string(), "0.1.0".to_string());
    let mut enum_item = make_item("Color", "mycrate::Color", ItemKind::Enum);
    let variant = make_item("Red", "mycrate::Color::Red", ItemKind::Variant);
    let method = make_item("name", "mycrate::Color::name", ItemKind::Function);
    index.add_item(variant);
    index.add_item(method);
    enum_item.children = vec![
        ChildRef { index: 0, kind: ItemKind::Variant, name: "Red".to_string() },
        ChildRef { index: 1, kind: ItemKind::Function, name: "name".to_string() },
    ];
    index.add_item(enum_item);

    let di = build_display_item(&index, 2, false);
    match di {
        DisplayItem::Type { methods, variants, .. } => {
            assert_eq!(methods.len(), 1);
            assert_eq!(variants.len(), 1);
        }
        _ => panic!("expected Type variant"),
    }
}

#[test]
fn build_display_item_splits_required_and_provided_methods() {
    let mut index = DocIndex::new("mycrate".to_string(), "0.1.0".to_string());
    let mut required = make_item("poll", "mycrate::MyTrait::poll", ItemKind::Function);
    required.has_body = false;
    let mut provided = make_item("chain", "mycrate::MyTrait::chain", ItemKind::Function);
    provided.has_body = true;
    index.add_item(required);
    index.add_item(provided);
    let mut trait_item = make_item("MyTrait", "mycrate::MyTrait", ItemKind::Trait);
    trait_item.children = vec![
        ChildRef { index: 0, kind: ItemKind::Function, name: "poll".to_string() },
        ChildRef { index: 1, kind: ItemKind::Function, name: "chain".to_string() },
    ];
    index.add_item(trait_item);

    let di = build_display_item(&index, 2, false);
    match di {
        DisplayItem::Trait { required_methods, provided_methods, .. } => {
            assert_eq!(required_methods.len(), 1);
            assert_eq!(index.items[required_methods[0]].name, "poll");
            assert_eq!(provided_methods.len(), 1);
            assert_eq!(index.items[provided_methods[0]].name, "chain");
        }
        _ => panic!("expected Trait variant"),
    }
}

// ---- strip_markdown ----

#[test]
fn strip_markdown_removes_bold() {
    assert_eq!(strip_markdown("**bold**"), "bold");
    assert_eq!(strip_markdown("__bold__"), "bold");
}

#[test]
fn strip_markdown_removes_italic() {
    assert_eq!(strip_markdown("*italic*"), "italic");
    assert_eq!(strip_markdown("_italic_"), "italic");
}

#[test]
fn strip_markdown_removes_inline_code() {
    assert_eq!(strip_markdown("`code`"), "code");
}

#[test]
fn strip_markdown_removes_links() {
    assert_eq!(strip_markdown("[link text](url)"), "link text");
    assert_eq!(strip_markdown("[link text][ref]"), "link text");
}

#[test]
fn strip_markdown_removes_headings() {
    assert_eq!(strip_markdown("# Heading"), "Heading");
    assert_eq!(strip_markdown("## Sub Heading"), "Sub Heading");
    assert_eq!(strip_markdown("### Third"), "Third");
}

#[test]
fn strip_markdown_handles_code_fences() {
    let input = "Here is an example:\n\n```rust\nlet x = 42;\nlet y = x + 1;\n```";
    let output = strip_markdown(input);
    assert!(output.contains("  let x = 42;"));
    assert!(output.contains("  let y = x + 1;"));
    assert!(!output.contains("```"));
}

#[test]
fn strip_markdown_handles_blockquotes() {
    assert_eq!(strip_markdown("> quoted text"), "quoted text");
}

#[test]
fn strip_markdown_handles_list_markers() {
    assert_eq!(strip_markdown("- bullet"), "bullet");
    assert_eq!(strip_markdown("* bullet"), "bullet");
    assert_eq!(strip_markdown("+ bullet"), "bullet");
}

#[test]
fn strip_markdown_handles_numbered_lists() {
    assert_eq!(strip_markdown("1. item"), "item");
    assert_eq!(strip_markdown("42. item"), "item");
}

#[test]
fn strip_markdown_handles_horizontal_rules() {
    let input = "before\n\n---\n\nafter";
    let output = strip_markdown(input);
    assert!(output.contains("before"));
    assert!(output.contains("after"));
    assert!(!output.contains("---"));
}

#[test]
fn strip_markdown_combined() {
    let input = "# Title\n\nSome **bold** and *italic* text with `code`.\n\n[link](url) here.";
    let expected = "Title\n\nSome bold and italic text with code.\n\nlink here.";
    assert_eq!(strip_markdown(input), expected);
}

// ---- truncate_doc ----

#[test]
fn truncate_doc_no_truncation_when_under_limit() {
    let limits = DisplayLimits::default();
    let text = "Short text.";
    assert_eq!(truncate_doc(text, &limits), "Short text.");
}

#[test]
fn truncate_doc_respects_expand_all() {
    let limits = DisplayLimits { expand_all: true, ..DisplayLimits::default() };
    let text = "a".repeat(2000);
    assert_eq!(truncate_doc(&text, &limits), text);
}

#[test]
fn truncate_doc_at_paragraph_boundary() {
    let limits = DisplayLimits { max_doc_length: 50, ..DisplayLimits::default() };
    let text = "First paragraph here.\n\nSecond paragraph that goes over the limit by a lot.";
    let result = truncate_doc(text, &limits);
    assert!(result.ends_with("..."), "result: {result}");
    assert!(result.contains("First paragraph here."));
}

#[test]
fn truncate_doc_at_sentence_boundary() {
    let limits = DisplayLimits { max_doc_length: 40, ..DisplayLimits::default() };
    let text = "First sentence. Second sentence goes on and on past the limit here.";
    let result = truncate_doc(text, &limits);
    assert_eq!(result, "First sentence.");
}

#[test]
fn truncate_doc_at_word_boundary() {
    let limits = DisplayLimits { max_doc_length: 20, ..DisplayLimits::default() };
    let text = "Oneword anotherword yetanother";
    let result = truncate_doc(text, &limits);
    assert!(result.ends_with("..."), "result: {result}");
    assert!(!result.contains("yetanother"));
}

#[test]
fn truncate_doc_hard_truncate() {
    let limits = DisplayLimits { max_doc_length: 10, ..DisplayLimits::default() };
    let text = "abcdefghijklmnop";
    let result = truncate_doc(text, &limits);
    assert!(result.ends_with("..."), "result: {result}");
    assert!(result.len() <= 13 + 3);
}

#[test]
fn truncate_doc_respects_utf8_boundaries() {
    let limits = DisplayLimits { max_doc_length: 5, ..DisplayLimits::default() };
    let text = "日本語テスト";
    let result = truncate_doc(text, &limits);
    assert!(result.ends_with("..."), "result: {result}");
    assert!(std::str::from_utf8(result.as_bytes()).is_ok());
}

#[test]
fn truncate_doc_at_1500_chars() {
    let limits = DisplayLimits::default();
    let paragraph1 = "x".repeat(1000);
    let paragraph2 = "y".repeat(600);
    let text = format!("{paragraph1}\n\n{paragraph2}");
    let result = truncate_doc(&text, &limits);
    assert!(result.ends_with("..."), "result should end with ...");
    assert!(result.len() < text.len());
}

// ---- feature_gate_suffix ----

#[test]
fn feature_gate_suffix_none_returns_empty() {
    assert_eq!(feature_gate_suffix(None), "");
}

#[test]
fn feature_gate_suffix_some_returns_annotation() {
    let gate = "fs".to_string();
    assert_eq!(feature_gate_suffix(Some(&gate)), "  [feature: fs]");
}

// ---- render_text ----

#[test]
fn render_truncation_respects_utf8_boundaries() {
    let long_docs = "日本語テスト。".repeat(300);
    let mut index = DocIndex::new("mycrate".to_string(), "0.1.0".to_string());
    index.add_item(make_item_full(
        "unicode_fn",
        "mycrate::unicode_fn",
        ItemKind::Function,
        "pub fn unicode_fn()",
        &long_docs,
        "Japanese test text.",
    ));
    let di = DisplayItem::Leaf { item: 0 };
    let limits = DisplayLimits { expand_all: false, ..DisplayLimits::default() };
    let output = render_text(&index, &di, &limits);
    assert!(output.contains("..."), "output should be truncated");
    assert!(std::str::from_utf8(output.as_bytes()).is_ok());
}

#[test]
fn render_trait_only_required_uses_methods_header() {
    let mut index = DocIndex::new("mycrate".to_string(), "0.1.0".to_string());
    let mut method = make_item_full(
        "next",
        "mycrate::Iterator::next",
        ItemKind::Function,
        "fn next(&mut self) -> Option<Self::Item>",
        "Advances the iterator.",
        "Advances the iterator.",
    );
    method.has_body = false;
    index.add_item(method);
    let mut trait_item = make_item_full(
        "Iterator",
        "mycrate::Iterator",
        ItemKind::Trait,
        "pub trait Iterator",
        "An interface for dealing with iterators.",
        "An interface for dealing with iterators.",
    );
    trait_item.children = vec![ChildRef { index: 0, kind: ItemKind::Function, name: "next".to_string() }];
    index.add_item(trait_item);

    let di = build_display_item(&index, 1, false);
    let limits = DisplayLimits::default();
    let output = render_text(&index, &di, &limits);
    assert!(output.contains("Methods:"));
    assert!(!output.contains("Required Methods:"));
    assert!(!output.contains("Provided Methods:"));
}

#[test]
fn render_text_crate_root_lists_grouped_children() {
    let mut index = DocIndex::new("mycrate".to_string(), "0.1.0".to_string());
    index.add_item(make_item_full("Widget", "mycrate::Widget", ItemKind::Struct, "pub struct Widget", "A widget.", "A widget."));
    index.add_item(make_item_full("process", "mycrate::process", ItemKind::Function, "pub fn process(x: u32) -> u32", "Processes a value.", "Processes a value."));
    let mut root = make_item_full("mycrate", "mycrate", ItemKind::Module, "", "A framework.", "A framework.");
    root.children = vec![
        ChildRef { index: 0, kind: ItemKind::Struct, name: "Widget".to_string() },
        ChildRef { index: 1, kind: ItemKind::Function, name: "process".to_string() },
    ];
    index.add_item(root);
    let di = build_display_item(&index, 2, false);
    let output = render_text(&index, &di, &DisplayLimits::default());
    let expected = format!(
        "crate mycrate\n\nA framework.\n\nstructs:\n  {:<30}  A widget.\n\nfunctions:\n  {:<58}  Processes a value.",
        "Widget", "pub fn process(x: u32) -> u32"
    );
    assert_eq!(output, expected);
}

// ---- brief ----

#[test]
fn render_brief_module_shows_kind_and_name_only() {
    let mut index = DocIndex::new("mycrate".to_string(), "0.1.0".to_string());
    let mut root = make_item("mycrate", "mycrate", ItemKind::Module);
    let child_fn = make_item("bar", "mycrate::bar", ItemKind::Function);
    let child_mod = make_item("sub", "mycrate::sub", ItemKind::Module);
    index.add_item(root.clone());
    index.add_item(child_fn);
    index.add_item(child_mod);
    root.children = vec![
        ChildRef { index: 1, kind: ItemKind::Function, name: "bar".to_string() },
        ChildRef { index: 2, kind: ItemKind::Module, name: "sub".to_string() },
    ];
    index.items[0] = root;

    let display = build_display_item(&index, 0, false);
    let output = render_brief(&index, &display);
    assert!(output.contains("crate mycrate"), "header: {output}");
    assert!(output.contains("fn   bar") || output.contains("fn  bar"), "child fn: {output}");
    assert!(output.contains("mod  sub"), "child mod: {output}");
    assert!(!output.contains("pub"), "no signatures: {output}");
}

#[test]
fn render_brief_type_shows_method_names() {
    let mut index = DocIndex::new("mycrate".to_string(), "0.1.0".to_string());
    let mut st = make_item_full("Foo", "mycrate::Foo", ItemKind::Struct, "pub struct Foo", "", "");
    let method = make_item("do_thing", "mycrate::Foo::do_thing", ItemKind::Function);
    index.add_item(st.clone());
    index.add_item(method);
    st.children = vec![ChildRef { index: 1, kind: ItemKind::Function, name: "do_thing".to_string() }];
    index.items[0] = st;

    let display = build_display_item(&index, 0, false);
    let output = render_brief(&index, &display);
    assert!(output.contains("struct mycrate::Foo"), "header: {output}");
    assert!(output.contains("fn       do_thing"), "method: {output}");
    assert!(!output.contains("pub struct"), "no full signature: {output}");
}

#[test]
fn render_brief_recursive_groups_by_module() {
    let items = [
        make_item_full("bar", "mycrate::bar", ItemKind::Function, "pub fn bar()", "", ""),
        make_item_full("sub", "mycrate::sub", ItemKind::Module, "", "", ""),
        make_item_full("Foo", "mycrate::sub::Foo", ItemKind::Struct, "pub struct Foo", "", ""),
    ];
    let output = render_brief_recursive(&items, "mycrate");

    assert!(output.contains("mycrate:"), "root module header: {output}");
    assert!(output.contains("mycrate::sub:"), "sub module header: {output}");
    assert!(output.contains("fn      bar"), "fn name: {output}");
    assert!(output.contains("struct  Foo"), "struct name: {output}");
    assert!(!output.contains("pub fn"), "no signatures: {output}");
    assert!(!output.contains("pub struct"), "no signatures: {output}");
}

#[test]
fn render_brief_recursive_exact_layout() {
    let items = [
        make_item_full("bar", "mycrate::bar", ItemKind::Function, "pub fn bar()", "", ""),
        make_item_full("Foo", "mycrate::sub::Foo", ItemKind::Struct, "pub struct Foo", "", ""),
        make_item_full("sub", "mycrate::sub", ItemKind::Module, "", "", ""),
    ];
    let output = render_brief_recursive(&items, "mycrate");
    assert_eq!(output, "mycrate:\n  fn      bar\n  mod     sub\n\nmycrate::sub:\n  struct  Foo");
}

// ---- ambiguous and impls ----

#[test]
fn render_impls_other_item() {
    let item = make_item_full("utils", "mycrate::utils", ItemKind::Module, "", "Utility helpers.", "Utility helpers.");
    let output = render_impls_other(&item);
    assert_eq!(output, "mod mycrate::utils has no trait implementations.");
}

#[test]
fn render_source_unavailable() {
    let item = make_item_full(
        "macro_generated",
        "mycrate::macro_generated",
        ItemKind::Function,
        "pub fn macro_generated()",
        "",
        "",
    );
    let output = render_source(&item, None);
    assert_eq!(output, "// source not available (macro-generated or built-in)");
}

#[test]
fn render_source_file_not_found() {
    let item = with_span(
        make_item_full("missing", "mycrate::missing", ItemKind::Function, "pub fn missing()", "", ""),
        "src/foo.rs",
        1,
        10,
    );
    let output = render_source(&item, None);
    assert_eq!(output, "// source not available (Could not read src/foo.rs)");
}

#[test]
fn extract_first_paragraph_blank_line() {
    let docs = "First paragraph.\n\nSecond paragraph.";
    assert_eq!(extract_first_paragraph(docs), "First paragraph.");
}

#[test]
fn extract_first_paragraph_no_blank_line_short() {
    let docs = "A single short doc comment.";
    assert_eq!(extract_first_paragraph(docs), "A single short doc comment.");
}

#[test]
fn extract_first_paragraph_long_text_truncated() {
    let long = "word ".repeat(100);
    let result = extract_first_paragraph(&long);
    assert!(result.len() <= 210, "result should be truncated: {}", result.len());
    assert!(result.ends_with("..."));
}

#[test]
fn render_source_with_range_header() {
    let item = with_span(
        make_item_full("Mutex", "mycrate::Mutex", ItemKind::Struct, "pub struct Mutex", "", ""),
        "src/sync/mutex.rs",
        42,
        147,
    );
    let output = render_source(&item, Some("pub struct Mutex {}\n"));
    assert_eq!(output, "// src/sync/mutex.rs:42-147\npub struct Mutex {}");
    let single = with_span(item.clone(), "src/lib.rs", 42, 42);
    assert_eq!(render_source(&single, Some("x")), "// src/lib.rs:42\nx");
}

#[test]
fn render_source_ambiguous_separates_blocks() {
    let a = with_span(make_item("A", "m::A", ItemKind::Struct), "src/a.rs", 1, 2);
    let b = with_span(make_item("B", "m::B", ItemKind::Struct), "src/b.rs", 3, 3);
    let list: Vec<(&IndexItem, Option<&str>)> = vec![(&a, Some("struct A;")), (&b, Some("struct B;"))];
    assert_eq!(
        render_source_ambiguous(&list),
        "--- m::A ---\n// src/a.rs:1-2\nstruct A;\n\n--- m::B ---\n// src/b.rs:3\nstruct B;"
    );
}

#[test]
fn render_impls_type_orders_real_before_synthetic() {
    let item = make_item_full("Mutex", "mycrate::Mutex", ItemKind::Struct, "pub struct Mutex", "", "");
    let impls = vec![
        TraitImplInfo { trait_path: "Send".to_string(), is_synthetic: true },
        TraitImplInfo { trait_path: "Debug".to_string(), is_synthetic: false },
        TraitImplInfo { trait_path: "Clone".to_string(), is_synthetic: false },
    ];
    assert_eq!(
        render_impls_type(&item, &impls),
        "struct mycrate::Mutex\n\npub struct Mutex\n\nTrait Implementations:\n  impl Clone\n  impl Debug\n  impl Send (synthetic)"
    );
    assert_eq!(
        render_impls_type(&item, &Vec::new()),
        "struct mycrate::Mutex\n\npub struct Mutex\n\nNo trait implementations."
    );
}

#[test]
fn render_impls_trait_lists_implementors() {
    let item = make_item_full("MyTrait", "mycrate::MyTrait", ItemKind::Trait, "pub trait MyTrait", "A trait.", "A trait.");
    let imps = vec!["mycrate::MyStruct".to_string()];
    assert_eq!(
        render_impls_trait(&item, &imps),
        "trait mycrate::MyTrait\n\npub trait MyTrait\n\nImplementors:\n  mycrate::MyStruct"
    );
    assert_eq!(
        render_impls_trait(&item, &[]),
        "trait mycrate::MyTrait\n\npub trait MyTrait\n\nNo known implementors."
    );
}

#[test]
fn render_ambiguous_macro_trait_special() {
    let mut index = DocIndex::new("mycrate".to_string(), "0.1.0".to_string());
    index.add_item(make_item_full("Serialize", "mycrate::Serialize", ItemKind::Trait, "pub trait Serialize", "", "A data structure."));
    index.add_item(make_item_full("Serialize", "mycrate::Serialize", ItemKind::Macro, "", "", ""));
    let output = render_ambiguous(&index, &[0, 1], "Serialize");
    let expected = format!(
        "\"Serialize\" matches 2 items:\n\n  {:<7}  {:<20}  A data structure.\n  {:<7}  {:<20}\n\nUse --kind trait or --kind macro to select.",
        "trait", "Serialize", "macro", "Serialize"
    );
    assert_eq!(output, expected);
}

#[test]
fn render_ambiguous_two_matches_detailed() {
    let mut index = DocIndex::new("mycrate".to_string(), "0.1.0".to_string());
    index.add_item(make_item_full("Error", "mycrate::de::Error", ItemKind::Trait, "pub trait Error: Sized", "When a **Deserialize** fails.", "s"));
    index.add_item(make_item_full("Error", "mycrate::ser::Error", ItemKind::Trait, "pub trait Error: Sized", "", "s"));
    let output = render_ambiguous(&index, &[0, 1], "Error");
    assert_eq!(
        output,
        "Found 2 items matching \"Error\":\n\n--- mycrate::de::Error ---\npub trait Error: Sized\nWhen a Deserialize fails.\n\n--- mycrate::ser::Error ---\npub trait Error: Sized"
    );
}

#[test]
fn render_ambiguous_many_matches_counts_rest() {
    let mut index = DocIndex::new("m".to_string(), "0.1.0".to_string());
    let mut idx = Vec::new();
    for i in 0..12 {
        index.add_item(make_item("E", &format!("m::e{i}::E"), ItemKind::Struct));
        idx.push(i);
    }
    let output = render_ambiguous(&index, &idx, "E");
    assert!(output.starts_with("Found 12 items matching \"E\":\n\n"));
    assert!(output.ends_with("... (2 more, use a more specific path)"));
    assert_eq!(output.lines().count(), 2 + 10 + 1);
}

#[test]
fn render_ambiguous_list_mode() {
    let mut index = DocIndex::new("mycrate".to_string(), "0.1.0".to_string());
    index.add_item(make_item("Error", "mycrate::de::Error", ItemKind::Trait));
    index.add_item(make_item("Error", "mycrate::ser::Error", ItemKind::Trait));
    assert_eq!(render_ambiguous_list(&index, &[1, 0]), "mycrate::ser::Error\nmycrate::de::Error");
}

// ---- recursive listings ----

#[test]
fn render_docs_recursive_empty_returns_empty() {
    let items: Vec<IndexItem> = vec![];
    let output = render_docs_recursive(&items, "mycrate");
    assert!(output.is_empty());
}

#[test]
fn render_docs_recursive_indents_docs() {
    let items = [make_item_full("add", "mycrate::add", ItemKind::Function, "pub fn add()", "Adds.\n\nReturns the sum.", "Adds.")];
    assert_eq!(
        render_docs_recursive(&items, "mycrate"),
        "mycrate:\n\nfn  mycrate::add\n    pub fn add()\n\n    Adds.\n\n    Returns the sum."
    );
}

#[test]
fn render_list_recursive_aligns_columns() {
    let items = [
        make_item_full("bar", "mycrate::bar", ItemKind::Function, "pub fn bar()", "Does bar.", "Does bar."),
        make_item_full("sub", "mycrate::sub", ItemKind::Module, "", "A submodule.", "A submodule."),
    ];
    let out = render_list_recursive(&items, "mycrate");
    assert_eq!(
        out,
        "mycrate:\n  fn   mycrate::bar  pub fn bar()  Does bar.\n  mod  mycrate::sub                A submodule."
    );
}

#[test]
fn filter_trait_impls_keeps_named_trait() {
    let impls = vec![
        TraitImplInfo { trait_path: "Send".to_string(), is_synthetic: true },
        TraitImplInfo { trait_path: "std::clone::Clone".to_string(), is_synthetic: false },
        TraitImplInfo { trait_path: "Debug".to_string(), is_synthetic: false },
        TraitImplInfo { trait_path: "CloneLike".to_string(), is_synthetic: false },
    ];
    let kept = filter_trait_impls(&impls, "Clone");
    assert_eq!(kept, vec![TraitImplInfo { trait_path: "std::clone::Clone".to_string(), is_synthetic: false }]);
    assert_eq!(filter_trait_impls(&impls, "std::clone::Clone").len(), 1);
    assert!(filter_trait_impls(&impls, "Display").is_empty());
}
