use groxide::render::display::build_display_item;
use groxide::render::json::{json_list_items, json_list_records, json_records, JsonLine};
use groxide::types::{ChildRef, DocIndex, IndexItem, ItemKind, SourceSpan, TraitImplInfo};

fn make_item_full(
    name: &str,
    path: &str,
    kind: ItemKind,
    signature: &str,
    docs: &str,
    summary: &str,
) -> IndexItem {
    IndexItem {
        path: path.to_string(),
        name: name.to_string(),
        kind,
        signature: signature.to_string(),
        docs: docs.to_string(),
        summary: summary.to_string(),
        span: SourceSpan { file: String::new(), line_start: 0, line_end: 0 },
        children: Vec::new(),
        is_public: true,
        has_body: false,
        feature_gate: None,
        reexport_source: None,
    }
}

fn child(index: usize, kind: ItemKind, name: &str) -> ChildRef {
    ChildRef { index, kind, name: name.to_string() }
}

#[test]
fn render_json_struct() {
    let mut index = DocIndex::new("mycrate".to_string(), "0.1.0".to_string());
    index.add_item(make_item_full(
        "lock",
        "mycrate::Mutex::lock",
        ItemKind::Function,
        "pub fn lock(&self) -> MutexGuard<'_, T>",
        "Locks this mutex.",
        "Locks this mutex.",
    ));
    index.add_item(make_item_full(
        "new",
        "mycrate::Mutex::new",
        ItemKind::Function,
        "pub fn new(t: T) -> Self",
        "Creates a new lock.",
        "Creates a new lock.",
    ));
    let mut struct_item = make_item_full(
        "Mutex",
        "mycrate::Mutex",
        ItemKind::Struct,
        "pub struct Mutex<T: ?Sized>",
        "An asynchronous Mutex-like type.",
        "An asynchronous Mutex-like type.",
    );
    struct_item.children = vec![child(0, ItemKind::Function, "lock"), child(1, ItemKind::Function, "new")];
    index.add_item(struct_item);
    index.trait_impls.insert(
        2,
        vec![
            TraitImplInfo { trait_path: "Debug".to_string(), is_synthetic: false },
            TraitImplInfo { trait_path: "Send".to_string(), is_synthetic: true },
        ],
    );

    let di = build_display_item(&index, 2, false);
    let lines = json_records(&index, &di);
    assert_eq!(lines.len(), 1);
    let JsonLine::Doc(doc) = &lines[0] else { panic!("expected the item's record") };
    assert_eq!(doc.path, "mycrate::Mutex");
    assert_eq!(doc.kind, "struct");
    assert_eq!(doc.signature, "pub struct Mutex<T: ?Sized>");
    assert_eq!(doc.doc, "An asynchronous Mutex-like type.");
    let methods = doc.methods.as_ref().expect("methods");
    assert_eq!(methods.len(), 2);
    assert_eq!(methods[0].name, "lock");
    assert_eq!(methods[0].has_body, None);
    assert_eq!(doc.trait_impls.as_ref().expect("trait impls"), &vec!["Debug".to_string(), "Send".to_string()]);
    assert!(doc.variants.is_none());
    assert!(doc.feature_gate.is_none());
}

#[test]
fn render_json_trait_view() {
    let mut index = DocIndex::new("mycrate".to_string(), "0.1.0".to_string());
    let mut req = make_item_full(
        "next",
        "mycrate::Iterator::next",
        ItemKind::Function,
        "fn next(&mut self) -> Option<Self::Item>",
        "Advances the iterator.",
        "Advances the iterator.",
    );
    req.has_body = false;
    let mut prov = make_item_full(
        "count",
        "mycrate::Iterator::count",
        ItemKind::Function,
        "fn count(self) -> usize",
        "Consumes the iterator.",
        "Consumes the iterator.",
    );
    prov.has_body = true;
    index.add_item(req);
    index.add_item(prov);
    let mut trait_item = make_item_full(
        "Iterator",
        "mycrate::Iterator",
        ItemKind::Trait,
        "pub trait Iterator",
        "An interface for dealing with iterators.",
        "An interface for dealing with iterators.",
    );
    trait_item.children = vec![child(0, ItemKind::Function, "next"), child(1, ItemKind::Function, "count")];
    index.add_item(trait_item);

    let di = build_display_item(&index, 2, false);
    let lines = json_records(&index, &di);
    let JsonLine::Doc(doc) = &lines[0] else { panic!("expected the item's record") };
    assert_eq!(doc.kind, "trait");
    let methods = doc.methods.as_ref().expect("methods");
    assert_eq!(methods.len(), 2);
    assert_eq!(methods[0].has_body, Some(false));
    assert_eq!(methods[1].has_body, Some(true));
    assert!(doc.trait_impls.is_none());
}

#[test]
fn render_json_crate_root_includes_top_level_items() {
    let mut index = DocIndex::new("mycrate".to_string(), "0.1.0".to_string());
    index.add_item(make_item_full("Widget", "mycrate::Widget", ItemKind::Struct, "pub struct Widget", "A widget.", "A widget."));
    index.add_item(make_item_full("utils", "mycrate::utils", ItemKind::Module, "", "Utility helpers.", "Utility helpers."));
    index.add_item(make_item_full(
        "process",
        "mycrate::process",
        ItemKind::Function,
        "pub fn process() -> u32",
        "Processes data.",
        "Processes data.",
    ));
    let mut crate_item = make_item_full("mycrate", "mycrate", ItemKind::Module, "", "A test crate.", "A test crate.");
    crate_item.children = vec![
        child(0, ItemKind::Struct, "Widget"),
        child(1, ItemKind::Module, "utils"),
        child(2, ItemKind::Function, "process"),
    ];
    index.add_item(crate_item);

    let di = build_display_item(&index, 3, false);
    let lines = json_records(&index, &di);
    assert_eq!(lines.len(), 4);
    let JsonLine::Doc(first) = &lines[0] else { panic!("expected the crate's record") };
    assert_eq!(first.path, "mycrate");
    assert_eq!(first.kind, "mod");
    assert_eq!(first.doc, "A test crate.");
    let listed: Vec<String> = lines[1..]
        .iter()
        .map(|l| match l {
            JsonLine::Listed(x) => x.path.clone(),
            JsonLine::Doc(_) => panic!("children are listed"),
        })
        .collect();
    assert_eq!(listed, vec!["mycrate::utils", "mycrate::Widget", "mycrate::process"]);
    let JsonLine::Listed(second) = &lines[1] else { panic!("listed") };
    assert_eq!(second.summary, "Utility helpers.");
}

#[test]
fn render_json_lines_list() {
    let mut index = DocIndex::new("mycrate".to_string(), "0.1.0".to_string());
    index.add_item(make_item_full(
        "Mutex",
        "mycrate::sync::Mutex",
        ItemKind::Struct,
        "pub struct Mutex<T: ?Sized>",
        "An asynchronous Mutex-like type.",
        "An asynchronous Mutex-like type.",
    ));
    index.add_item(make_item_full(
        "RwLock",
        "mycrate::sync::RwLock",
        ItemKind::Struct,
        "pub struct RwLock<T: ?Sized>",
        "An asynchronous reader-writer lock.",
        "An asynchronous reader-writer lock.",
    ));
    let mut mod_item = make_item_full("sync", "mycrate::sync", ItemKind::Module, "", "Sync primitives.", "Sync primitives.");
    mod_item.children = vec![child(0, ItemKind::Struct, "Mutex"), child(1, ItemKind::Struct, "RwLock")];
    index.add_item(mod_item);

    let di = build_display_item(&index, 2, false);
    let items = json_list_records(&index, &di);
    assert_eq!(items.len(), 2);
    assert_eq!(items[0].path, "mycrate::sync::Mutex");
    assert_eq!(items[0].kind, "struct");
    assert_eq!(items[0].signature, "pub struct Mutex<T: ?Sized>");
    assert_eq!(items[1].summary, "An asynchronous reader-writer lock.");
}

#[test]
fn render_json_ambiguous_output() {
    let mut index = DocIndex::new("mycrate".to_string(), "0.1.0".to_string());
    index.add_item(make_item_full(
        "Error",
        "mycrate::de::Error",
        ItemKind::Trait,
        "pub trait Error: Sized",
        "When deserialization encounters an error.",
        "When deserialization encounters an error.",
    ));
    index.add_item(make_item_full(
        "Error",
        "mycrate::ser::Error",
        ItemKind::Trait,
        "pub trait Error: Sized",
        "When serialization encounters an error.",
        "When serialization encounters an error.",
    ));
    let items = json_list_items(&index, &[0, 1]);
    assert_eq!(items.len(), 2);
    assert_eq!(items[0].path, "mycrate::de::Error");
    assert_eq!(items[0].kind, "trait");
    assert_eq!(items[1].path, "mycrate::ser::Error");
}

#[test]
fn json_leaf_record_has_no_lists() {
    let mut index = DocIndex::new("mycrate".to_string(), "0.1.0".to_string());
    let mut f = make_item_full("run", "mycrate::run", ItemKind::Function, "pub fn run()", "Runs.", "Runs.");
    f.feature_gate = Some("rt".to_string());
    index.add_item(f);
    let di = build_display_item(&index, 0, false);
    let lines = json_records(&index, &di);
    assert_eq!(lines.len(), 1);
    let JsonLine::Doc(doc) = &lines[0] else { panic!("expected the item's record") };
    assert_eq!(doc.feature_gate.as_deref(), Some("rt"));
    assert!(doc.methods.is_none() && doc.trait_impls.is_none() && doc.variants.is_none());
    let listed = json_list_records(&index, &di);
    assert_eq!(listed.len(), 1);
    assert_eq!(listed[0].path, "mycrate::run");
}
