use groxide::crate_model::{
    CrateItem, CrateModel, FieldIds, ImplBlock, ItemInner, ItemVisibility, PathEntry, SummaryKind,
    UseDecl,
};
use groxide::index_build::{build_index, convert_item_summary_kind, sorted_copy};
use groxide::signature::{SigGenerics, SigItem, SigStructShape};
use groxide::types::{DocIndex, ItemKind, SourceSpan};

fn span() -> SourceSpan {
    SourceSpan { file: "src/lib.rs".to_string(), line_start: 1, line_end: 2 }
}

fn generics() -> SigGenerics {
    SigGenerics { params: vec![], where_predicates: vec![] }
}

fn item(id: u32, name: Option<&str>, vis: ItemVisibility, inner: ItemInner, sig: SigItem) -> CrateItem {
    CrateItem {
        id,
        name: name.map(|n| n.to_string()),
        visibility: vis,
        inner,
        docs: None,
        attrs: vec![],
        span: span(),
        sig,
    }
}

fn unit_struct() -> SigItem {
    SigItem::Struct { generics: generics(), shape: SigStructShape::Unit }
}

fn entry(id: u32, path: &[&str], kind: SummaryKind) -> PathEntry {
    PathEntry { id, path: path.iter().map(|s| s.to_string()).collect(), kind }
}

fn impl_block(items: Vec<u32>, trait_path: Option<&str>, is_blanket: bool, for_path: Option<(u32, &str)>) -> ItemInner {
    ItemInner::Impl(ImplBlock {
        items,
        trait_path: trait_path.map(|t| t.to_string()),
        is_blanket,
        is_synthetic: false,
        for_path: for_path.map(|(i, p)| (i, p.to_string())),
    })
}

/// A root module with a struct (one field, an inherent method, a `Clone`
/// impl and a blanket impl), a submodule with a struct, and a `pub use`
/// of that struct at the root.
fn sample_crate() -> CrateModel {
    let mut foo = item(
        1,
        Some("Foo"),
        ItemVisibility::Public,
        ItemInner::Struct { fields: FieldIds::Plain(vec![2]), impls: vec![3, 5, 7] },
        unit_struct(),
    );
    foo.docs = Some("A foo. More text.".to_string());
    let items = vec![
        item(0, Some("mycrate"), ItemVisibility::Public, ItemInner::Module(vec![1, 9, 11]), SigItem::Module),
        foo,
        item(2, Some("x"), ItemVisibility::Default, ItemInner::StructField, SigItem::Unrenderable),
        item(3, None, ItemVisibility::Default, impl_block(vec![4], None, false, Some((1, "Foo"))), SigItem::Unrenderable),
        item(4, Some("new"), ItemVisibility::Public, ItemInner::Function { has_body: true }, SigItem::Unrenderable),
        item(5, None, ItemVisibility::Default, impl_block(vec![6], Some("Clone"), false, Some((1, "Foo"))), SigItem::Unrenderable),
        item(6, Some("clone"), ItemVisibility::Default, ItemInner::Function { has_body: true }, SigItem::Unrenderable),
        item(7, None, ItemVisibility::Default, impl_block(vec![8], Some("Into"), true, None), SigItem::Unrenderable),
        item(8, Some("into"), ItemVisibility::Default, ItemInner::Function { has_body: true }, SigItem::Unrenderable),
        item(9, Some("inner"), ItemVisibility::Public, ItemInner::Module(vec![10]), SigItem::Module),
        item(10, Some("Bar"), ItemVisibility::Public, ItemInner::Struct { fields: FieldIds::Unit, impls: vec![] }, unit_struct()),
        item(
            11,
            None,
            ItemVisibility::Public,
            ItemInner::Use(UseDecl {
                source: "inner::Bar".to_string(),
                name: "Bar".to_string(),
                target: Some(10),
                is_glob: false,
            }),
            SigItem::Unrenderable,
        ),
    ];
    let paths = vec![
        entry(0, &["mycrate"], SummaryKind::Module),
        entry(1, &["mycrate", "Foo"], SummaryKind::Struct),
        entry(9, &["mycrate", "inner"], SummaryKind::Module),
        entry(10, &["mycrate", "inner", "Bar"], SummaryKind::Struct),
    ];
    CrateModel { root: 0, items, paths }
}

fn build(c: &CrateModel) -> DocIndex {
    assert!(c.check_wf());
    build_index(c, "mycrate".to_string(), "0.1.0".to_string()).expect("summaries are defined")
}

fn paths_of(idx: &DocIndex) -> Vec<String> {
    idx.items.iter().map(|i| i.path.clone()).collect()
}

#[test]
fn build_index_converts_items_in_id_order() {
    let idx = build(&sample_crate());
    assert_eq!(
        paths_of(&idx),
        vec![
            "mycrate",
            "mycrate::Foo",
            "mycrate::Foo::x",
            "mycrate::Foo::new",
            "mycrate::Foo::clone",
            "mycrate::inner",
            "mycrate::inner::Bar",
            "mycrate::Bar",
        ]
    );
    assert_eq!(idx.crate_name, "mycrate");
    assert_eq!(idx.crate_version, "0.1.0");
}

#[test]
fn build_index_skips_blanket_impl_items_and_impl_blocks() {
    let idx = build(&sample_crate());
    assert!(idx.lookup_by_name("into").is_empty());
    assert_eq!(idx.items.len(), 8);
}

#[test]
fn build_index_links_children() {
    let idx = build(&sample_crate());
    let root: Vec<usize> = idx.items[0].children.iter().map(|c| c.index).collect();
    assert_eq!(root, vec![1, 5, 7]);
    let foo: Vec<(usize, ItemKind, String)> =
        idx.items[1].children.iter().map(|c| (c.index, c.kind, c.name.clone())).collect();
    assert_eq!(foo, vec![(2, ItemKind::Field, "x".to_string()), (3, ItemKind::Function, "new".to_string())]);
    assert!(idx.items[7].children.is_empty());
    assert!(idx.check_well_formed());
}

#[test]
fn build_index_records_trait_impls_without_blanket_ones() {
    let idx = build(&sample_crate());
    let impls = idx.item_trait_impls(1);
    assert_eq!(impls.len(), 1);
    assert_eq!(impls[0].trait_path, "Clone");
    assert!(!impls[0].is_synthetic);
    assert!(idx.item_trait_impls(6).is_empty());
}

#[test]
fn build_index_reexport_takes_target_signature_and_source() {
    let idx = build(&sample_crate());
    let reexport = &idx.items[7];
    assert_eq!(reexport.name, "Bar");
    assert_eq!(reexport.kind, ItemKind::Struct);
    assert_eq!(reexport.signature, "pub struct Bar");
    assert_eq!(reexport.reexport_source.as_deref(), Some("mycrate::inner::Bar"));
    assert!(reexport.is_public);
    assert_eq!(idx.lookup_by_name("bar"), vec![6, 7]);
    assert_eq!(idx.lookup_by_path("mycrate::Bar"), vec![7]);
}

#[test]
fn build_index_fills_item_fields() {
    let idx = build(&sample_crate());
    let foo = &idx.items[1];
    assert_eq!(foo.signature, "pub struct Foo");
    assert_eq!(foo.docs, "A foo. More text.");
    assert_eq!(foo.summary, "A foo.");
    assert_eq!(foo.span.file, "src/lib.rs");
    let field = &idx.items[2];
    assert!(field.is_public);
    assert_eq!(field.signature, "field x");
    let method = &idx.items[3];
    assert!(method.has_body);
    assert_eq!(method.signature, "pub fn new");
    assert_eq!(idx.lookup_by_suffix("foo::new"), vec![3]);
}

#[test]
fn build_index_hoists_glob_reexported_members() {
    let items = vec![
        item(20, Some("c"), ItemVisibility::Public, ItemInner::Module(vec![21, 22]), SigItem::Module),
        item(
            21,
            None,
            ItemVisibility::Public,
            ItemInner::Use(UseDecl {
                source: "hidden".to_string(),
                name: "hidden".to_string(),
                target: Some(22),
                is_glob: true,
            }),
            SigItem::Unrenderable,
        ),
        item(22, Some("hidden"), ItemVisibility::Crate, ItemInner::Module(vec![23]), SigItem::Module),
        item(23, Some("Baz"), ItemVisibility::Public, ItemInner::Struct { fields: FieldIds::Unit, impls: vec![] }, unit_struct()),
    ];
    let paths = vec![
        entry(20, &["c"], SummaryKind::Module),
        entry(22, &["c", "hidden"], SummaryKind::Module),
        entry(23, &["c", "hidden", "Baz"], SummaryKind::Struct),
    ];
    let c = CrateModel { root: 20, items, paths };
    let idx = build(&c);
    assert_eq!(paths_of(&idx), vec!["c", "c::hidden", "c::Baz"]);
    let root: Vec<usize> = idx.items[0].children.iter().map(|c| c.index).collect();
    assert_eq!(root, vec![2, 1]);
    assert!(!idx.items[1].is_public);
}

#[test]
fn build_index_rebuilds_paths_through_parents() {
    let items = vec![
        item(1, Some("k"), ItemVisibility::Public, ItemInner::Module(vec![2]), SigItem::Module),
        item(2, Some("T"), ItemVisibility::Public, ItemInner::Trait { items: vec![3] }, SigItem::Unrenderable),
        item(3, Some("run"), ItemVisibility::Default, ItemInner::Function { has_body: false }, SigItem::Unrenderable),
    ];
    let paths = vec![entry(1, &["k"], SummaryKind::Module)];
    let c = CrateModel { root: 1, items, paths };
    let idx = build(&c);
    assert_eq!(paths_of(&idx), vec!["k", "k::T", "k::T::run"]);
    assert_eq!(idx.items[1].signature, "pub trait T");
    assert!(!idx.items[2].has_body);
    assert!(idx.items[2].is_public);
}

#[test]
fn build_index_reports_a_summary_cut_inside_a_character() {
    let mut docs = "a".repeat(99);
    docs.push('é');
    docs.push_str(" and more words without an end");
    let mut m = item(1, Some("m"), ItemVisibility::Public, ItemInner::Module(vec![]), SigItem::Module);
    m.docs = Some(docs);
    let c = CrateModel { root: 1, items: vec![m], paths: vec![entry(1, &["m"], SummaryKind::Module)] };
    assert!(build_index(&c, "m".to_string(), "1.0.0".to_string()).is_none());
}

#[test]
fn unsorted_crate_model_is_not_well_formed() {
    let items = vec![
        item(2, Some("b"), ItemVisibility::Public, ItemInner::Module(vec![]), SigItem::Module),
        item(1, Some("a"), ItemVisibility::Public, ItemInner::Module(vec![]), SigItem::Module),
    ];
    let c = CrateModel { root: 1, items, paths: vec![] };
    assert!(!c.check_wf());
    assert!(sample_crate().check_wf());
}

#[test]
fn summary_kinds_map_to_index_kinds() {
    assert_eq!(convert_item_summary_kind(SummaryKind::ProcDerive), Some(ItemKind::ProcMacro));
    assert_eq!(convert_item_summary_kind(SummaryKind::StructField), Some(ItemKind::Field));
    assert_eq!(convert_item_summary_kind(SummaryKind::Keyword), None);
    assert_eq!(convert_item_summary_kind(SummaryKind::Use), None);
}

#[test]
fn sorted_copy_orders_ids() {
    assert_eq!(sorted_copy(&vec![5, 1, 3, 1]), vec![1, 1, 3, 5]);
}
