use groxide::render::recursive::collect_children_recursive;
use groxide::stdlib::{stdlib_features, stdlib_rustdoc_args};
use groxide::cli::FeatureFlags;
use groxide::types::{ChildRef, DocIndex, IndexItem, ItemKind, SourceSpan};

fn item(name: &str, path: &str, kind: ItemKind, public: bool, children: &[(usize, ItemKind, &str)]) -> IndexItem {
    IndexItem {
        path: path.to_string(),
        name: name.to_string(),
        kind,
        signature: String::new(),
        docs: String::new(),
        summary: String::new(),
        span: SourceSpan { file: String::new(), line_start: 0, line_end: 0 },
        children: children.iter().map(|&(index, kind, name)| ChildRef { index, kind, name: name.to_string() }).collect(),
        is_public: public,
        has_body: false,
        feature_gate: None,
        reexport_source: None,
    }
}

/// root (0) -> sync (1) -> [Mutex (2), hidden (3) -> [Inner (4)]], root -> Barrier (5);
/// sync also lists root again (a glob re-export of the parent).
fn sample() -> DocIndex {
    let mut index = DocIndex::new("c".to_string(), "1.0.0".to_string());
    index.add_item(item("c", "c", ItemKind::Module, true, &[(1, ItemKind::Module, "sync"), (5, ItemKind::Struct, "Barrier")]));
    index.add_item(item(
        "sync",
        "c::sync",
        ItemKind::Module,
        true,
        &[(2, ItemKind::Struct, "Mutex"), (3, ItemKind::Module, "hidden"), (0, ItemKind::Module, "c")],
    ));
    index.add_item(item("Mutex", "c::sync::Mutex", ItemKind::Struct, true, &[]));
    index.add_item(item("hidden", "c::sync::hidden", ItemKind::Module, false, &[(4, ItemKind::Struct, "Inner")]));
    index.add_item(item("Inner", "c::sync::hidden::Inner", ItemKind::Struct, true, &[]));
    index.add_item(item("Barrier", "c::Barrier", ItemKind::Struct, true, &[]));
    index
}

#[test]
fn recursive_listing_collects_public_descendants_sorted_by_path() {
    let index = sample();
    assert_eq!(collect_children_recursive(&index, 0, false), vec![5, 1, 2]);
}

#[test]
fn recursive_listing_with_private_items_descends_into_them() {
    let index = sample();
    assert_eq!(collect_children_recursive(&index, 0, true), vec![5, 1, 2, 3, 4]);
}

#[test]
fn recursive_listing_of_a_leaf_is_empty() {
    let index = sample();
    assert!(collect_children_recursive(&index, 2, false).is_empty());
}

#[test]
fn stdlib_builds_never_use_all_features() {
    let f = FeatureFlags { all_features: true, no_default_features: true, features: vec!["x".to_string()] };
    let s = stdlib_features(&f);
    assert!(!s.all_features);
    assert!(s.no_default_features);
    assert_eq!(s.features, vec!["x".to_string()]);
    let d = stdlib_features(&FeatureFlags { all_features: true, no_default_features: false, features: vec![] });
    assert!(!d.all_features);
}

#[test]
fn stdlib_rustdoc_args_in_order() {
    let f = FeatureFlags { all_features: false, no_default_features: false, features: vec!["a".to_string(), "b".to_string()] };
    let args = stdlib_rustdoc_args("/lib/std/Cargo.toml", "/cache/t", &f, true);
    assert_eq!(
        args,
        vec![
            "+nightly", "rustdoc", "--lib", "--manifest-path", "/lib/std/Cargo.toml", "--target-dir", "/cache/t",
            "--features", "a,b", "--output-format", "json", "-Z", "unstable-options", "--", "--document-private-items",
        ]
    );
    let plain = stdlib_rustdoc_args("m", "t", &FeatureFlags { all_features: false, no_default_features: false, features: vec![] }, false);
    assert_eq!(plain.last().map(String::as_str), Some("unstable-options"));
}
