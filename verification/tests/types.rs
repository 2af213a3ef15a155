use groxide::types::{
    group_items, is_stdlib_crate, DisplayLimits, DocIndex, IndexItem, ItemKind, KindCategory,
    SourceSpan, TraitImplInfo,
};

fn make_item(name: &str, path: &str, kind: ItemKind) -> IndexItem {
    IndexItem {
        path: path.to_string(),
        name: name.to_string(),
        kind,
        signature: String::new(),
        docs: String::new(),
        summary: String::new(),
        span: SourceSpan { file: String::new(), line_start: 0, line_end: 0 },
        children: Vec::new(),
        is_public: true,
        has_body: false,
        feature_gate: None,
        reexport_source: None,
    }
}

// ---- is_stdlib_crate ----

#[test]
fn is_stdlib_crate_returns_true_for_std() {
    assert!(is_stdlib_crate("std"));
}

#[test]
fn is_stdlib_crate_returns_true_for_core() {
    assert!(is_stdlib_crate("core"));
}

#[test]
fn is_stdlib_crate_returns_true_for_alloc() {
    assert!(is_stdlib_crate("alloc"));
}

#[test]
fn is_stdlib_crate_returns_false_for_serde() {
    assert!(!is_stdlib_crate("serde"));
}

#[test]
fn is_stdlib_crate_returns_false_for_standard() {
    assert!(!is_stdlib_crate("standard"));
}

#[test]
fn is_stdlib_crate_returns_false_for_empty() {
    assert!(!is_stdlib_crate(""));
}

// ---- ItemKind::short_name ----

#[test]
fn short_name_returns_correct_value_for_all_variants() {
    assert_eq!(ItemKind::Module.short_name(), "mod");
    assert_eq!(ItemKind::Struct.short_name(), "struct");
    assert_eq!(ItemKind::Enum.short_name(), "enum");
    assert_eq!(ItemKind::Union.short_name(), "union");
    assert_eq!(ItemKind::Trait.short_name(), "trait");
    assert_eq!(ItemKind::TraitAlias.short_name(), "trait alias");
    assert_eq!(ItemKind::Function.short_name(), "fn");
    assert_eq!(ItemKind::TypeAlias.short_name(), "type");
    assert_eq!(ItemKind::AssocType.short_name(), "type");
    assert_eq!(ItemKind::ForeignType.short_name(), "type");
    assert_eq!(ItemKind::Constant.short_name(), "const");
    assert_eq!(ItemKind::AssocConst.short_name(), "const");
    assert_eq!(ItemKind::Static.short_name(), "static");
    assert_eq!(ItemKind::Macro.short_name(), "macro");
    assert_eq!(ItemKind::ProcMacro.short_name(), "proc macro");
    assert_eq!(ItemKind::Variant.short_name(), "variant");
    assert_eq!(ItemKind::Field.short_name(), "field");
    assert_eq!(ItemKind::Primitive.short_name(), "primitive");
}

// ---- ItemKind::matches_filter ----

#[test]
fn matches_filter_trait_matches_trait_and_alias() {
    assert!(ItemKind::Trait.matches_filter(ItemKind::Trait));
    assert!(ItemKind::TraitAlias.matches_filter(ItemKind::Trait));
    assert!(!ItemKind::Struct.matches_filter(ItemKind::Trait));
}

#[test]
fn matches_filter_type_matches_type_alias_and_assoc_and_foreign() {
    assert!(ItemKind::TypeAlias.matches_filter(ItemKind::TypeAlias));
    assert!(ItemKind::AssocType.matches_filter(ItemKind::TypeAlias));
    assert!(ItemKind::ForeignType.matches_filter(ItemKind::TypeAlias));
    assert!(!ItemKind::Struct.matches_filter(ItemKind::TypeAlias));
}

#[test]
fn matches_filter_const_matches_constant_and_assoc_const() {
    assert!(ItemKind::Constant.matches_filter(ItemKind::Constant));
    assert!(ItemKind::AssocConst.matches_filter(ItemKind::Constant));
    assert!(!ItemKind::Static.matches_filter(ItemKind::Constant));
}

#[test]
fn matches_filter_macro_matches_macro_and_proc_macro() {
    assert!(ItemKind::Macro.matches_filter(ItemKind::Macro));
    assert!(ItemKind::ProcMacro.matches_filter(ItemKind::Macro));
    assert!(!ItemKind::Function.matches_filter(ItemKind::Macro));
}

#[test]
fn matches_filter_fn_matches_only_function() {
    assert!(ItemKind::Function.matches_filter(ItemKind::Function));
    assert!(!ItemKind::Macro.matches_filter(ItemKind::Function));
}

#[test]
fn matches_filter_struct_matches_only_struct() {
    assert!(ItemKind::Struct.matches_filter(ItemKind::Struct));
    assert!(!ItemKind::Enum.matches_filter(ItemKind::Struct));
}

#[test]
fn matches_filter_mod_matches_only_module() {
    assert!(ItemKind::Module.matches_filter(ItemKind::Module));
    assert!(!ItemKind::Function.matches_filter(ItemKind::Module));
}

#[test]
fn matches_filter_enum_matches_only_enum() {
    assert!(ItemKind::Enum.matches_filter(ItemKind::Enum));
    assert!(!ItemKind::Struct.matches_filter(ItemKind::Enum));
}

#[test]
fn matches_filter_other_kinds_match_only_themselves() {
    assert!(ItemKind::Variant.matches_filter(ItemKind::Variant));
    assert!(!ItemKind::Variant.matches_filter(ItemKind::Field));
    assert!(ItemKind::Field.matches_filter(ItemKind::Field));
    assert!(ItemKind::Static.matches_filter(ItemKind::Static));
    assert!(ItemKind::Primitive.matches_filter(ItemKind::Primitive));
    assert!(ItemKind::Union.matches_filter(ItemKind::Union));
}

// ---- ItemKind::category ----

#[test]
fn category_maps_all_kinds_correctly() {
    assert_eq!(ItemKind::Module.category(), KindCategory::Modules);
    assert_eq!(ItemKind::Struct.category(), KindCategory::Structs);
    assert_eq!(ItemKind::Enum.category(), KindCategory::Enums);
    assert_eq!(ItemKind::Union.category(), KindCategory::Unions);
    assert_eq!(ItemKind::Trait.category(), KindCategory::Traits);
    assert_eq!(ItemKind::TraitAlias.category(), KindCategory::Traits);
    assert_eq!(ItemKind::Function.category(), KindCategory::Functions);
    assert_eq!(ItemKind::TypeAlias.category(), KindCategory::TypeAliases);
    assert_eq!(ItemKind::AssocType.category(), KindCategory::TypeAliases);
    assert_eq!(ItemKind::ForeignType.category(), KindCategory::TypeAliases);
    assert_eq!(ItemKind::Constant.category(), KindCategory::Constants);
    assert_eq!(ItemKind::AssocConst.category(), KindCategory::Constants);
    assert_eq!(ItemKind::Static.category(), KindCategory::Statics);
    assert_eq!(ItemKind::Macro.category(), KindCategory::Macros);
    assert_eq!(ItemKind::ProcMacro.category(), KindCategory::Macros);
    assert_eq!(ItemKind::Variant.category(), KindCategory::Variants);
    assert_eq!(ItemKind::Field.category(), KindCategory::Fields);
    assert_eq!(ItemKind::Primitive.category(), KindCategory::Primitives);
}

// ---- ItemKind::is_primary ----

#[test]
fn is_primary_returns_true_for_expected_kinds() {
    assert!(ItemKind::Struct.is_primary());
    assert!(ItemKind::Enum.is_primary());
    assert!(ItemKind::Union.is_primary());
    assert!(ItemKind::Trait.is_primary());
    assert!(ItemKind::TraitAlias.is_primary());
    assert!(ItemKind::TypeAlias.is_primary());
}

#[test]
fn is_primary_returns_false_for_non_primary_kinds() {
    assert!(!ItemKind::Module.is_primary());
    assert!(!ItemKind::Function.is_primary());
    assert!(!ItemKind::Constant.is_primary());
    assert!(!ItemKind::AssocConst.is_primary());
    assert!(!ItemKind::Static.is_primary());
    assert!(!ItemKind::Macro.is_primary());
    assert!(!ItemKind::ProcMacro.is_primary());
    assert!(!ItemKind::Variant.is_primary());
    assert!(!ItemKind::Field.is_primary());
    assert!(!ItemKind::Primitive.is_primary());
    assert!(!ItemKind::AssocType.is_primary());
    assert!(!ItemKind::ForeignType.is_primary());
}

// ---- KindCategory::header ----

#[test]
fn header_returns_expected_text_for_all_categories() {
    assert_eq!(KindCategory::Modules.header(), "modules:");
    assert_eq!(KindCategory::Structs.header(), "structs:");
    assert_eq!(KindCategory::Enums.header(), "enums:");
    assert_eq!(KindCategory::Unions.header(), "unions:");
    assert_eq!(KindCategory::Traits.header(), "traits:");
    assert_eq!(KindCategory::Functions.header(), "functions:");
    assert_eq!(KindCategory::TypeAliases.header(), "type aliases:");
    assert_eq!(KindCategory::Constants.header(), "constants:");
    assert_eq!(KindCategory::Statics.header(), "statics:");
    assert_eq!(KindCategory::Macros.header(), "macros:");
    assert_eq!(KindCategory::Variants.header(), "variants:");
    assert_eq!(KindCategory::Fields.header(), "fields:");
    assert_eq!(KindCategory::Primitives.header(), "primitives:");
}

// ---- KindCategory ordering ----

#[test]
fn category_ordering_matches_display_order() {
    assert!(KindCategory::Modules < KindCategory::Structs);
    assert!(KindCategory::Structs < KindCategory::Enums);
    assert!(KindCategory::Enums < KindCategory::Unions);
    assert!(KindCategory::Unions < KindCategory::Traits);
    assert!(KindCategory::Traits < KindCategory::Functions);
    assert!(KindCategory::Functions < KindCategory::TypeAliases);
    assert!(KindCategory::TypeAliases < KindCategory::Constants);
    assert!(KindCategory::Constants < KindCategory::Statics);
    assert!(KindCategory::Statics < KindCategory::Macros);
}

// ---- KindCategory::uses_signature_display ----

#[test]
fn uses_signature_display_correct_for_all_categories() {
    assert!(!KindCategory::Modules.uses_signature_display());
    assert!(!KindCategory::Structs.uses_signature_display());
    assert!(!KindCategory::Enums.uses_signature_display());
    assert!(!KindCategory::Unions.uses_signature_display());
    assert!(!KindCategory::Traits.uses_signature_display());
    assert!(KindCategory::Functions.uses_signature_display());
    assert!(KindCategory::TypeAliases.uses_signature_display());
    assert!(KindCategory::Constants.uses_signature_display());
    assert!(KindCategory::Statics.uses_signature_display());
    assert!(!KindCategory::Macros.uses_signature_display());
    assert!(!KindCategory::Variants.uses_signature_display());
    assert!(!KindCategory::Fields.uses_signature_display());
    assert!(!KindCategory::Primitives.uses_signature_display());
}

// ---- GroupedItems ----

#[test]
fn group_items_groups_by_category_and_sorts_alphabetically() {
    let items = [
        make_item("Zebra", "crate::Zebra", ItemKind::Struct),
        make_item("alpha", "crate::alpha", ItemKind::Function),
        make_item("Apple", "crate::Apple", ItemKind::Struct),
        make_item("beta", "crate::beta", ItemKind::Function),
    ];
    let positions: Vec<usize> = (0..items.len()).collect();
    let groups = group_items(&items, &positions);

    assert_eq!(groups.len(), 2);

    let structs = groups.get(KindCategory::Structs).unwrap();
    assert_eq!(structs.len(), 2);
    assert_eq!(items[structs[0]].name, "Apple");
    assert_eq!(items[structs[1]].name, "Zebra");

    let fns = groups.get(KindCategory::Functions).unwrap();
    assert_eq!(fns.len(), 2);
    assert_eq!(items[fns[0]].name, "alpha");
    assert_eq!(items[fns[1]].name, "beta");
}

#[test]
fn group_items_empty_categories_absent() {
    let items = [make_item("Foo", "crate::Foo", ItemKind::Struct)];
    let positions: Vec<usize> = (0..items.len()).collect();
    let groups = group_items(&items, &positions);

    assert_eq!(groups.len(), 1);
    assert!(groups.contains_key(KindCategory::Structs));
    assert!(!groups.contains_key(KindCategory::Functions));
}

// ---- DocIndex::add_item ----

#[test]
fn add_item_populates_all_three_maps() {
    let mut index = DocIndex::new("mycrate".to_string(), "0.1.0".to_string());
    let item = make_item("Mutex", "mycrate::sync::Mutex", ItemKind::Struct);
    index.add_item(item);

    assert_eq!(index.len(), 1);

    // path_map
    assert_eq!(index.path_map.get("mycrate::sync::Mutex"), Some(&vec![0]));

    // name_map (lowercased)
    assert_eq!(index.name_map.get("mutex"), Some(&vec![0]));

    // suffix_map (lowercased suffixes)
    assert_eq!(index.suffix_map.get("mutex"), Some(&vec![0]));
    assert_eq!(index.suffix_map.get("sync::mutex"), Some(&vec![0]));
    assert_eq!(index.suffix_map.get("mycrate::sync::mutex"), Some(&vec![0]));
}

#[test]
fn add_item_multiple_items_same_name() {
    let mut index = DocIndex::new("mycrate".to_string(), "0.1.0".to_string());
    index.add_item(make_item("new", "mycrate::Foo::new", ItemKind::Function));
    index.add_item(make_item("new", "mycrate::Bar::new", ItemKind::Function));

    assert_eq!(index.len(), 2);
    assert_eq!(index.name_map.get("new"), Some(&vec![0, 1]));
}

// ---- DocIndex suffix map ----

#[test]
fn suffix_map_generates_correct_keys_for_deep_path() {
    let mut index = DocIndex::new("tokio".to_string(), "1.0.0".to_string());
    let item = make_item("Mutex", "tokio::sync::Mutex", ItemKind::Struct);
    index.add_item(item);

    // Should have 3 suffix entries
    assert!(index.suffix_map.contains_key("mutex"));
    assert!(index.suffix_map.contains_key("sync::mutex"));
    assert!(index.suffix_map.contains_key("tokio::sync::mutex"));
    // Should NOT have partial segment matches
    assert!(!index.suffix_map.contains_key("::mutex"));
    assert!(!index.suffix_map.contains_key("io::sync::mutex"));
}

#[test]
fn suffix_map_single_segment_path() {
    let mut index = DocIndex::new("mycrate".to_string(), "0.1.0".to_string());
    let item = make_item("mycrate", "mycrate", ItemKind::Module);
    index.add_item(item);

    assert!(index.suffix_map.contains_key("mycrate"));
    assert_eq!(index.suffix_map.len(), 1);
}

#[test]
fn suffix_map_case_insensitive() {
    let mut index = DocIndex::new("mycrate".to_string(), "0.1.0".to_string());
    index.add_item(make_item("MyStruct", "mycrate::MyStruct", ItemKind::Struct));

    assert!(index.suffix_map.contains_key("mystruct"));
    assert!(index.suffix_map.contains_key("mycrate::mystruct"));
    assert!(!index.suffix_map.contains_key("MyStruct"));
}

// ---- DocIndex::get ----

#[test]
fn get_returns_correct_item() {
    let mut index = DocIndex::new("c".to_string(), String::new());
    index.add_item(make_item("A", "c::A", ItemKind::Struct));
    index.add_item(make_item("B", "c::B", ItemKind::Enum));

    assert_eq!(index.get(0).name, "A");
    assert_eq!(index.get(1).name, "B");
}

// ---- DocIndex::item_trait_impls ----

#[test]
fn item_trait_impls_returns_empty_when_none() {
    let index = DocIndex::new("c".to_string(), String::new());
    assert!(index.item_trait_impls(0).is_empty());
}

#[test]
fn item_trait_impls_returns_impls_when_present() {
    let mut index = DocIndex::new("c".to_string(), String::new());
    index.add_item(make_item("Foo", "c::Foo", ItemKind::Struct));
    index.trait_impls.insert(
        0,
        vec![TraitImplInfo {
            trait_path: "Clone".to_string(),
            is_synthetic: false,
        }],
    );

    let impls = index.item_trait_impls(0);
    assert_eq!(impls.len(), 1);
    assert_eq!(impls[0].trait_path, "Clone");
}

// ---- DisplayLimits defaults ----

#[test]
fn display_limits_default_truncates_at_1500() {
    let limits = DisplayLimits::default();
    assert_eq!(limits.max_doc_length, 1500);
    assert!(!limits.expand_all);
}

