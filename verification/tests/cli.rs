use groxide::cli::{CrateSpec, FeatureFlags, KindFilter, QueryPath};
use groxide::types::ItemKind;

// ---- QueryPath::parse ----

#[test]
fn parse_returns_current_crate_when_empty() {
    let qp = QueryPath::parse("").unwrap();
    assert_eq!(qp.crate_spec, CrateSpec::CurrentCrate);
    assert!(qp.item_segments.is_empty());
}

#[test]
fn parse_returns_current_crate_when_whitespace() {
    let qp = QueryPath::parse("  ").unwrap();
    assert_eq!(qp.crate_spec, CrateSpec::CurrentCrate);
    assert!(qp.item_segments.is_empty());
}

#[test]
fn parse_returns_named_with_items_for_path() {
    let qp = QueryPath::parse("tokio::sync::Mutex").unwrap();
    assert_eq!(qp.crate_spec, CrateSpec::Named("tokio".to_string()));
    assert_eq!(qp.item_segments, vec!["sync", "Mutex"]);
}

#[test]
fn parse_returns_named_no_items_for_single_segment() {
    let qp = QueryPath::parse("serde").unwrap();
    assert_eq!(qp.crate_spec, CrateSpec::Named("serde".to_string()));
    assert!(qp.item_segments.is_empty());
}

#[test]
fn parse_returns_versioned_with_items() {
    let qp = QueryPath::parse("tokio@1.40.0::sync").unwrap();
    assert_eq!(
        qp.crate_spec,
        CrateSpec::Versioned {
            name: "tokio".to_string(),
            version: "1.40.0".to_string()
        }
    );
    assert_eq!(qp.item_segments, vec!["sync"]);
}

#[test]
fn parse_returns_versioned_no_items() {
    let qp = QueryPath::parse("serde@1.0.210").unwrap();
    assert_eq!(
        qp.crate_spec,
        CrateSpec::Versioned {
            name: "serde".to_string(),
            version: "1.0.210".to_string()
        }
    );
    assert!(qp.item_segments.is_empty());
}

#[test]
fn parse_returns_error_for_at_prefix() {
    let err = QueryPath::parse("@serde").unwrap_err();
    let msg = err.message();
    assert!(
        msg.contains("the @ prefix is no longer supported"),
        "unexpected error message: {msg}"
    );
    assert!(msg.contains("grox serde"), "should suggest: grox serde");
}

#[test]
fn parse_returns_error_for_missing_version() {
    let err = QueryPath::parse("crate@").unwrap_err();
    let msg = err.message();
    assert!(
        msg.contains("missing version after @"),
        "unexpected error message: {msg}"
    );
}

#[test]
fn parse_handles_versioned_with_multiple_items() {
    let qp = QueryPath::parse("tokio@1.40.0::sync::Mutex").unwrap();
    assert_eq!(
        qp.crate_spec,
        CrateSpec::Versioned {
            name: "tokio".to_string(),
            version: "1.40.0".to_string()
        }
    );
    assert_eq!(qp.item_segments, vec!["sync", "Mutex"]);
}

#[test]
fn parse_handles_prerelease_version() {
    let qp = QueryPath::parse("foo@1.0.0-alpha.1::Bar").unwrap();
    assert_eq!(
        qp.crate_spec,
        CrateSpec::Versioned {
            name: "foo".to_string(),
            version: "1.0.0-alpha.1".to_string()
        }
    );
    assert_eq!(qp.item_segments, vec!["Bar"]);
}

// ---- KindFilter → ItemKind conversion ----

#[test]
fn kind_filter_converts_fn_to_function() {
    assert_eq!(ItemKind::from(KindFilter::Fn), ItemKind::Function);
}

#[test]
fn kind_filter_converts_struct_to_struct() {
    assert_eq!(ItemKind::from(KindFilter::Struct), ItemKind::Struct);
}

#[test]
fn kind_filter_converts_enum_to_enum() {
    assert_eq!(ItemKind::from(KindFilter::Enum), ItemKind::Enum);
}

#[test]
fn kind_filter_converts_trait_to_trait() {
    assert_eq!(ItemKind::from(KindFilter::Trait), ItemKind::Trait);
}

#[test]
fn kind_filter_converts_type_to_type_alias() {
    assert_eq!(ItemKind::from(KindFilter::Type), ItemKind::TypeAlias);
}

#[test]
fn kind_filter_converts_const_to_constant() {
    assert_eq!(ItemKind::from(KindFilter::Const), ItemKind::Constant);
}

#[test]
fn kind_filter_converts_mod_to_module() {
    assert_eq!(ItemKind::from(KindFilter::Mod), ItemKind::Module);
}

#[test]
fn kind_filter_converts_macro_to_macro() {
    assert_eq!(ItemKind::from(KindFilter::Macro), ItemKind::Macro);
}

// ---- FeatureFlags::cache_suffix ----

#[test]
fn cache_suffix_returns_empty_for_defaults() {
    let flags = FeatureFlags {
        all_features: false,
        no_default_features: false,
        features: Vec::new(),
    };
    assert_eq!(flags.cache_suffix(), "");
}

#[test]
fn cache_suffix_returns_hash_for_all_features() {
    let flags = FeatureFlags {
        all_features: true,
        no_default_features: false,
        features: Vec::new(),
    };
    let suffix = flags.cache_suffix();
    assert!(suffix.starts_with("-feat_"), "suffix: {suffix}");
    assert_eq!(suffix.len(), 22); // "-feat_" (6) + 16 hex chars
}

#[test]
fn cache_suffix_deterministic() {
    let flags1 = FeatureFlags {
        all_features: false,
        no_default_features: false,
        features: vec!["fs".to_string(), "net".to_string()],
    };
    let flags2 = FeatureFlags {
        all_features: false,
        no_default_features: false,
        features: vec!["fs".to_string(), "net".to_string()],
    };
    assert_eq!(flags1.cache_suffix(), flags2.cache_suffix());
}

#[test]
fn cache_suffix_order_independent() {
    let flags1 = FeatureFlags {
        all_features: false,
        no_default_features: false,
        features: vec!["net".to_string(), "fs".to_string()],
    };
    let flags2 = FeatureFlags {
        all_features: false,
        no_default_features: false,
        features: vec!["fs".to_string(), "net".to_string()],
    };
    assert_eq!(
        flags1.cache_suffix(),
        flags2.cache_suffix(),
        "feature order should not affect suffix"
    );
}

#[test]
fn cache_suffix_different_flags_produce_different_hashes() {
    let flags1 = FeatureFlags {
        all_features: true,
        no_default_features: false,
        features: Vec::new(),
    };
    let flags2 = FeatureFlags {
        all_features: false,
        no_default_features: true,
        features: Vec::new(),
    };
    assert_ne!(flags1.cache_suffix(), flags2.cache_suffix());
}

// ---- FeatureFlags::is_default ----

#[test]
fn is_default_returns_true_for_no_flags() {
    let flags = FeatureFlags {
        all_features: false,
        no_default_features: false,
        features: Vec::new(),
    };
    assert!(flags.is_default());
}

#[test]
fn is_default_returns_false_for_all_features() {
    let flags = FeatureFlags {
        all_features: true,
        no_default_features: false,
        features: Vec::new(),
    };
    assert!(!flags.is_default());
}

#[test]
fn is_default_returns_false_for_features() {
    let flags = FeatureFlags {
        all_features: false,
        no_default_features: false,
        features: vec!["fs".to_string()],
    };
    assert!(!flags.is_default());
}



#[test]
fn parse_joined_path_gives_back_parts() {
    let q = QueryPath::parse("serde::de::Deserialize").expect("parses");
    assert_eq!(q.crate_spec, CrateSpec::Named("serde".to_string()));
    assert_eq!(q.item_segments, vec!["de".to_string(), "Deserialize".to_string()]);
    let w = QueryPath::parse(" \t ").expect("parses");
    assert_eq!(w.crate_spec, CrateSpec::CurrentCrate);
    assert!(w.item_segments.is_empty());
}

#[test]
fn cache_suffix_shape() {
    let flags = FeatureFlags { all_features: false, no_default_features: true, features: vec![] };
    let s = flags.cache_suffix();
    assert_eq!(s.len(), 22);
    assert!(s.starts_with("-feat_"));
    assert!(s[6..].chars().all(|c| c.is_ascii_digit() || ('a'..='f').contains(&c)));
}
