use groxide::cli::{CrateSpec, QueryPath};
use groxide::error::GroxError;
use groxide::resolve::{
    auto_fetch_message, crate_names_match, determine_current_package, normalize_crate_name,
    path_distance, resolve_crate_source, resolve_crate_without_context, CrateSource, PackageInfo,
    ProjectContext,
};

// ---- crate_names_match ----

#[test]
fn crate_names_match_returns_true_for_exact() {
    assert!(crate_names_match("serde", "serde"));
}

#[test]
fn crate_names_match_returns_true_for_hyphen_to_underscore() {
    assert!(crate_names_match("serde-json", "serde_json"));
}

#[test]
fn crate_names_match_returns_true_for_underscore_to_hyphen() {
    assert!(crate_names_match("serde_json", "serde-json"));
}

#[test]
fn crate_names_match_returns_false_for_different() {
    assert!(!crate_names_match("serde", "tokio"));
}

#[test]
fn crate_names_match_mixed_separators() {
    assert!(crate_names_match("a-b_c", "a_b-c"));
    assert!(!crate_names_match("ab", "a_b"));
}

// ---- normalize_crate_name ----

#[test]
fn normalize_replaces_hyphens_with_underscores() {
    assert_eq!(normalize_crate_name("serde-json"), "serde_json");
}

#[test]
fn normalize_leaves_underscores_unchanged() {
    assert_eq!(normalize_crate_name("serde_json"), "serde_json");
}

#[test]
fn normalize_no_change_for_simple_name() {
    assert_eq!(normalize_crate_name("serde"), "serde");
}

// ---- path_distance ----

#[test]
fn path_distance_returns_zero_for_same_path() {
    let p = "/a/b/c";
    assert_eq!(path_distance(p, p), 0);
}

#[test]
fn path_distance_returns_correct_for_parent_child() {
    let parent = "/a/b";
    let child = "/a/b/c";
    assert_eq!(path_distance(parent, child), 1);
    assert_eq!(path_distance(child, parent), 1);
}

#[test]
fn path_distance_returns_correct_for_siblings() {
    let a = "/a/b/c";
    let b = "/a/b/d";
    assert_eq!(path_distance(a, b), 2);
}

#[test]
fn path_distance_ignores_repeated_and_trailing_separators() {
    assert_eq!(path_distance("/a//b/", "/a/b"), 0);
    assert_eq!(path_distance("/a/./b", "/a/b"), 0);
}

#[test]
fn path_distance_absolute_against_relative() {
    // The root component differs, so everything differs.
    assert_eq!(path_distance("/a", "a"), 3);
    assert_eq!(path_distance("./a", "a"), 3);
}

// ---- resolve_crate_without_context ----

#[test]
fn without_context_returns_error_for_current_crate() {
    let result = resolve_crate_without_context(&CrateSpec::CurrentCrate);
    assert!(result.is_err());
}

#[test]
fn without_context_returns_stdlib_for_std() {
    let source = resolve_crate_without_context(&CrateSpec::Named("std".to_string()))
        .expect("should resolve std");
    assert!(matches!(source, CrateSource::Stdlib { .. }));
}

#[test]
fn without_context_returns_external_for_unknown() {
    let source = resolve_crate_without_context(&CrateSpec::Named("tokio".to_string()))
        .expect("should return External");
    assert!(matches!(source, CrateSource::External { .. }));
}

#[test]
fn without_context_returns_external_for_versioned() {
    let source = resolve_crate_without_context(&CrateSpec::Versioned {
        name: "serde".to_string(),
        version: "1.0.210".to_string(),
    })
    .expect("should resolve versioned");
    assert!(matches!(source, CrateSource::External { .. }));
    assert_eq!(source.version(), Some("1.0.210"));
}

// ---- CrateSource accessors ----

#[test]
fn crate_source_name_returns_name_for_all_variants() {
    let current = CrateSource::CurrentCrate {
        manifest_path: String::new(),
        name: "foo".to_string(),
        version: "1.0.0".to_string(),
    };
    assert_eq!(current.name(), "foo");

    let dep = CrateSource::Dependency {
        manifest_path: String::new(),
        name: "bar".to_string(),
        version: "2.0.0".to_string(),
    };
    assert_eq!(dep.name(), "bar");

    let stdlib = CrateSource::Stdlib {
        name: "std".to_string(),
    };
    assert_eq!(stdlib.name(), "std");

    let ext = CrateSource::External {
        name: "baz".to_string(),
        version: None,
    };
    assert_eq!(ext.name(), "baz");
}

#[test]
fn crate_source_version_returns_correctly() {
    let current = CrateSource::CurrentCrate {
        manifest_path: String::new(),
        name: "foo".to_string(),
        version: "1.0.0".to_string(),
    };
    assert_eq!(current.version(), Some("1.0.0"));

    let stdlib = CrateSource::Stdlib {
        name: "std".to_string(),
    };
    assert_eq!(stdlib.version(), None);

    let ext = CrateSource::External {
        name: "baz".to_string(),
        version: Some("3.0.0".to_string()),
    };
    assert_eq!(ext.version(), Some("3.0.0"));

    let ext_none = CrateSource::External {
        name: "baz".to_string(),
        version: None,
    };
    assert_eq!(ext_none.version(), None);
}

// ---- ProjectContext built from plain values ----

fn pkg(name: &str, version: &str, manifest: &str) -> PackageInfo {
    PackageInfo {
        name: name.to_string(),
        version: version.to_string(),
        manifest_path: manifest.to_string(),
        has_lib: true,
    }
}

/// groxide (current) depends on clap and rmp-serde (renamed `rmps`),
/// `unicode-ident` is transitive, `helper` is another workspace member.
fn sample_context() -> ProjectContext {
    ProjectContext {
        packages: vec![
            pkg("groxide", "0.1.0", "/w/groxide/Cargo.toml"),
            pkg("clap", "4.5.0", "/reg/clap/Cargo.toml"),
            pkg("rmp-serde", "1.3.0", "/reg/rmp-serde/Cargo.toml"),
            pkg("unicode-ident", "1.0.12", "/reg/unicode-ident/Cargo.toml"),
            pkg("helper", "0.2.0", "/w/helper/Cargo.toml"),
            pkg("cargo_metadata", "0.18.1", "/reg/cargo_metadata/Cargo.toml"),
        ],
        workspace_members: vec![4, 0],
        current: 0,
        direct_deps: Some(vec![
            ("clap".to_string(), 1),
            ("rmps".to_string(), 2),
            ("cargo_metadata".to_string(), 5),
        ]),
        virtual_workspace: false,
    }
}

#[test]
fn context_resolves_current_crate_spec() {
    let ctx = sample_context();
    let source = ctx.resolve_crate(&CrateSpec::CurrentCrate);
    assert_eq!(source.name(), "groxide");
    assert!(matches!(source, CrateSource::CurrentCrate { .. }));
}

#[test]
fn context_resolves_current_when_name_matches() {
    let ctx = sample_context();
    let source = ctx.resolve_crate(&CrateSpec::Named("groxide".to_string()));
    assert!(matches!(source, CrateSource::CurrentCrate { .. }));
}

#[test]
fn context_finds_direct_dependency() {
    let ctx = sample_context();
    let source = ctx.resolve_crate(&CrateSpec::Named("clap".to_string()));
    assert_eq!(source.name(), "clap");
    assert!(matches!(source, CrateSource::Dependency { .. }));
    assert_eq!(source.version(), Some("4.5.0"));
}

#[test]
fn context_finds_dependency_with_underscore() {
    let ctx = sample_context();
    let source = ctx.resolve_crate(&CrateSpec::Named("cargo-metadata".to_string()));
    assert_eq!(source.name(), "cargo_metadata");
}

#[test]
fn context_finds_renamed_dependency_by_rename() {
    let ctx = sample_context();
    let source = ctx.resolve_crate(&CrateSpec::Named("rmps".to_string()));
    assert_eq!(source.name(), "rmp-serde");
}

#[test]
fn context_preserves_hyphens_in_package_name() {
    let ctx = sample_context();
    let source = ctx.resolve_crate(&CrateSpec::Named("rmp_serde".to_string()));
    assert_eq!(source.name(), "rmp-serde");
    assert!(matches!(source, CrateSource::Dependency { .. }));
}

#[test]
fn context_finds_workspace_member() {
    let ctx = sample_context();
    let source = ctx.resolve_crate(&CrateSpec::Named("helper".to_string()));
    assert!(matches!(source, CrateSource::Dependency { .. }));
    assert_eq!(source.version(), Some("0.2.0"));
}

#[test]
fn context_finds_transitive_dependency() {
    let ctx = sample_context();
    let source = ctx.resolve_crate(&CrateSpec::Named("unicode_ident".to_string()));
    assert!(matches!(source, CrateSource::Dependency { .. }));
    assert_eq!(source.name(), "unicode-ident");
}

#[test]
fn context_returns_stdlib_and_external() {
    let ctx = sample_context();
    for name in ["std", "core", "alloc"] {
        let source = ctx.resolve_crate(&CrateSpec::Named(name.to_string()));
        assert!(matches!(source, CrateSource::Stdlib { .. }));
        assert_eq!(source.name(), name);
    }
    let source = ctx.resolve_crate(&CrateSpec::Named("nonexistent_crate_xyz".to_string()));
    assert!(matches!(source, CrateSource::External { version: None, .. }));
    let source = ctx.resolve_crate(&CrateSpec::Versioned {
        name: "serde".to_string(),
        version: "1.0.210".to_string(),
    });
    assert!(matches!(source, CrateSource::External { .. }));
    assert_eq!(source.version(), Some("1.0.210"));
}

#[test]
fn context_reports_manifest_and_workspace_kind() {
    let ctx = sample_context();
    assert_eq!(ctx.current_manifest_path(), "/w/groxide/Cargo.toml");
    assert!(!ctx.is_virtual_workspace());
}

#[test]
fn workspace_members_sorted_by_name() {
    let ctx = sample_context();
    assert_eq!(ctx.workspace_member_packages(), vec![0, 4]);
}

// ---- determine_current_package ----

#[test]
fn determine_prefers_root_package() {
    let members = vec![(1usize, "/w/a/Cargo.toml".to_string())];
    assert_eq!(determine_current_package(Some(7), Some("/w/a"), &members).unwrap(), 7);
}

#[test]
fn determine_picks_closest_member_to_cwd() {
    let members = vec![
        (1usize, "/w/a/Cargo.toml".to_string()),
        (2usize, "/w/b/Cargo.toml".to_string()),
        (3usize, "/w/b/c/Cargo.toml".to_string()),
    ];
    assert_eq!(determine_current_package(None, Some("/w/b/c/src"), &members).unwrap(), 3);
    assert_eq!(determine_current_package(None, Some("/w/b"), &members).unwrap(), 2);
    // Equally close members: the first one wins.
    assert_eq!(determine_current_package(None, Some("/w"), &members).unwrap(), 1);
}

#[test]
fn determine_falls_back_to_first_member_or_error() {
    let members = vec![(5usize, "/".to_string()), (6usize, "/".to_string())];
    assert_eq!(determine_current_package(None, Some("/w"), &members).unwrap(), 5);
    assert_eq!(determine_current_package(None, None, &members).unwrap(), 5);
    let none: Vec<(usize, String)> = Vec::new();
    assert!(matches!(
        determine_current_package(None, Some("/w"), &none),
        Err(GroxError::ManifestNotFound)
    ));
}

// ---- resolve_crate_source ----

#[test]
fn crate_source_reinterprets_item_like_name() {
    let ctx = sample_context();
    let query = QueryPath::parse("HashMap").unwrap();
    let (source, q, fetch) = resolve_crate_source(Some(&ctx), query).unwrap();
    assert!(matches!(source, CrateSource::CurrentCrate { .. }));
    assert_eq!(q.crate_spec, CrateSpec::CurrentCrate);
    assert_eq!(q.item_segments, vec!["HashMap".to_string()]);
    assert!(!fetch);
}

#[test]
fn crate_source_announces_auto_fetch() {
    let ctx = sample_context();
    let query = QueryPath::parse("tokio").unwrap();
    let (source, q, fetch) = resolve_crate_source(Some(&ctx), query).unwrap();
    assert!(matches!(source, CrateSource::External { .. }));
    assert_eq!(q.crate_spec, CrateSpec::Named("tokio".to_string()));
    assert!(fetch);
    let (_, _, fetch) = resolve_crate_source(None, QueryPath::parse("std").unwrap()).unwrap();
    assert!(!fetch);
    assert!(matches!(
        resolve_crate_source(None, QueryPath::parse("").unwrap()),
        Err(GroxError::ManifestNotFound)
    ));
}

#[test]
fn auto_fetch_message_text() {
    assert_eq!(
        auto_fetch_message("tokio", None),
        "[grox] tokio not in project deps, fetching latest from crates.io..."
    );
    assert_eq!(
        auto_fetch_message("serde", Some("1.0")),
        "[grox] serde not in project deps, fetching 1.0 from crates.io..."
    );
}

#[test]
fn workspace_member_needs_its_full_name() {
    // Only `candle-pitch` and `candle-crepe` are members: `candle` falls
    // through to crates.io.
    let ctx = ProjectContext {
        packages: vec![
            pkg("candle-pitch", "0.1.0", "/w/candle-pitch/Cargo.toml"),
            pkg("candle-crepe", "0.1.0", "/w/candle-crepe/Cargo.toml"),
        ],
        workspace_members: vec![0, 1],
        current: 0,
        direct_deps: Some(Vec::new()),
        virtual_workspace: true,
    };
    let source = ctx.resolve_crate(&CrateSpec::Named("candle".to_string()));
    assert!(matches!(source, CrateSource::External { version: None, .. }));
    let source = ctx.resolve_crate(&CrateSpec::Named("candle_crepe".to_string()));
    assert!(matches!(source, CrateSource::Dependency { .. }));
}
