use groxide::cache::{
    cache_path, cache_suffix, create_header, grox_version_str, is_cache_valid, CacheHeader,
    CacheMetadata, FORMAT_VERSION,
};
use groxide::cli::FeatureFlags;
use groxide::resolve::CrateSource;

const CACHE: &str = "/home/u/.cache";

fn dep(name: &str, version: &str) -> CrateSource {
    CrateSource::Dependency {
        manifest_path: "/tmp/x/Cargo.toml".to_string(),
        name: name.to_string(),
        version: version.to_string(),
    }
}

#[test]
fn cache_path_for_current_crate_requires_project_context() {
    let source = CrateSource::CurrentCrate {
        manifest_path: "/tmp/x/Cargo.toml".to_string(),
        name: "mycrate".to_string(),
        version: "2.3.4".to_string(),
    };
    assert!(cache_path(&source, "", None, Some(CACHE), None).is_none());
}

#[test]
fn cache_path_for_current_crate_with_ctx_lives_in_workspace_target() {
    let source = CrateSource::CurrentCrate {
        manifest_path: "/w/groxide/Cargo.toml".to_string(),
        name: "groxide".to_string(),
        version: "0.1.0".to_string(),
    };
    let path = cache_path(&source, "", Some("/w/target"), None, None).unwrap();
    assert_eq!(path, "/w/target/groxide/groxide.groxide");
}

#[test]
fn cache_path_includes_version_for_dependency() {
    let path = cache_path(&dep("serde", "1.0.210"), "", None, Some(CACHE), None).unwrap();
    assert!(path.contains("serde-1.0.210.groxide"), "path should include version: {path:?}");
}

#[test]
fn cache_path_includes_version_for_external() {
    let source = CrateSource::External {
        name: "tokio".to_string(),
        version: Some("1.40.0".to_string()),
    };
    let path = cache_path(&source, "", None, Some(CACHE), None).unwrap();
    assert!(path.contains("tokio-1.40.0.groxide"), "path should include version: {path:?}");
}

#[test]
fn cache_path_changes_with_feature_suffix() {
    let source = dep("mycrate", "1.0.0");
    let path_default = cache_path(&source, "", None, Some(CACHE), None).unwrap();
    let path_feat = cache_path(&source, "-feat_0a1b2c3d4e5f6a7b", None, Some(CACHE), None).unwrap();
    assert_ne!(path_default, path_feat);
    assert!(path_feat.contains("-feat_0a1b2c3d4e5f6a7b"));
}

#[test]
fn cache_path_no_suffix_for_default_features() {
    let path = cache_path(&dep("mycrate", "1.0.0"), "", None, Some(CACHE), None).unwrap();
    let filename = path.rsplit('/').next().unwrap();
    assert_eq!(filename, "mycrate-1.0.0.groxide");
}

#[test]
fn cache_path_stdlib_uses_global_cache() {
    let source = CrateSource::Stdlib { name: "std".to_string() };
    assert!(cache_path(&source, "", None, Some(CACHE), None).is_none());
    let path = cache_path(&source, "", None, Some(CACHE), Some("abc123")).unwrap();
    assert_eq!(path, "/home/u/.cache/groxide/stdlib/std-abc123.groxide");
}

#[test]
fn cache_path_external_uses_global_cache() {
    let source = CrateSource::External { name: "tokio".to_string(), version: None };
    let path = cache_path(&source, "", None, Some(CACHE), None).unwrap();
    assert_eq!(path, "/home/u/.cache/groxide/external/tokio-latest.groxide");
}

#[test]
fn cache_path_dependency_uses_global_cache() {
    let path = cache_path(&dep("serde", "1.0.0"), "", None, Some(CACHE), None).unwrap();
    assert!(path.contains("groxide/deps/"), "dependency should use global cache: {path}");
    assert!(cache_path(&dep("serde", "1.0.0"), "", None, None, None).is_none());
}

#[test]
fn cache_suffix_adds_private_marker() {
    let defaults = FeatureFlags { all_features: false, no_default_features: false, features: Vec::new() };
    assert_eq!(cache_suffix(&defaults, false), "");
    assert_eq!(cache_suffix(&defaults, true), "-priv");
    let all = FeatureFlags { all_features: true, no_default_features: false, features: Vec::new() };
    assert_eq!(cache_suffix(&all, true), format!("{}-priv", all.cache_suffix()));
}

#[test]
fn stale_cache_detected_when_dep_version_changes() {
    let v1 = dep("serde", "1.0.0");
    let v2 = dep("serde", "1.0.1");
    let header = create_header(&v1, None, None, 1_700_000_000);
    assert!(is_cache_valid(&header, &v1, None, None), "cache should be valid for v1");
    assert!(!is_cache_valid(&header, &v2, None, None), "cache should be invalid for v2");
}

#[test]
fn header_records_version_and_metadata() {
    let header = create_header(&dep("serde", "1.0.0"), None, None, 42);
    assert_eq!(header.grox_version, grox_version_str());
    assert_eq!(header.format_version, FORMAT_VERSION);
    assert_eq!(header.created_at, 42);
    assert_eq!(header.metadata, CacheMetadata::Dependency { version: "1.0.0".to_string() });
    let ext = CrateSource::External { name: "t".to_string(), version: None };
    assert_eq!(
        create_header(&ext, None, None, 0).metadata,
        CacheMetadata::External { version: "unknown".to_string() }
    );
}

#[test]
fn current_crate_cache_follows_source_mtime() {
    let source = CrateSource::CurrentCrate {
        manifest_path: "/w/Cargo.toml".to_string(),
        name: "w".to_string(),
        version: "0.1.0".to_string(),
    };
    let header = create_header(&source, Some(100), None, 0);
    assert!(is_cache_valid(&header, &source, Some(100), None));
    assert!(!is_cache_valid(&header, &source, Some(101), None));
    assert!(!is_cache_valid(&header, &source, None, None));
}

#[test]
fn stdlib_cache_follows_toolchain() {
    let source = CrateSource::Stdlib { name: "std".to_string() };
    let header = create_header(&source, None, Some("abc"), 0);
    assert!(is_cache_valid(&header, &source, None, Some("abc")));
    assert!(!is_cache_valid(&header, &source, None, Some("def")));
    let unknown = create_header(&source, None, None, 0);
    assert!(is_cache_valid(&unknown, &source, None, None));
}

#[test]
fn cache_of_other_version_or_kind_is_invalid() {
    let source = dep("serde", "1.0.0");
    let mut header = create_header(&source, None, None, 0);
    header.format_version = FORMAT_VERSION + 1;
    assert!(!is_cache_valid(&header, &source, None, None));
    let mut header = create_header(&source, None, None, 0);
    header.grox_version = "0.0.1".to_string();
    assert!(!is_cache_valid(&header, &source, None, None));
    let ext = CrateSource::External { name: "serde".to_string(), version: Some("1.0.0".to_string()) };
    let header = create_header(&source, None, None, 0);
    assert!(!is_cache_valid(&header, &ext, None, None));
    let _ = CacheHeader { ..header };
}
