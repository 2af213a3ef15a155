use groxide::cli::FeatureFlags;
use groxide::error::GroxError;
use groxide::external::{
    compute_json_path, is_partial_version, resolve_version, strip_tar_prefix, version_matches_partial,
};

#[test]
fn is_partial_version_returns_true_for_single_digit() {
    assert!(is_partial_version("1"));
}

#[test]
fn is_partial_version_returns_true_for_major_minor() {
    assert!(is_partial_version("1.40"));
}

#[test]
fn is_partial_version_returns_false_for_full_semver() {
    assert!(!is_partial_version("1.40.0"));
}

#[test]
fn is_partial_version_returns_false_for_non_numeric() {
    assert!(!is_partial_version("abc"));
}

#[test]
fn is_partial_version_returns_false_for_prerelease() {
    assert!(!is_partial_version("1.0.0-alpha"));
}

#[test]
fn compute_json_path_uses_target_doc() {
    let features = FeatureFlags {
        all_features: false,
        no_default_features: false,
        features: Vec::new(),
    };
    let path = compute_json_path("/cache/serde-1.0.210", "serde", &features);
    assert_eq!(path, "/cache/serde-1.0.210/target/doc/serde.json");
}

#[test]
fn compute_json_path_normalizes_hyphens() {
    let features = FeatureFlags {
        all_features: false,
        no_default_features: false,
        features: Vec::new(),
    };
    let path = compute_json_path("/cache/rmp-serde-1.3.0", "rmp-serde", &features);
    assert_eq!(path, "/cache/rmp-serde-1.3.0/target/doc/rmp_serde.json");
}

#[test]
fn compute_json_path_includes_feature_suffix() {
    let features = FeatureFlags {
        all_features: true,
        no_default_features: false,
        features: Vec::new(),
    };
    let path = compute_json_path("/cache/tokio-1.40.0", "tokio", &features);
    let filename = path.rsplit('/').next().expect("has filename");
    assert!(
        filename.starts_with("tokio-feat_"),
        "filename should include feature suffix: {filename}"
    );
    assert!(filename.ends_with(".json"));
    assert_eq!(filename, format!("tokio{}.json", features.cache_suffix()));
}

fn parts(p: &[&str]) -> Vec<Vec<char>> {
    p.iter().map(|s| s.chars().collect()).collect()
}

#[test]
fn version_matches_partial_matches_major_only() {
    assert!(version_matches_partial(1, 40, &parts(&["1"])));
    assert!(!version_matches_partial(1, 40, &parts(&["2"])));
}

#[test]
fn version_matches_partial_matches_major_minor() {
    assert!(version_matches_partial(1, 40, &parts(&["1", "40"])));
    assert!(!version_matches_partial(1, 40, &parts(&["1", "39"])));
}

#[test]
fn version_matches_partial_returns_false_for_empty() {
    assert!(!version_matches_partial(1, 40, &parts(&[])));
}

#[test]
fn version_matches_partial_returns_false_for_three_parts() {
    assert!(!version_matches_partial(1, 40, &parts(&["1", "40", "0"])));
}

fn published(v: &[(&str, bool)]) -> Vec<(String, bool)> {
    v.iter().map(|(n, y)| (n.to_string(), *y)).collect()
}

#[test]
fn resolve_version_keeps_full_and_prerelease_versions() {
    let vs = published(&[("1.0.0", false)]);
    assert_eq!(resolve_version(&vs, "serde", "1.0.210").unwrap(), "1.0.210");
    assert_eq!(resolve_version(&vs, "serde", "1.0.0-alpha").unwrap(), "1.0.0-alpha");
    assert_eq!(resolve_version(&vs, "serde", "latest-ish").unwrap(), "latest-ish");
}

#[test]
fn resolve_version_picks_greatest_published_match() {
    let vs = published(&[
        ("1.38.0", false),
        ("1.40.2", true),
        ("1.40.1", false),
        ("1.39.9", false),
        ("2.0.0", false),
        ("1.40.0", false),
    ]);
    assert_eq!(resolve_version(&vs, "tokio", "1").unwrap(), "1.40.1");
    assert_eq!(resolve_version(&vs, "tokio", "1.39").unwrap(), "1.39.9");
    assert_eq!(resolve_version(&vs, "tokio", "2").unwrap(), "2.0.0");
}

#[test]
fn resolve_version_reports_missing_match() {
    let vs = published(&[("1.0.0", false)]);
    match resolve_version(&vs, "tokio", "3") {
        Err(GroxError::ExternalFetchFailed { name, details }) => {
            assert_eq!(name, "tokio");
            assert_eq!(details, "no version matching '3' found");
        }
        other => panic!("expected ExternalFetchFailed, got {other:?}"),
    }
}

#[test]
fn strip_tar_prefix_keeps_entries_under_the_crate_directory() {
    assert_eq!(strip_tar_prefix("serde-1.0.0/src/lib.rs", "serde-1.0.0").as_deref(), Some("src/lib.rs"));
    assert_eq!(strip_tar_prefix("serde-1.0.0/Cargo.toml", "serde-1.0.0").as_deref(), Some("Cargo.toml"));
    assert_eq!(strip_tar_prefix("serde-1.0.0", "serde-1.0.0").as_deref(), Some(""));
    assert_eq!(strip_tar_prefix("other-1.0.0/src/lib.rs", "serde-1.0.0"), None);
    assert_eq!(strip_tar_prefix("serde-1.0.0x/lib.rs", "serde-1.0.0"), None);
    assert_eq!(
        strip_tar_prefix("crate-1.0.0/../../../tmp/evil", "crate-1.0.0").as_deref(),
        Some("../../../tmp/evil")
    );
}
