use groxide::cli::FeatureFlags;
use groxide::docgen::{
    cascade_after_failure, cascade_start, is_docsrs_known_failure, is_platform_failure,
    json_output_path, parse_no_library_target, rustdoc_args, rustdoc_failure, rustflags_value,
    BuildOutcome, BuildStage, DocsRsMetadata,
};
use groxide::error::GroxError;

fn no_features() -> FeatureFlags {
    FeatureFlags {
        all_features: false,
        no_default_features: false,
        features: Vec::new(),
    }
}

fn has_arg(args: &[String], expected: &str) -> bool {
    args.iter().any(|a| a == expected)
}

fn args_for(
    package: Option<&str>,
    manifest: Option<&str>,
    target: Option<&str>,
    features: &FeatureFlags,
    private: bool,
    lib: bool,
    extra: &[&str],
) -> Vec<String> {
    let extra: Vec<String> = extra.iter().map(|s| s.to_string()).collect();
    rustdoc_args(package, manifest, target, features, private, lib, &extra)
}

// ---- JSON path construction ----

#[test]
fn json_output_path_converts_hyphens_to_underscores() {
    let path = json_output_path("/project/target", "rmp-serde");
    assert_eq!(path, "/project/target/doc/rmp_serde.json");
}

#[test]
fn json_output_path_preserves_underscores() {
    let path = json_output_path("/project/target", "serde_json");
    assert_eq!(path, "/project/target/doc/serde_json.json");
}

#[test]
fn json_output_path_simple_name() {
    let path = json_output_path("/project/target", "serde");
    assert_eq!(path, "/project/target/doc/serde.json");
}

// ---- command arguments ----

#[test]
fn build_command_includes_nightly_and_json_format() {
    let args = args_for(None, None, None, &no_features(), false, false, &[]);
    assert!(has_arg(&args, "+nightly"));
    assert!(has_arg(&args, "rustdoc"));
    assert!(has_arg(&args, "--output-format"));
    assert!(has_arg(&args, "json"));
    assert!(has_arg(&args, "-Z"));
    assert!(has_arg(&args, "unstable-options"));
}

#[test]
fn build_command_includes_lib_flag_when_requested() {
    let args = args_for(None, None, None, &no_features(), false, true, &[]);
    assert!(has_arg(&args, "--lib"));
}

#[test]
fn build_command_omits_lib_flag_when_not_requested() {
    let args = args_for(None, None, None, &no_features(), false, false, &[]);
    assert!(!has_arg(&args, "--lib"));
}

#[test]
fn build_command_includes_package_when_provided() {
    let args = args_for(Some("serde"), None, None, &no_features(), false, false, &[]);
    assert!(has_arg(&args, "-p"));
    assert!(has_arg(&args, "serde"));
}

#[test]
fn build_command_includes_manifest_path_when_provided() {
    let args = args_for(None, Some("/tmp/Cargo.toml"), None, &no_features(), false, true, &[]);
    assert!(has_arg(&args, "--manifest-path"));
    assert!(has_arg(&args, "/tmp/Cargo.toml"));
}

#[test]
fn build_command_includes_target_dir_when_provided() {
    let args = args_for(None, None, Some("/tmp/target"), &no_features(), false, false, &[]);
    assert!(has_arg(&args, "--target-dir"));
    assert!(has_arg(&args, "/tmp/target"));
}

#[test]
fn build_command_includes_all_features_flag() {
    let features = FeatureFlags {
        all_features: true,
        no_default_features: false,
        features: Vec::new(),
    };
    let args = args_for(None, None, None, &features, false, false, &[]);
    assert!(has_arg(&args, "--all-features"));
}

#[test]
fn build_command_includes_no_default_features_flag() {
    let features = FeatureFlags {
        all_features: false,
        no_default_features: true,
        features: Vec::new(),
    };
    let args = args_for(None, None, None, &features, false, false, &[]);
    assert!(has_arg(&args, "--no-default-features"));
}

#[test]
fn build_command_includes_specific_features() {
    let features = FeatureFlags {
        all_features: false,
        no_default_features: false,
        features: vec!["fs".to_string(), "net".to_string()],
    };
    let args = args_for(None, None, None, &features, false, false, &[]);
    assert!(has_arg(&args, "--features"));
    assert!(has_arg(&args, "fs,net"));
}

#[test]
fn build_command_includes_document_private_items_when_private() {
    let args = args_for(None, None, None, &no_features(), true, false, &[]);
    assert!(has_arg(&args, "--"));
    assert!(has_arg(&args, "--document-hidden-items"));
    assert!(has_arg(&args, "--document-private-items"));
}

#[test]
fn build_command_omits_private_items_when_not_private() {
    let args = args_for(None, None, None, &no_features(), false, false, &[]);
    assert!(has_arg(&args, "--"));
    assert!(has_arg(&args, "--document-hidden-items"));
    assert!(!has_arg(&args, "--document-private-items"));
}

#[test]
fn build_command_always_includes_document_hidden_items() {
    let args = args_for(None, None, None, &no_features(), false, false, &[]);
    assert!(has_arg(&args, "--document-hidden-items"));
    let args = args_for(None, None, None, &no_features(), true, false, &[]);
    assert!(has_arg(&args, "--document-hidden-items"));
}

#[test]
fn build_command_current_crate_uses_package_and_lib() {
    let features = FeatureFlags {
        all_features: true,
        no_default_features: false,
        features: Vec::new(),
    };
    let args = args_for(
        Some("my_crate"),
        None,
        Some("/workspace/target"),
        &features,
        false,
        true,
        &[],
    );
    assert!(has_arg(&args, "-p"));
    assert!(has_arg(&args, "my_crate"));
    assert!(has_arg(&args, "--lib"));
}

#[test]
fn build_command_external_crate_uses_lib_no_package() {
    let args = args_for(
        None,
        None,
        Some("/cache/serde-1.0.210/target"),
        &no_features(),
        false,
        true,
        &[],
    );
    assert!(has_arg(&args, "--lib"));
    assert!(!has_arg(&args, "-p"));
}

#[test]
fn build_command_stdlib_uses_manifest_path_and_target_dir() {
    let features = FeatureFlags {
        all_features: true,
        no_default_features: false,
        features: Vec::new(),
    };
    let args = args_for(
        None,
        Some("/sysroot/lib/rustlib/src/rust/library/std/Cargo.toml"),
        Some("/cache/stdlib/target-std-abc123"),
        &features,
        false,
        true,
        &[],
    );
    assert!(has_arg(&args, "--manifest-path"));
    assert!(has_arg(&args, "--target-dir"));
    assert!(has_arg(&args, "--lib"));
    assert!(!has_arg(&args, "-p"));
}

#[test]
fn build_command_includes_extra_rustdoc_args_after_separator() {
    let args = args_for(None, None, None, &no_features(), false, false, &["--cfg", "docsrs"]);
    let sep = args.iter().position(|a| a == "--").expect("separator");
    let cfg = args.iter().position(|a| a == "--cfg").expect("--cfg");
    assert!(cfg > sep);
    assert_eq!(args[cfg + 1], "docsrs");
}

#[test]
fn build_command_combines_private_and_extra_rustdoc_args() {
    let args = args_for(None, None, None, &no_features(), true, false, &["--cfg", "docsrs"]);
    let separator_count = args.iter().filter(|a| *a == "--").count();
    assert_eq!(separator_count, 1);
    assert!(has_arg(&args, "--document-hidden-items"));
    assert!(has_arg(&args, "--document-private-items"));
    assert!(has_arg(&args, "--cfg"));
    assert!(has_arg(&args, "docsrs"));
}

#[test]
fn build_command_sets_rustflags_env_var() {
    let rustc_args = vec!["--cfg".to_string(), "tokio_unstable".to_string()];
    assert_eq!(rustflags_value(&rustc_args).as_deref(), Some("--cfg tokio_unstable"));
    assert_eq!(rustflags_value(&Vec::new()), None);
}

#[test]
fn build_command_exact_argument_order() {
    let features = FeatureFlags {
        all_features: true,
        no_default_features: true,
        features: vec!["a".to_string(), "b".to_string()],
    };
    let args = args_for(Some("p"), Some("m"), Some("t"), &features, true, true, &["x"]);
    let expected = [
        "+nightly",
        "rustdoc",
        "--lib",
        "-p",
        "p",
        "--manifest-path",
        "m",
        "--target-dir",
        "t",
        "--all-features",
        "--no-default-features",
        "--features",
        "a,b",
        "--output-format",
        "json",
        "-Z",
        "unstable-options",
        "--",
        "--document-hidden-items",
        "--document-private-items",
        "x",
    ];
    assert_eq!(args, expected);
}

// ---- Platform failure detection ----

#[test]
fn is_platform_failure_detects_custom_build_command() {
    assert!(is_platform_failure(
        "error: failed to run custom build command for `openssl-sys v0.9`"
    ));
}

#[test]
fn is_platform_failure_detects_linker_error() {
    assert!(is_platform_failure("error: linker `cc` returned error"));
}

#[test]
fn is_platform_failure_detects_library_not_found() {
    assert!(is_platform_failure("ld: library not found for -lssl"));
}

#[test]
fn is_platform_failure_detects_framework_not_found() {
    assert!(is_platform_failure("ld: framework not found Security"));
}

#[test]
fn is_platform_failure_detects_cannot_find() {
    assert!(is_platform_failure("ld: cannot find -lz"));
}

#[test]
fn is_platform_failure_detects_unable_to_find() {
    assert!(is_platform_failure("Unable to find libclang"));
}

#[test]
fn is_platform_failure_detects_not_found_in_path() {
    assert!(is_platform_failure("cmake not found in PATH"));
}

#[test]
fn is_platform_failure_detects_windows_link_error() {
    assert!(is_platform_failure("LINK : fatal error LNK1181"));
}

#[test]
fn is_platform_failure_detects_features_outside_workspace() {
    assert!(is_platform_failure(
        "cannot specify features for packages outside of workspace"
    ));
}

#[test]
fn is_platform_failure_returns_false_for_regular_error() {
    assert!(!is_platform_failure("error[E0412]: cannot find type `Foo`"));
}

#[test]
fn is_platform_failure_returns_false_for_empty_stderr() {
    assert!(!is_platform_failure(""));
}

#[test]
fn is_platform_failure_case_insensitive() {
    assert!(is_platform_failure("FAILED TO RUN CUSTOM BUILD COMMAND"));
}

// ---- docs.rs failure records ----

#[test]
fn is_docsrs_known_failure_returns_false_for_unknown_crate() {
    // With no recorded failures, nothing is known to fail.
    assert!(!is_docsrs_known_failure(&[], "nonexistent-crate", "0.0.0"));
}

#[test]
fn is_docsrs_known_failure_finds_recorded_key() {
    let failures = vec!["wgpu@0.20.0".to_string()];
    assert!(is_docsrs_known_failure(&failures, "wgpu", "0.20.0"));
    assert!(!is_docsrs_known_failure(&failures, "serde", "1.0.0"));
    assert!(!is_docsrs_known_failure(&failures, "wgpu", "0.20.1"));
}

// ---- rustdoc failures ----

#[test]
fn no_library_target_is_detected() {
    let stderr = "error: no library targets found in package `my-bin`\n";
    assert_eq!(parse_no_library_target(stderr).as_deref(), Some("my-bin"));
    assert_eq!(parse_no_library_target("error: something else"), None);
    assert_eq!(
        parse_no_library_target("no library targets found in package `unterminated"),
        None
    );
    assert!(matches!(
        rustdoc_failure(stderr),
        GroxError::NoLibraryTarget { name } if name == "my-bin"
    ));
    assert!(matches!(
        rustdoc_failure("boom"),
        GroxError::RustdocFailed { stderr } if stderr == "boom"
    ));
}

// ---- feature cascade ----

#[test]
fn cascade_uses_explicit_flags_without_fallback() {
    let features = FeatureFlags {
        all_features: false,
        no_default_features: false,
        features: vec!["fs".to_string()],
    };
    let (attempt, notice) = cascade_start(&features, "tokio", false, None);
    assert_eq!(attempt.stage, BuildStage::Explicit);
    assert_eq!(attempt.features.features, vec!["fs".to_string()]);
    assert!(notice.is_none());
    match cascade_after_failure(BuildStage::Explicit, "boom", "tokio", Some("1.0.0")) {
        BuildOutcome::Fail(GroxError::RustdocFailed { stderr }) => assert_eq!(stderr, "boom"),
        _ => panic!("explicit flags must not fall back"),
    }
}

#[test]
fn cascade_prefers_docsrs_metadata() {
    let meta = DocsRsMetadata {
        all_features: true,
        no_default_features: false,
        features: Vec::new(),
        rustdoc_args: vec!["--cfg".to_string(), "docsrs".to_string()],
        rustc_args: vec!["--cfg".to_string(), "tokio_unstable".to_string()],
    };
    let (attempt, notice) = cascade_start(&no_features(), "tokio", false, Some(&meta));
    assert_eq!(attempt.stage, BuildStage::DocsRs);
    assert!(attempt.features.all_features);
    assert_eq!(attempt.rustdoc_args, meta.rustdoc_args);
    assert_eq!(attempt.rustc_args, meta.rustc_args);
    assert_eq!(notice.as_deref(), Some("[grox] Using docs.rs metadata for tokio"));
    match cascade_after_failure(BuildStage::DocsRs, "ld: cannot find -lz", "tokio", Some("1.40.0")) {
        BuildOutcome::Retry {
            record_failure,
            notice,
            next,
        } => {
            assert_eq!(record_failure.as_deref(), Some("tokio@1.40.0"));
            assert_eq!(
                notice,
                "[grox] Build with docs.rs metadata failed (platform issue), retrying with default features..."
            );
            assert_eq!(next.stage, BuildStage::DefaultFeatures);
            assert!(!next.features.all_features);
        }
        BuildOutcome::Fail(_) => panic!("docs.rs failure must fall back"),
    }
}

#[test]
fn cascade_tries_all_features_then_default() {
    let (attempt, notice) = cascade_start(&no_features(), "serde", false, None);
    assert_eq!(attempt.stage, BuildStage::AllFeatures);
    assert!(attempt.features.all_features);
    assert!(notice.is_none());
    match cascade_after_failure(BuildStage::AllFeatures, "error[E0412]", "serde", Some("1.0.0")) {
        BuildOutcome::Retry {
            record_failure,
            notice,
            next,
        } => {
            assert!(record_failure.is_none());
            assert_eq!(
                notice,
                "[grox] Build with --all-features failed, retrying with default features..."
            );
            assert_eq!(next.stage, BuildStage::DefaultFeatures);
        }
        BuildOutcome::Fail(_) => panic!("all-features failure must fall back"),
    }
    assert!(matches!(
        cascade_after_failure(
            BuildStage::DefaultFeatures,
            "no library targets found in package `x`",
            "serde",
            None
        ),
        BuildOutcome::Fail(GroxError::NoLibraryTarget { .. })
    ));
}

#[test]
fn cascade_skips_known_docsrs_failure() {
    let (attempt, notice) = cascade_start(&no_features(), "wgpu", true, None);
    assert_eq!(attempt.stage, BuildStage::DefaultFeatures);
    assert_eq!(
        notice.as_deref(),
        Some("[grox] Skipping docs.rs metadata for wgpu (known failure)")
    );
}
