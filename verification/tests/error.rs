use groxide::error::{format_suggestions, GroxError, EXIT_ERROR, EXIT_NOT_FOUND};

#[test]
fn error_display_manifest_not_found_contains_expected_text() {
    let err = GroxError::ManifestNotFound;
    let msg = err.message();
    assert!(msg.contains("not in a Rust project"));
    assert!(msg.contains("--manifest-path"));
}

#[test]
fn error_display_cargo_metadata_failed_contains_details() {
    let err = GroxError::CargoMetadataFailed {
        details: "could not find Cargo.toml".to_string(),
    };
    let msg = err.message();
    assert!(msg.contains("failed to read cargo metadata"));
    assert!(msg.contains("could not find Cargo.toml"));
}

#[test]
fn error_display_crate_not_found_with_suggestions() {
    let err = GroxError::CrateNotFound {
        name: "tokoi".to_string(),
        suggestions: vec!["tokio".to_string()],
    };
    let msg = err.message();
    assert!(msg.contains("crate 'tokoi' not found"));
    assert!(msg.contains("Did you mean:"));
    assert!(msg.contains("tokio"));
}

#[test]
fn error_display_crate_not_found_no_suggestions() {
    let err = GroxError::CrateNotFound {
        name: "zzz".to_string(),
        suggestions: vec![],
    };
    let msg = err.message();
    assert!(msg.contains("crate 'zzz' not found"));
    assert!(!msg.contains("Did you mean"));
}

#[test]
fn error_display_item_not_found_with_crate_context() {
    let err = GroxError::ItemNotFound {
        query: "Mutx".to_string(),
        crate_name: Some("tokio".to_string()),
        suggestions: vec!["Mutex".to_string()],
    };
    let msg = err.message();
    assert!(msg.contains("no item matching \"Mutx\""));
    assert!(msg.contains("in crate 'tokio'"));
    assert!(msg.contains("Did you mean:"));
    assert!(msg.contains("Mutex"));
}

#[test]
fn error_display_item_not_found_without_crate_context() {
    let err = GroxError::ItemNotFound {
        query: "Foo".to_string(),
        crate_name: None,
        suggestions: vec![],
    };
    let msg = err.message();
    assert!(msg.contains("no item matching \"Foo\""));
    assert!(!msg.contains("in crate"));
}

#[test]
fn error_display_nightly_not_available() {
    let err = GroxError::NightlyNotAvailable;
    let msg = err.message();
    assert!(msg.contains("nightly toolchain required"));
    assert!(msg.contains("rustup toolchain install nightly"));
}

#[test]
fn error_display_rustdoc_failed() {
    let err = GroxError::RustdocFailed {
        stderr: "error[E0001]: some error".to_string(),
    };
    let msg = err.message();
    assert!(msg.contains("rustdoc generation failed"));
    assert!(msg.contains("error[E0001]"));
}

#[test]
fn error_display_stdlib_source_missing() {
    let err = GroxError::StdLibSourceMissing;
    let msg = err.message();
    assert!(msg.contains("standard library source not available"));
    assert!(msg.contains("rustup component add rust-src"));
}

#[test]
fn error_display_invalid_query() {
    let err = GroxError::InvalidQuery {
        message: "missing version after @".to_string(),
    };
    assert_eq!(err.message(), "missing version after @");
}

#[test]
fn error_display_json_read_failed() {
    let err = GroxError::JsonReadFailed {
        path: "/tmp/test.json".to_string(),
        source: "file not found".to_string(),
    };
    let msg = err.message();
    assert!(msg.contains("failed to read /tmp/test.json"));
    assert!(msg.contains("file not found"));
}

#[test]
fn exit_code_crate_not_found_returns_1() {
    let err = GroxError::CrateNotFound {
        name: "x".to_string(),
        suggestions: vec![],
    };
    assert_eq!(err.exit_code(), EXIT_NOT_FOUND);
}

#[test]
fn exit_code_item_not_found_returns_1() {
    let err = GroxError::ItemNotFound {
        query: "x".to_string(),
        crate_name: None,
        suggestions: vec![],
    };
    assert_eq!(err.exit_code(), EXIT_NOT_FOUND);
}

#[test]
fn exit_code_manifest_not_found_returns_2() {
    assert_eq!(GroxError::ManifestNotFound.exit_code(), EXIT_ERROR);
}

#[test]
fn exit_code_nightly_not_available_returns_2() {
    assert_eq!(GroxError::NightlyNotAvailable.exit_code(), EXIT_ERROR);
}

#[test]
fn exit_code_io_error_returns_2() {
    let err = GroxError::Io("boom".to_string());
    assert_eq!(err.exit_code(), EXIT_ERROR);
}

#[test]
fn exit_code_rustdoc_failed_returns_2() {
    let err = GroxError::RustdocFailed {
        stderr: String::new(),
    };
    assert_eq!(err.exit_code(), EXIT_ERROR);
}

#[test]
fn format_suggestions_empty_returns_empty_string() {
    assert_eq!(format_suggestions(&[]), "");
}

#[test]
fn format_suggestions_deduplicates() {
    let suggestions = vec!["a".to_string(), "b".to_string(), "a".to_string()];
    let result = format_suggestions(&suggestions);
    // Should contain "a" only once
    let count = result.matches("\n  a").count();
    assert_eq!(count, 1);
}

#[test]
fn format_suggestions_caps_at_5_with_ellipsis() {
    let suggestions: Vec<String> = (0..8).map(|i| format!("item{i}")).collect();
    let result = format_suggestions(&suggestions);
    assert!(result.contains("Did you mean:"));
    assert!(result.contains("item0"));
    assert!(result.contains("item4"));
    assert!(!result.contains("item5"));
    assert!(result.contains("... 3 more"));
}

#[test]
fn format_suggestions_exactly_5_no_ellipsis() {
    let suggestions: Vec<String> = (0..5).map(|i| format!("item{i}")).collect();
    let result = format_suggestions(&suggestions);
    assert!(result.contains("item4"));
    assert!(!result.contains("..."));
}

#[test]
fn format_suggestions_single_item() {
    let suggestions = vec!["Mutex".to_string()];
    let result = format_suggestions(&suggestions);
    assert!(result.contains("Did you mean:"));
    assert!(result.contains("Mutex"));
}
