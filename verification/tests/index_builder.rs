use groxide::index_builder::{extract_feature_gate, extract_summary, fallback_signature};
use groxide::types::ItemKind;

#[test]
fn extract_summary_first_sentence() {
    assert_eq!(
        extract_summary("Adds two numbers together. Returns the sum."),
        "Adds two numbers together."
    );
}

#[test]
fn extract_summary_no_terminator() {
    assert_eq!(
        extract_summary("A simple struct with no generics"),
        "A simple struct with no generics"
    );
}

#[test]
fn extract_summary_empty_docs() {
    assert_eq!(extract_summary(""), "");
}

#[test]
fn extract_summary_truncates_long_first_line() {
    let long_line = "a".repeat(200);
    let result = extract_summary(&long_line);
    assert_eq!(result.len(), 103); // 100 + "..."
    assert!(result.ends_with("..."));
}

#[test]
fn extract_summary_period_in_version_number() {
    assert_eq!(
        extract_summary("Requires version 1.56.0 to compile"),
        "Requires version 1.56.0 to compile"
    );
}

#[test]
fn extract_summary_uses_first_line_only() {
    assert_eq!(extract_summary("First line\nSecond line."), "First line");
}

#[test]
fn fallback_signature_names_kind_and_visibility() {
    assert_eq!(fallback_signature(true, ItemKind::Struct, "Foo"), "pub struct Foo");
    assert_eq!(fallback_signature(false, ItemKind::Function, "bar"), "fn bar");
}

#[test]
fn extract_feature_gate_from_attrs() {
    let attrs = vec!["#[doc(cfg(feature = \"unstable\"))]".to_string()];
    assert_eq!(extract_feature_gate(&attrs), Some("unstable".to_string()));
}

#[test]
fn extract_feature_gate_none_when_absent() {
    let attrs: Vec<String> = vec![];
    assert_eq!(extract_feature_gate(&attrs), None);
}

#[test]
fn extract_feature_gate_first_complete_attribute_wins() {
    let attrs = vec![
        "#[must_use]".to_string(),
        "#[doc(cfg(feature))]".to_string(),
        "#[doc(cfg(feature = \"fs\"))]".to_string(),
        "#[doc(cfg(feature = \"net\"))]".to_string(),
    ];
    assert_eq!(extract_feature_gate(&attrs), Some("fs".to_string()));
}
