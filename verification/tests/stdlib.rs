use groxide::error::GroxError;
use groxide::stdlib::{djb2_hash, parse_toolchain_hash, stdlib_library_path};

#[test]
fn stdlib_library_path_returns_error_for_nonexistent_sysroot() {
    let result = stdlib_library_path("/nonexistent/sysroot");
    assert!(result.is_err());
    assert!(
        matches!(result.unwrap_err(), GroxError::StdLibSourceMissing),
        "should return StdLibSourceMissing"
    );
}

#[test]
fn parse_toolchain_hash_extracts_commit_hash() {
    let verbose = "rustc 1.83.0-nightly (90b35a623 2024-11-26)\n\
                    binary: rustc\n\
                    commit-hash: 90b35a6239c3d8bdabc530a6a0816f7ff89a0aaf\n\
                    commit-date: 2024-11-26\n\
                    host: aarch64-apple-darwin\n\
                    release: 1.83.0-nightly\n";
    let hash = parse_toolchain_hash(verbose);
    assert_eq!(hash, "90b35a6239c3d8bdabc530a6a0816f7ff89a0aaf");
}

#[test]
fn parse_toolchain_hash_falls_back_to_djb2_when_no_commit_hash() {
    let verbose = "rustc 1.83.0-nightly\nbinary: rustc\nhost: aarch64-apple-darwin\n";
    let hash = parse_toolchain_hash(verbose);
    assert_eq!(hash.len(), 16, "DJB2 hash should be 16 hex chars");
    assert!(
        hash.chars().all(|c| c.is_ascii_hexdigit()),
        "should be hex: '{hash}'"
    );
}

#[test]
fn parse_toolchain_hash_falls_back_for_empty_commit_hash() {
    let verbose = "rustc 1.83.0-nightly\ncommit-hash: \nhost: aarch64-apple-darwin\n";
    let hash = parse_toolchain_hash(verbose);
    assert_eq!(
        hash.len(),
        16,
        "should fall back to DJB2 for empty commit-hash"
    );
}

#[test]
fn parse_toolchain_hash_deterministic() {
    let verbose = "rustc 1.83.0-nightly (90b35a623 2024-11-26)\n\
                    commit-hash: 90b35a6239c3d8bdabc530a6a0816f7ff89a0aaf\n";
    let hash1 = parse_toolchain_hash(verbose);
    let hash2 = parse_toolchain_hash(verbose);
    assert_eq!(hash1, hash2, "should be deterministic");
}

#[test]
fn parse_toolchain_hash_fallback_hashes_first_line() {
    let verbose = "rustc 1.83.0-nightly\nhost: x\n";
    let expected = format!("{:016x}", djb2_hash("rustc 1.83.0-nightly"));
    assert_eq!(parse_toolchain_hash(verbose), expected);
    let expected_empty = format!("{:016x}", djb2_hash("unknown"));
    assert_eq!(parse_toolchain_hash(""), expected_empty);
}

#[test]
fn djb2_hash_produces_consistent_results() {
    assert_eq!(djb2_hash("test"), djb2_hash("test"));
}

#[test]
fn djb2_hash_differs_for_different_inputs() {
    assert_ne!(djb2_hash("test"), djb2_hash("other"));
}

#[test]
fn djb2_hash_works_on_empty_string() {
    // Should return the initial value (5381)
    assert_eq!(djb2_hash(""), 5381);
}

#[test]
fn djb2_hash_exact_value() {
    // 5381 * 33 + 'a' (97)
    assert_eq!(djb2_hash("a"), 177_670);
}
