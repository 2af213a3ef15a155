//! Error values, their messages and their process exit codes.
use vstd::prelude::*;
use crate::text::{append, append_str, chars_eq, chars_of, decimal, decimal_exec, string_of};

verus! {

/// Exit code for successful operations.
pub const EXIT_SUCCESS: i32 = 0;

/// Exit code when a crate or item is not found.
pub const EXIT_NOT_FOUND: i32 = 1;

/// Exit code for errors (I/O, config, toolchain, etc.).
pub const EXIT_ERROR: i32 = 2;

/// `s` with later repetitions of earlier elements removed (first occurrence kept).
pub open spec fn dedup(s: Seq<Seq<char>>) -> Seq<Seq<char>>
    decreases s.len(),
{
    if s.len() == 0 {
        seq![]
    } else {
        let prev = dedup(s.drop_last());
        if prev.contains(s.last()) {
            prev
        } else {
            prev.push(s.last())
        }
    }
}

/// The lines listing `u[0..k]`, each as `"\n  " + u[i]`.
pub open spec fn suggestion_lines(u: Seq<Seq<char>>, k: int) -> Seq<char>
    decreases k,
{
    if k <= 0 {
        seq![]
    } else {
        suggestion_lines(u, k - 1) + "\n  "@ + u[k - 1]
    }
}

/// The "Did you mean" block for a list of suggestions: empty when there are
/// none; otherwise the distinct suggestions in first-seen order, at most five,
/// followed by `... N more` when more than five are distinct.
pub open spec fn spec_format_suggestions(s: Seq<Seq<char>>) -> Seq<char> {
    if s.len() == 0 {
        seq![]
    } else {
        let u = dedup(s);
        let shown = if u.len() < 5 { u.len() as int } else { 5 };
        "\n\nDid you mean:"@ + suggestion_lines(u, shown) + if u.len() > 5 {
            "\n  ... "@ + decimal((u.len() - 5) as nat) + " more"@
        } else {
            seq![]
        }
    }
}

/// The views of a list of strings.
pub open spec fn views(v: Seq<String>) -> Seq<Seq<char>> {
    v.map_values(|s: String| s@)
}

/// Formats the suggestion list for error messages.
///
/// Deduplicates (keeping first occurrences), caps at 5 entries, and appends
/// "... N more" if truncated. Returns an empty string for no suggestions.
pub fn format_suggestions(suggestions: &[String]) -> (r: String)
    ensures
        r@ == spec_format_suggestions(views(suggestions@)),
{
    let ghost sv = views(suggestions@);
    let r = format_suggestions_chars(suggestions);
    string_of(r.as_slice())
}

fn format_suggestions_chars(suggestions: &[String]) -> (r: Vec<char>)
    ensures
        r@ == spec_format_suggestions(views(suggestions@)),
{
    let ghost sv = views(suggestions@);
    let mut out: Vec<char> = Vec::new();
    if suggestions.len() == 0 {
        return out;
    }
    let mut unique: Vec<Vec<char>> = Vec::new();
    let mut i: usize = 0;
    assert(sv.take(0) =~= Seq::<Seq<char>>::empty());
    while i < suggestions.len()
        invariant
            i <= suggestions@.len(),
            sv == views(suggestions@),
            unique@.map_values(|v: Vec<char>| v@) == dedup(sv.take(i as int)),
        decreases suggestions.len() - i,
    {
        let c = chars_of(suggestions[i].as_str());
        let ghost uv = unique@.map_values(|v: Vec<char>| v@);
        let mut seen = false;
        let mut j: usize = 0;
        while j < unique.len()
            invariant
                j <= unique@.len(),
                uv == unique@.map_values(|v: Vec<char>| v@),
                seen == exists|t: int| 0 <= t < j && uv[t] == c@,
            decreases unique.len() - j,
        {
            let eq = chars_eq(unique[j].as_slice(), c.as_slice());
            proof {
                if !eq {
                    if exists|t: int| 0 <= t < j + 1 && uv[t] == c@ {
                        let t = choose|t: int| 0 <= t < j + 1 && uv[t] == c@;
                        assert(t < j);
                    }
                } else {
                    assert(uv[j as int] == c@);
                }
            }
            if eq {
                seen = true;
            }
            j = j + 1;
        }
        assert(sv.take(i + 1).drop_last() =~= sv.take(i as int));
        assert(sv.take(i + 1).last() == c@);
        proof {
            if uv.contains(c@) {
                let t = choose|t: int| 0 <= t < uv.len() && uv[t] == c@;
                assert(seen);
            }
            if seen {
                let t = choose|t: int| 0 <= t < j && uv[t] == c@;
                assert(uv.contains(c@));
            }
        }
        if !seen {
            unique.push(c);
            assert(unique@.map_values(|v: Vec<char>| v@) =~= uv.push(c@));
        }
        i = i + 1;
    }
    assert(sv.take(suggestions@.len() as int) =~= sv);
    let ghost u = dedup(sv);
    let total = unique.len();
    let shown = if total < 5 { total } else { 5 };
    append_str(&mut out, "\n\nDid you mean:");
    let mut k: usize = 0;
    let ghost head = out@;
    while k < shown
        invariant
            k <= shown <= unique@.len(),
            u == unique@.map_values(|v: Vec<char>| v@),
            out@ == head + suggestion_lines(u, k as int),
        decreases shown - k,
    {
        append_str(&mut out, "\n  ");
        append(&mut out, unique[k].as_slice());
        k = k + 1;
        assert(out@ =~= head + suggestion_lines(u, k as int));
    }
    if total > 5 {
        let ghost before = out@;
        append_str(&mut out, "\n  ... ");
        let d = decimal_exec((total - 5) as u64);
        append(&mut out, d.as_slice());
        append_str(&mut out, " more");
        assert(out@ =~= before + ("\n  ... "@ + decimal((u.len() - 5) as nat) + " more"@));
    }
    assert(out@ =~= spec_format_suggestions(sv));
    out
}

/// All error types. Each variant maps to an exit code.
#[derive(Debug)]
pub enum GroxError {
    /// No Cargo.toml found in the current directory or any parent.
    ManifestNotFound,
    /// cargo metadata invocation failed.
    CargoMetadataFailed { details: String },
    /// Crate name not found among dependencies or known crates.
    CrateNotFound { name: String, suggestions: Vec<String> },
    /// Nightly Rust toolchain is required but not installed.
    NightlyNotAvailable,
    /// No item matched the query path.
    ItemNotFound { query: String, crate_name: Option<String>, suggestions: Vec<String> },
    /// `cargo rustdoc` failed.
    RustdocFailed { stderr: String },
    /// The current crate has no library target.
    NoLibraryTarget { name: String },
    /// rust-src component not installed.
    StdLibSourceMissing,
    /// Failed to fetch crate from crates.io.
    ExternalFetchFailed { name: String, details: String },
    /// Invalid query syntax.
    InvalidQuery { message: String },
    /// Failed to read a rustdoc JSON file from disk (the path and the I/O error text).
    JsonReadFailed { path: String, source: String },
    /// Rustdoc JSON parsed but had unexpected structure.
    JsonParseFailed { details: String },
    /// Cache serialization or deserialization failed.
    CacheSerializationFailed { message: String },
    /// Generic I/O error (its text).
    Io(String),
}

/// The " in crate '<name>'" context of a not-found message.
pub open spec fn spec_crate_ctx(crate_name: Option<String>) -> Seq<char> {
    match crate_name {
        Some(n) => " in crate '"@ + n@ + "'"@,
        None => seq![],
    }
}

/// The human-readable message of each error.
pub open spec fn spec_message(e: GroxError) -> Seq<char> {
    match e {
        GroxError::ManifestNotFound => "not in a Rust project\n\nRun grox in a Rust project directory, or specify --manifest-path.\nTo query external crates: grox <crate>\nTo query stdlib: grox std, grox core, grox alloc"@,
        GroxError::CargoMetadataFailed { details } => "failed to read cargo metadata\n\n"@ + details@,
        GroxError::CrateNotFound { name, suggestions } => "crate '"@ + name@ + "' not found"@
            + spec_format_suggestions(views(suggestions@)),
        GroxError::NightlyNotAvailable => "nightly toolchain required\n\nRun: rustup toolchain install nightly"@,
        GroxError::ItemNotFound { query, crate_name, suggestions } => "no item matching \""@ + query@
            + "\""@ + spec_crate_ctx(crate_name) + spec_format_suggestions(views(suggestions@)),
        GroxError::RustdocFailed { stderr } => "rustdoc generation failed\n\n"@ + stderr@,
        GroxError::NoLibraryTarget { name } => "'"@ + name@
            + "' has no library target \u{2014} grox indexes library APIs only.\n\nIf this crate has dependencies you want to query, try `grox <dep>`."@,
        GroxError::StdLibSourceMissing => "standard library source not available\n\nRun: rustup component add rust-src"@,
        GroxError::ExternalFetchFailed { name, details } => "failed to fetch '"@ + name@
            + "' from crates.io\n\n"@ + details@,
        GroxError::InvalidQuery { message } => message@,
        GroxError::JsonReadFailed { path, source } => "failed to read "@ + path@ + ": "@ + source@,
        GroxError::JsonParseFailed { details } => "failed to parse rustdoc JSON: "@ + details@,
        GroxError::CacheSerializationFailed { message } => "cache error: "@ + message@,
        GroxError::Io(text) => "I/O error: "@ + text@,
    }
}

/// The exit code of each error: 1 for not-found errors, 2 for all others.
pub open spec fn spec_exit_code(e: GroxError) -> i32 {
    match e {
        GroxError::CrateNotFound { .. } | GroxError::ItemNotFound { .. } => EXIT_NOT_FOUND,
        _ => EXIT_ERROR,
    }
}

/// Formats the crate context for `ItemNotFound` messages.
fn format_crate_ctx(crate_name: &Option<String>) -> (r: Vec<char>)
    ensures
        r@ == spec_crate_ctx(*crate_name),
{
    let mut r: Vec<char> = Vec::new();
    match crate_name {
        Some(n) => {
            append_str(&mut r, " in crate '");
            append_str(&mut r, n.as_str());
            append_str(&mut r, "'");
        },
        None => {},
    }
    r
}

impl GroxError {
    /// Returns the process exit code for this error variant.
    pub fn exit_code(&self) -> (r: i32)
        ensures
            r == spec_exit_code(*self),
    {
        match self {
            GroxError::CrateNotFound { .. } | GroxError::ItemNotFound { .. } => EXIT_NOT_FOUND,
            GroxError::ManifestNotFound
            | GroxError::CargoMetadataFailed { .. }
            | GroxError::NightlyNotAvailable
            | GroxError::RustdocFailed { .. }
            | GroxError::NoLibraryTarget { .. }
            | GroxError::StdLibSourceMissing
            | GroxError::ExternalFetchFailed { .. }
            | GroxError::InvalidQuery { .. }
            | GroxError::JsonReadFailed { .. }
            | GroxError::JsonParseFailed { .. }
            | GroxError::CacheSerializationFailed { .. }
            | GroxError::Io(_) => EXIT_ERROR,
        }
    }

    /// The human-readable message of this error (what the error displays as).
    pub fn message(&self) -> (r: String)
        ensures
            r@ == spec_message(*self),
    {
        let mut out: Vec<char> = Vec::new();
        match self {
            GroxError::ManifestNotFound => {
                append_str(&mut out, "not in a Rust project\n\nRun grox in a Rust project directory, or specify --manifest-path.\nTo query external crates: grox <crate>\nTo query stdlib: grox std, grox core, grox alloc");
            },
            GroxError::CargoMetadataFailed { details } => {
                append_str(&mut out, "failed to read cargo metadata\n\n");
                append_str(&mut out, details.as_str());
            },
            GroxError::CrateNotFound { name, suggestions } => {
                append_str(&mut out, "crate '");
                append_str(&mut out, name.as_str());
                append_str(&mut out, "' not found");
                let s = format_suggestions_chars(suggestions.as_slice());
                append(&mut out, s.as_slice());
            },
            GroxError::NightlyNotAvailable => {
                append_str(&mut out, "nightly toolchain required\n\nRun: rustup toolchain install nightly");
            },
            GroxError::ItemNotFound { query, crate_name, suggestions } => {
                append_str(&mut out, "no item matching \"");
                append_str(&mut out, query.as_str());
                append_str(&mut out, "\"");
                let c = format_crate_ctx(crate_name);
                append(&mut out, c.as_slice());
                let s = format_suggestions_chars(suggestions.as_slice());
                append(&mut out, s.as_slice());
            },
            GroxError::RustdocFailed { stderr } => {
                append_str(&mut out, "rustdoc generation failed\n\n");
                append_str(&mut out, stderr.as_str());
            },
            GroxError::NoLibraryTarget { name } => {
                append_str(&mut out, "'");
                append_str(&mut out, name.as_str());
                append_str(&mut out, "' has no library target \u{2014} grox indexes library APIs only.\n\nIf this crate has dependencies you want to query, try `grox <dep>`.");
            },
            GroxError::StdLibSourceMissing => {
                append_str(&mut out, "standard library source not available\n\nRun: rustup component add rust-src");
            },
            GroxError::ExternalFetchFailed { name, details } => {
                append_str(&mut out, "failed to fetch '");
                append_str(&mut out, name.as_str());
                append_str(&mut out, "' from crates.io\n\n");
                append_str(&mut out, details.as_str());
            },
            GroxError::InvalidQuery { message } => {
                append_str(&mut out, message.as_str());
            },
            GroxError::JsonReadFailed { path, source } => {
                append_str(&mut out, "failed to read ");
                append_str(&mut out, path.as_str());
                append_str(&mut out, ": ");
                append_str(&mut out, source.as_str());
            },
            GroxError::JsonParseFailed { details } => {
                append_str(&mut out, "failed to parse rustdoc JSON: ");
                append_str(&mut out, details.as_str());
            },
            GroxError::CacheSerializationFailed { message } => {
                append_str(&mut out, "cache error: ");
                append_str(&mut out, message.as_str());
            },
            GroxError::Io(text) => {
                append_str(&mut out, "I/O error: ");
                append_str(&mut out, text.as_str());
            },
        }
        assert(out@ =~= spec_message(*self));
        string_of(out.as_slice())
    }
}

/// Exit codes: every error exits with 1 (not found) or 2 (error), and with 1
/// exactly when a crate or an item was not found.
pub proof fn lemma_exit_codes(e: GroxError)
    ensures
        spec_exit_code(e) == EXIT_NOT_FOUND || spec_exit_code(e) == EXIT_ERROR,
        spec_exit_code(e) == EXIT_NOT_FOUND <==> (e is CrateNotFound || e is ItemNotFound),
{
}

} // verus!
