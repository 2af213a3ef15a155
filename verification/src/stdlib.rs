//! Standard library toolchain identification.
use vstd::prelude::*;
use crate::cli::{clone_strings, djb2, spec_is_default, string_views, FeatureFlags};
use crate::docgen::{push_arg, push_feature_args, spec_feature_args};
use crate::docgen::{path_join, path_join_exec};
use crate::error::GroxError;
use crate::render::markdown::md_lines;
use crate::text::{
    chars_of, hex16_exec, hex_digits, slice_to_vec, split, split_exec, starts_with,
    starts_with_exec, string_of, trim, trim_exec,
};

pub use crate::cli::djb2_hash;

verus! {

/// The `commit-hash: ` prefix of `rustc --version --verbose` output.
pub open spec fn commit_prefix() -> Seq<char> {
    "commit-hash: "@
}

/// The first non-empty commit hash among the lines, if any.
pub open spec fn commit_hash_in(ls: Seq<Seq<char>>) -> Option<Seq<char>>
    decreases ls.len(),
{
    if ls.len() == 0 {
        None
    } else if starts_with(ls[0], commit_prefix()) && trim(ls[0].skip(commit_prefix().len() as int)).len() > 0 {
        Some(trim(ls[0].skip(commit_prefix().len() as int)))
    } else {
        commit_hash_in(ls.drop_first())
    }
}

/// The toolchain hash from verbose `rustc` output: the trimmed value of the
/// first non-empty `commit-hash:` line, else 16 hex digits of the DJB2 hash
/// of the first line (or of `unknown` when there is none).
pub open spec fn spec_parse_toolchain_hash(v: Seq<char>) -> Seq<char> {
    let ls = md_lines(v);
    match commit_hash_in(ls) {
        Some(h) => h,
        None => hex_digits(
            djb2(vstd::utf8::encode_utf8(if ls.len() > 0 { ls[0] } else { "unknown"@ })) as nat,
            16,
        ),
    }
}

/// The lines of `s` as `str::lines` yields them.
pub fn lines_exec(s: &[char]) -> (r: Vec<Vec<char>>)
    ensures
        r@.map_values(|v: Vec<char>| v@) == md_lines(s@),
{
    let nlv: Vec<char> = vec!['\n'];
    assert(nlv@ =~= seq!['\n']);
    let parts = split_exec(s, nlv.as_slice());
    let ghost pv = parts@.map_values(|v: Vec<char>| v@);
    proof {
        crate::text::lemma_split_nonempty(s@, seq!['\n']);
    }
    let n = parts.len();
    let cnt = if n > 0 && parts[n - 1].len() == 0 { n - 1 } else { n };
    let ghost ls = md_lines(s@);
    let mut out: Vec<Vec<char>> = Vec::new();
    let mut k: usize = 0;
    while k < cnt
        invariant
            k <= cnt <= n,
            n == parts@.len(),
            pv == parts@.map_values(|v: Vec<char>| v@),
            pv == split(s@, seq!['\n']),
            ls == md_lines(s@),
            ls.len() == cnt,
            out@.map_values(|v: Vec<char>| v@) == ls.take(k as int),
        decreases cnt - k,
    {
        let ghost old_o = out@.map_values(|v: Vec<char>| v@);
        let p = &parts[k];
        let line: Vec<char> = if k + 1 < n && p.len() > 0 && p[p.len() - 1] == '\r' {
            slice_to_vec(p.as_slice(), 0, p.len() - 1)
        } else {
            crate::text::copy_chars(p.as_slice())
        };
        assert(pv[k as int] == p@);
        assert(line@ =~= ls[k as int]);
        out.push(line);
        assert(out@.map_values(|v: Vec<char>| v@) =~= old_o.push(ls[k as int]));
        assert(ls.take(k + 1) =~= ls.take(k as int).push(ls[k as int]));
        k = k + 1;
    }
    assert(ls.take(cnt as int) =~= ls);
    out
}

/// Extracts a toolchain hash from `rustc +nightly --version --verbose`.
pub fn parse_toolchain_hash(verbose_output: &str) -> (r: String)
    ensures
        r@ == spec_parse_toolchain_hash(verbose_output@),
{
    let v = chars_of(verbose_output);
    let ls = lines_exec(v.as_slice());
    let ghost lv = ls@.map_values(|x: Vec<char>| x@);
    let pre = chars_of("commit-hash: ");
    let mut k: usize = 0;
    assert(lv.skip(0) =~= lv);
    while k < ls.len()
        invariant
            k <= ls@.len(),
            lv == ls@.map_values(|x: Vec<char>| x@),
            lv == md_lines(verbose_output@),
            pre@ == commit_prefix(),
            commit_hash_in(lv) == commit_hash_in(lv.skip(k as int)),
        decreases ls.len() - k,
    {
        let line = &ls[k];
        assert(lv.skip(k as int)[0] == line@);
        assert(lv.skip(k as int).drop_first() =~= lv.skip(k + 1));
        if starts_with_exec(line.as_slice(), pre.as_slice()) {
            let rest = slice_to_vec(line.as_slice(), pre.len(), line.len());
            assert(rest@ =~= line@.skip(commit_prefix().len() as int));
            let h = trim_exec(rest.as_slice());
            if h.len() > 0 {
                return string_of(h.as_slice());
            }
        }
        k = k + 1;
    }
    let first = if ls.len() > 0 {
        string_of(ls[0].as_slice())
    } else {
        "unknown".to_string()
    };
    string_of(hex16_exec(djb2_hash(first.as_str())).as_slice())
}

/// Whether something exists at the path `p` on disk
/// (`std::path::Path::exists`). The answer depends on the file system at the
/// time of the call, so nothing is stated of it.
#[verifier::external_body]
pub(crate) fn path_exists(p: &str) -> (r: bool) {
    std::path::Path::new(p).exists()
}

/// Where the standard library sources lie under a sysroot.
pub open spec fn spec_library_path(sysroot: Seq<char>) -> Seq<char> {
    path_join(sysroot, "lib/rustlib/src/rust/library"@)
}

/// Returns the path to the standard library source directory under
/// `sysroot`, or `StdLibSourceMissing` when the rust-src component is not
/// installed there (the directory does not exist).
pub fn stdlib_library_path(sysroot: &str) -> (r: Result<String, GroxError>)
    ensures
        match r {
            Ok(p) => p@ == spec_library_path(sysroot@),
            Err(e) => e == GroxError::StdLibSourceMissing,
        },
{
    let p = string_of(
        path_join_exec(chars_of(sysroot).as_slice(), chars_of("lib/rustlib/src/rust/library").as_slice()).as_slice(),
    );
    if path_exists(p.as_str()) {
        Ok(p)
    } else {
        Err(GroxError::StdLibSourceMissing)
    }
}


/// The feature flags a standard library crate is built with: default
/// features unless the user gave flags, and never all features (the
/// standard library's features are build knobs, not API gates).
pub fn stdlib_features(features: &FeatureFlags) -> (r: FeatureFlags)
    ensures
        !r.all_features,
        r.no_default_features == (!spec_is_default(*features) && features.no_default_features),
        string_views(r.features@) == if spec_is_default(*features) {
            seq![]
        } else {
            string_views(features.features@)
        },
{
    if features.is_default() {
        let r = FeatureFlags { all_features: false, no_default_features: false, features: Vec::new() };
        assert(string_views(r.features@) =~= Seq::<Seq<char>>::empty());
        r
    } else {
        FeatureFlags {
            all_features: false,
            no_default_features: features.no_default_features,
            features: clone_strings(&features.features),
        }
    }
}

/// The arguments of the `cargo +nightly rustdoc` command for a standard
/// library crate: its library target by manifest path, into the given
/// target directory, with the feature flags; private items on request.
pub open spec fn spec_stdlib_rustdoc_args(
    manifest_path: Seq<char>,
    target_dir: Seq<char>,
    features: FeatureFlags,
    private: bool,
) -> Seq<Seq<char>> {
    seq!["+nightly"@, "rustdoc"@, "--lib"@, "--manifest-path"@, manifest_path, "--target-dir"@, target_dir]
        + spec_feature_args(features) + seq!["--output-format"@, "json"@, "-Z"@, "unstable-options"@]
        + if private {
        seq!["--"@, "--document-private-items"@]
    } else {
        seq![]
    }
}

/// Builds the arguments of the rustdoc command for a standard library crate.
pub fn stdlib_rustdoc_args(manifest_path: &str, target_dir: &str, features: &FeatureFlags, private: bool) -> (r: Vec<String>)
    ensures
        string_views(r@) == spec_stdlib_rustdoc_args(manifest_path@, target_dir@, *features, private),
{
    let mut out: Vec<String> = Vec::new();
    push_arg(&mut out, "+nightly");
    push_arg(&mut out, "rustdoc");
    push_arg(&mut out, "--lib");
    push_arg(&mut out, "--manifest-path");
    push_arg(&mut out, manifest_path);
    push_arg(&mut out, "--target-dir");
    push_arg(&mut out, target_dir);
    let ghost a = string_views(out@);
    push_feature_args(&mut out, features);
    let ghost b = string_views(out@);
    push_arg(&mut out, "--output-format");
    push_arg(&mut out, "json");
    push_arg(&mut out, "-Z");
    push_arg(&mut out, "unstable-options");
    let ghost c = string_views(out@);
    if private {
        push_arg(&mut out, "--");
        push_arg(&mut out, "--document-private-items");
    }
    assert(string_views(out@) =~= spec_stdlib_rustdoc_args(manifest_path@, target_dir@, *features, private));
    out
}

} // verus!
