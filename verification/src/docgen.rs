//! Decisions around rustdoc JSON generation: output paths and failure
//! classification.
use vstd::prelude::*;
use crate::cli::{clone_strings, spec_is_default, string_views, FeatureFlags};
use crate::error::GroxError;
use crate::text::{
    append, append_str, chars_eq, chars_of, contains, contains_exec, ends_with, ends_with_exec,
    find_from, find_from_exec, first_index_of, occurs_at, index_of_char, join, lemma_find_from, lower,
    lower_chars, replace_char, replace_char_exec, slice_to_vec, string_of,
};

verus! {

/// `a/b`: `b` appended to the path `a` with a `/` between (none after an
/// empty path or one that already ends with `/`).
pub open spec fn path_join(a: Seq<char>, b: Seq<char>) -> Seq<char> {
    if a.len() == 0 || a.last() == '/' {
        a + b
    } else {
        a + seq!['/'] + b
    }
}

/// Appends a path component.
pub fn path_join_exec(a: &[char], b: &[char]) -> (r: Vec<char>)
    ensures
        r@ == path_join(a@, b@),
{
    let mut r = crate::text::copy_chars(a);
    if !(a.len() == 0 || a[a.len() - 1] == '/') {
        r.push('/');
    }
    append(&mut r, b);
    r
}

/// The rustdoc JSON file of a crate: `<target>/doc/<name>.json`, with the
/// crate name's hyphens as underscores.
pub open spec fn spec_json_output_path(target: Seq<char>, name: Seq<char>) -> Seq<char> {
    path_join(path_join(target, "doc"@), replace_char(name, '-', '_') + ".json"@)
}

/// Computes the expected JSON output path for a crate.
pub fn json_output_path(target_dir: &str, crate_name: &str) -> (r: String)
    ensures
        r@ == spec_json_output_path(target_dir@, crate_name@),
{
    let d = path_join_exec(chars_of(target_dir).as_slice(), chars_of("doc").as_slice());
    let mut f = replace_char_exec(chars_of(crate_name).as_slice(), '-', '_');
    append_str(&mut f, ".json");
    string_of(path_join_exec(d.as_slice(), f.as_slice()).as_slice())
}

/// Error patterns that point at the platform (missing native tools or
/// libraries) rather than at the crate.
pub open spec fn platform_patterns() -> Seq<Seq<char>> {
    seq![
        "failed to run custom build command"@,
        "could not find"@,
        "ld: library not found"@,
        "ld: framework not found"@,
        "ld: cannot find"@,
        "Unable to find"@,
        "not found in PATH"@,
        "LINK : fatal error"@,
        "error occurred: Command"@,
        "is not recognized as an internal or external command"@,
        "cannot specify features for packages outside of workspace"@,
    ]
}

/// Pairs of patterns that point at the platform when both appear.
pub open spec fn platform_pairs() -> Seq<(Seq<char>, Seq<char>)> {
    seq![("linker"@, "error"@), ("could not find"@, "native"@)]
}

/// Whether a build's stderr looks like a platform failure: case-insensitively
/// it contains one of the patterns, or both halves of a pair.
pub open spec fn spec_is_platform_failure(stderr: Seq<char>) -> bool {
    let s = lower(stderr);
    (exists|i: int| 0 <= i < platform_patterns().len() && contains(s, lower(#[trigger] platform_patterns()[i])))
        || (exists|i: int|
        0 <= i < platform_pairs().len() && contains(s, lower(#[trigger] platform_pairs()[i].0))
            && contains(s, lower(platform_pairs()[i].1)))
}

fn lower_contains(s: &[char], p: &str) -> (r: bool)
    ensures
        r == contains(s@, lower(p@)),
{
    let pl = lower_chars(chars_of(p).as_slice());
    contains_exec(s, pl.as_slice())
}

/// Determines whether a build failure is caused by platform-specific issues.
pub fn is_platform_failure(stderr: &str) -> (r: bool)
    ensures
        r == spec_is_platform_failure(stderr@),
{
    let s = lower_chars(chars_of(stderr).as_slice());
    let pats: [&str; 11] = [
        "failed to run custom build command",
        "could not find",
        "ld: library not found",
        "ld: framework not found",
        "ld: cannot find",
        "Unable to find",
        "not found in PATH",
        "LINK : fatal error",
        "error occurred: Command",
        "is not recognized as an internal or external command",
        "cannot specify features for packages outside of workspace",
    ];
    assert(pats@.map_values(|x: &str| x@) =~= platform_patterns());
    let mut k: usize = 0;
    while k < 11
        invariant
            k <= 11,
            s@ == lower(stderr@),
            pats@.map_values(|x: &str| x@) == platform_patterns(),
            forall|i: int| 0 <= i < k ==> !contains(s@, lower(#[trigger] platform_patterns()[i])),
        decreases 11 - k,
    {
        assert(pats@[k as int]@ == platform_patterns()[k as int]);
        if lower_contains(s.as_slice(), pats[k]) {
            return true;
        }
        k = k + 1;
    }
    let a0 = lower_contains(s.as_slice(), "linker") && lower_contains(s.as_slice(), "error");
    let a1 = lower_contains(s.as_slice(), "could not find") && lower_contains(s.as_slice(), "native");
    proof {
        assert(platform_patterns().len() == 11);
        assert(forall|i: int| 0 <= i < platform_patterns().len() ==> !contains(s@, lower(#[trigger] platform_patterns()[i])));
        assert(platform_pairs()[0] == ("linker"@, "error"@));
        if a0 {
            assert(contains(s@, lower(platform_pairs()[0].0)) && contains(s@, lower(platform_pairs()[0].1)));
        }
        if a1 {
            assert(contains(s@, lower(platform_pairs()[1].0)) && contains(s@, lower(platform_pairs()[1].1)));
        }
        assert(platform_pairs()[1] == ("could not find"@, "native"@));
        if exists|i: int|
            0 <= i < platform_pairs().len() && contains(s@, lower(#[trigger] platform_pairs()[i].0))
                && contains(s@, lower(platform_pairs()[i].1)) {
            let i = choose|i: int|
                0 <= i < platform_pairs().len() && contains(s@, lower(#[trigger] platform_pairs()[i].0))
                    && contains(s@, lower(platform_pairs()[i].1));
            assert(i == 0 || i == 1);
        }
    }
    a0 || a1
}

/// The key under which a failed docs.rs metadata build is recorded.
pub open spec fn failure_key(name: Seq<char>, version: Seq<char>) -> Seq<char> {
    name + seq!['@'] + version
}

/// Checks whether docs.rs metadata is known to fail for this crate at a
/// specific version, given the recorded failures.
pub fn is_docsrs_known_failure(failures: &[String], name: &str, version: &str) -> (r: bool)
    ensures
        r == exists|i: int| 0 <= i < failures@.len() && (#[trigger] failures@[i])@ == failure_key(name@, version@),
{
    let mut key = chars_of(name);
    key.push('@');
    append_str(&mut key, version);
    let mut k: usize = 0;
    while k < failures.len()
        invariant
            k <= failures@.len(),
            key@ == failure_key(name@, version@),
            forall|i: int| 0 <= i < k ==> (#[trigger] failures@[i])@ != failure_key(name@, version@),
        decreases failures.len() - k,
    {
        if chars_eq(chars_of(failures[k].as_str()).as_slice(), key.as_slice()) {
            return true;
        }
        k = k + 1;
    }
    false
}

// ---- the cargo rustdoc command line ----

/// A flag followed by its value, where there is a value.
pub open spec fn opt_pair(flag: Seq<char>, v: Option<Seq<char>>) -> Seq<Seq<char>> {
    match v {
        Some(x) => seq![flag, x],
        None => seq![],
    }
}

/// `xs` where `b` holds, nothing otherwise.
pub open spec fn when(b: bool, xs: Seq<Seq<char>>) -> Seq<Seq<char>> {
    if b {
        xs
    } else {
        seq![]
    }
}

/// The view of an optional `&str`.
pub open spec fn opt_str(v: Option<&str>) -> Option<Seq<char>> {
    match v {
        Some(x) => Some(x@),
        None => None,
    }
}

/// The target selection arguments.
pub open spec fn spec_target_args(
    package: Option<Seq<char>>,
    manifest_path: Option<Seq<char>>,
    target_dir: Option<Seq<char>>,
    use_lib: bool,
) -> Seq<Seq<char>> {
    when(use_lib, seq!["--lib"@]) + opt_pair("-p"@, package) + opt_pair(
        "--manifest-path"@,
        manifest_path,
    ) + opt_pair("--target-dir"@, target_dir)
}

/// The feature arguments.
pub open spec fn spec_feature_args(features: FeatureFlags) -> Seq<Seq<char>> {
    when(features.all_features, seq!["--all-features"@]) + when(
        features.no_default_features,
        seq!["--no-default-features"@],
    ) + when(
        features.features@.len() > 0,
        seq!["--features"@, join(string_views(features.features@), seq![','])],
    )
}

/// The output format, then after `--` the rustdoc flags: hidden items
/// always, private items on request, then the extra rustdoc arguments.
pub open spec fn spec_tail_args(private: bool, extra: Seq<Seq<char>>) -> Seq<Seq<char>> {
    seq![
        "--output-format"@,
        "json"@,
        "-Z"@,
        "unstable-options"@,
        "--"@,
        "--document-hidden-items"@,
    ] + when(private, seq!["--document-private-items"@]) + extra
}

/// The arguments of `cargo +nightly rustdoc ...` that produce rustdoc JSON.
pub open spec fn spec_rustdoc_args(
    package: Option<Seq<char>>,
    manifest_path: Option<Seq<char>>,
    target_dir: Option<Seq<char>>,
    features: FeatureFlags,
    private: bool,
    use_lib: bool,
    extra: Seq<Seq<char>>,
) -> Seq<Seq<char>> {
    seq!["+nightly"@, "rustdoc"@] + spec_target_args(package, manifest_path, target_dir, use_lib)
        + spec_feature_args(features) + spec_tail_args(private, extra)
}

/// Appends a string.
pub(crate) fn push_arg(out: &mut Vec<String>, a: &str)
    ensures
        string_views(final(out)@) == string_views(old(out)@).push(a@),
{
    let ghost before = string_views(out@);
    out.push(string_of(chars_of(a).as_slice()));
    assert(string_views(out@) =~= before.push(a@));
}

/// Appends a flag and its value, where there is a value.
fn push_opt_pair(out: &mut Vec<String>, flag: &str, v: Option<&str>)
    ensures
        string_views(final(out)@) == string_views(old(out)@) + opt_pair(flag@, opt_str(v)),
{
    let ghost before = string_views(out@);
    match v {
        Some(x) => {
            push_arg(out, flag);
            push_arg(out, x);
            assert(string_views(out@) =~= before + opt_pair(flag@, opt_str(v)));
        },
        None => {
            assert(string_views(out@) =~= before + opt_pair(flag@, opt_str(v)));
        },
    }
}

/// Appends a flag where `b` holds.
fn push_when(out: &mut Vec<String>, b: bool, flag: &str)
    ensures
        string_views(final(out)@) == string_views(old(out)@) + when(b, seq![flag@]),
{
    let ghost before = string_views(out@);
    if b {
        push_arg(out, flag);
    }
    assert(string_views(out@) =~= before + when(b, seq![flag@]));
}

fn push_target_args(
    out: &mut Vec<String>,
    package: Option<&str>,
    manifest_path: Option<&str>,
    target_dir: Option<&str>,
    use_lib: bool,
)
    ensures
        string_views(final(out)@) == string_views(old(out)@) + spec_target_args(
            opt_str(package),
            opt_str(manifest_path),
            opt_str(target_dir),
            use_lib,
        ),
{
    let ghost before = string_views(out@);
    push_when(out, use_lib, "--lib");
    let ghost a1 = string_views(out@);
    push_opt_pair(out, "-p", package);
    let ghost a2 = string_views(out@);
    push_opt_pair(out, "--manifest-path", manifest_path);
    let ghost a3 = string_views(out@);
    push_opt_pair(out, "--target-dir", target_dir);
    assert(string_views(out@) =~= before + spec_target_args(
        opt_str(package),
        opt_str(manifest_path),
        opt_str(target_dir),
        use_lib,
    ));
}

pub(crate) fn push_feature_args(out: &mut Vec<String>, features: &FeatureFlags)
    ensures
        string_views(final(out)@) == string_views(old(out)@) + spec_feature_args(*features),
{
    let ghost before = string_views(out@);
    push_when(out, features.all_features, "--all-features");
    push_when(out, features.no_default_features, "--no-default-features");
    let ghost a2 = string_views(out@);
    if features.features.len() > 0 {
        push_arg(out, "--features");
        let parts = crate::resolution::char_vecs(features.features.as_slice());
        let mut comma: Vec<char> = Vec::new();
        comma.push(',');
        assert(comma@ =~= seq![',']);
        let joined = crate::text::join_exec(parts.as_slice(), comma.as_slice());
        let js = string_of(joined.as_slice());
        push_arg(out, js.as_str());
    }
    assert(string_views(out@) =~= a2 + when(
        features.features@.len() > 0,
        seq!["--features"@, join(string_views(features.features@), seq![','])],
    ));
    assert(string_views(out@) =~= before + spec_feature_args(*features));
}

fn push_tail_args(out: &mut Vec<String>, private: bool, extra: &Vec<String>)
    ensures
        string_views(final(out)@) == string_views(old(out)@) + spec_tail_args(
            private,
            string_views(extra@),
        ),
{
    let ghost before = string_views(out@);
    push_arg(out, "--output-format");
    push_arg(out, "json");
    push_arg(out, "-Z");
    push_arg(out, "unstable-options");
    push_arg(out, "--");
    push_arg(out, "--document-hidden-items");
    push_when(out, private, "--document-private-items");
    let ghost a7 = string_views(out@);
    assert(a7 =~= before + seq![
        "--output-format"@,
        "json"@,
        "-Z"@,
        "unstable-options"@,
        "--"@,
        "--document-hidden-items"@,
    ] + when(private, seq!["--document-private-items"@]));
    let ghost ev = string_views(extra@);
    let mut i: usize = 0;
    while i < extra.len()
        invariant
            i <= extra@.len(),
            ev == string_views(extra@),
            string_views(out@) == a7 + ev.take(i as int),
        decreases extra.len() - i,
    {
        push_arg(out, extra[i].as_str());
        assert(ev.take(i + 1) =~= ev.take(i as int).push(ev[i as int]));
        i = i + 1;
    }
    assert(ev.take(i as int) =~= ev);
    assert(string_views(out@) =~= before + spec_tail_args(private, ev));
}

/// Builds the arguments of the `cargo +nightly rustdoc` command (the program
/// is `cargo`; the caller sets the working directory and `RUSTFLAGS`).
pub fn rustdoc_args(
    package: Option<&str>,
    manifest_path: Option<&str>,
    target_dir: Option<&str>,
    features: &FeatureFlags,
    private: bool,
    use_lib: bool,
    extra_rustdoc_args: &Vec<String>,
) -> (r: Vec<String>)
    ensures
        string_views(r@) == spec_rustdoc_args(
            opt_str(package),
            opt_str(manifest_path),
            opt_str(target_dir),
            *features,
            private,
            use_lib,
            string_views(extra_rustdoc_args@),
        ),
{
    let mut out: Vec<String> = Vec::new();
    push_arg(&mut out, "+nightly");
    push_arg(&mut out, "rustdoc");
    let ghost a0 = string_views(out@);
    assert(a0 =~= seq!["+nightly"@, "rustdoc"@]);
    push_target_args(&mut out, package, manifest_path, target_dir, use_lib);
    push_feature_args(&mut out, features);
    push_tail_args(&mut out, private, extra_rustdoc_args);
    out
}

/// The `RUSTFLAGS` value for extra rustc arguments: the arguments joined by
/// spaces, or nothing when there are none.
pub fn rustflags_value(rustc_args: &Vec<String>) -> (r: Option<String>)
    ensures
        match r {
            Some(v) => rustc_args@.len() > 0 && v@ == join(string_views(rustc_args@), seq![' ']),
            None => rustc_args@.len() == 0,
        },
{
    if rustc_args.len() == 0 {
        return None;
    }
    let parts = crate::resolution::char_vecs(rustc_args.as_slice());
    let mut sp: Vec<char> = Vec::new();
    sp.push(' ');
    assert(sp@ =~= seq![' ']);
    let joined = crate::text::join_exec(parts.as_slice(), sp.as_slice());
    Some(string_of(joined.as_slice()))
}

// ---- failures ----

/// The text cargo prints before the package name when it has no library.
pub open spec fn no_lib_needle() -> Seq<char> {
    "no library targets found in package `"@
}

/// The package named by cargo's "no library targets found in package
/// `<name>`" message, if stderr holds one (the first occurrence, up to the
/// closing backquote).
pub open spec fn spec_no_library_target(stderr: Seq<char>) -> Option<Seq<char>> {
    match find_from(stderr, no_lib_needle(), 0) {
        Some(i) => {
            let rest = stderr.skip(i + no_lib_needle().len());
            match first_index_of(rest, '`') {
                Some(e) => Some(rest.take(e)),
                None => None,
            }
        },
        None => None,
    }
}

/// Detects cargo's "no library targets found in package `<name>`" error and
/// extracts the package name.
pub fn parse_no_library_target(stderr: &str) -> (r: Option<String>)
    ensures
        match r {
            Some(n) => spec_no_library_target(stderr@) == Some(n@),
            None => spec_no_library_target(stderr@) is None,
        },
{
    let s = chars_of(stderr);
    let needle = chars_of("no library targets found in package `");
    match find_from_exec(s.as_slice(), needle.as_slice(), 0) {
        None => None,
        Some(i) => {
            proof {
                assert(find_from(s@, needle@, 0) == Some(i as int));
                lemma_find_from(s@, needle@, 0);
                assert(occurs_at(s@, needle@, i as int));
                assert(i + needle@.len() <= s@.len());
            }
            let nl = needle.len();
            let sl = s.len();
            assert(i + nl <= sl);
            let rest = slice_to_vec(s.as_slice(), i + nl, sl);
            assert(rest@ =~= s@.skip(i + no_lib_needle().len()));
            match index_of_char(rest.as_slice(), '`') {
                None => None,
                Some(e) => {
                    proof {
                        crate::text::lemma_first_index_of(rest@, '`');
                    }
                    let name = slice_to_vec(rest.as_slice(), 0, e);
                    assert(name@ =~= rest@.take(e as int));
                    Some(string_of(name.as_slice()))
                },
            }
        },
    }
}

/// The error of a failed `cargo rustdoc` run: the crate has no library
/// target, or rustdoc failed with the given stderr.
pub open spec fn spec_rustdoc_failure(stderr: Seq<char>) -> Seq<char> {
    stderr
}

/// Maps the stderr of a failed `cargo rustdoc` run to its error.
pub fn rustdoc_failure(stderr: &str) -> (r: GroxError)
    ensures
        match spec_no_library_target(stderr@) {
            Some(n) => r matches GroxError::NoLibraryTarget { name } && name@ == n,
            None => r matches GroxError::RustdocFailed { stderr: e } && e@ == stderr@,
        },
{
    match parse_no_library_target(stderr) {
        Some(name) => GroxError::NoLibraryTarget { name },
        None => GroxError::RustdocFailed { stderr: string_of(chars_of(stderr).as_slice()) },
    }
}

// ---- the feature cascade ----

/// A crate's `[package.metadata.docs.rs]` settings.
#[derive(Debug, Clone)]
pub struct DocsRsMetadata {
    /// Build with all features.
    pub all_features: bool,
    /// Build without the default feature.
    pub no_default_features: bool,
    /// Features to activate.
    pub features: Vec<String>,
    /// Extra rustdoc arguments.
    pub rustdoc_args: Vec<String>,
    /// Extra rustc arguments (passed through `RUSTFLAGS`).
    pub rustc_args: Vec<String>,
}

/// The strategies tried, in order, to build a crate's rustdoc JSON.
#[derive(Debug, Clone, Copy, PartialEq, Eq, Structural)]
pub enum BuildStage {
    /// The user's own feature flags; no fallback.
    Explicit,
    /// The crate's docs.rs settings.
    DocsRs,
    /// `--all-features`.
    AllFeatures,
    /// Default features; the last resort.
    DefaultFeatures,
}

/// One build to run: its stage, feature flags, and extra rustdoc and rustc
/// arguments.
pub struct BuildAttempt {
    /// Which strategy this is.
    pub stage: BuildStage,
    /// The feature flags to build with.
    pub features: FeatureFlags,
    /// Extra rustdoc arguments.
    pub rustdoc_args: Vec<String>,
    /// Extra rustc arguments.
    pub rustc_args: Vec<String>,
}

/// What follows a failed build.
pub enum BuildOutcome {
    /// Try again: record the docs.rs failure under the given key (where there
    /// is one), print the notice, and run the next attempt.
    Retry {
        /// The key to record as a known docs.rs failure.
        record_failure: Option<String>,
        /// The notice to print.
        notice: String,
        /// The next build.
        next: BuildAttempt,
    },
    /// Give up with this error.
    Fail(GroxError),
}

/// `a` is the attempt with the given stage, flags and arguments.
pub open spec fn attempt_is(
    a: BuildAttempt,
    stage: BuildStage,
    all: bool,
    no_default: bool,
    fs: Seq<Seq<char>>,
    rustdoc: Seq<Seq<char>>,
    rustc: Seq<Seq<char>>,
) -> bool {
    &&& a.stage == stage
    &&& a.features.all_features == all
    &&& a.features.no_default_features == no_default
    &&& string_views(a.features.features@) == fs
    &&& string_views(a.rustdoc_args@) == rustdoc
    &&& string_views(a.rustc_args@) == rustc
}

/// The last-resort attempt: default features, no extra arguments.
pub open spec fn is_default_attempt(a: BuildAttempt) -> bool {
    attempt_is(a, BuildStage::DefaultFeatures, false, false, seq![], seq![], seq![])
}

fn attempt(stage: BuildStage, all: bool, no_default: bool, fs: &Vec<String>, rustdoc: &Vec<String>, rustc: &Vec<String>) -> (r: BuildAttempt)
    ensures
        attempt_is(r, stage, all, no_default, string_views(fs@), string_views(rustdoc@), string_views(rustc@)),
{
    BuildAttempt {
        stage,
        features: FeatureFlags { all_features: all, no_default_features: no_default, features: clone_strings(fs) },
        rustdoc_args: clone_strings(rustdoc),
        rustc_args: clone_strings(rustc),
    }
}

fn default_attempt() -> (r: BuildAttempt)
    ensures
        is_default_attempt(r),
{
    let empty: Vec<String> = Vec::new();
    let r = attempt(BuildStage::DefaultFeatures, false, false, &empty, &empty, &empty);
    assert(string_views(empty@) =~= Seq::<Seq<char>>::empty());
    r
}

/// The notice printed when docs.rs settings are skipped.
pub open spec fn skip_notice(name: Seq<char>) -> Seq<char> {
    "[grox] Skipping docs.rs metadata for "@ + name + " (known failure)"@
}

/// The notice printed when docs.rs settings are used.
pub open spec fn docsrs_notice(name: Seq<char>) -> Seq<char> {
    "[grox] Using docs.rs metadata for "@ + name
}

/// The first build of the cascade and the notice to print before it. The
/// user's explicit flags are used as they are; otherwise the crate's docs.rs
/// settings, unless they are known to fail for this version (then default
/// features directly); without settings, `--all-features`.
pub fn cascade_start(
    features: &FeatureFlags,
    crate_name: &str,
    skip_docsrs: bool,
    docsrs: Option<&DocsRsMetadata>,
) -> (r: (BuildAttempt, Option<String>))
    ensures
        !spec_is_default(*features) ==> attempt_is(
            r.0,
            BuildStage::Explicit,
            features.all_features,
            features.no_default_features,
            string_views(features.features@),
            seq![],
            seq![],
        ) && r.1 is None,
        spec_is_default(*features) && skip_docsrs ==> is_default_attempt(r.0) && (r.1 matches Some(
            n,
        ) && n@ == skip_notice(crate_name@)),
        spec_is_default(*features) && !skip_docsrs ==> match docsrs {
            Some(m) => attempt_is(
                r.0,
                BuildStage::DocsRs,
                m.all_features,
                m.no_default_features,
                string_views(m.features@),
                string_views(m.rustdoc_args@),
                string_views(m.rustc_args@),
            ) && (r.1 matches Some(n) && n@ == docsrs_notice(crate_name@)),
            None => attempt_is(r.0, BuildStage::AllFeatures, true, false, seq![], seq![], seq![])
                && r.1 is None,
        },
{
    let empty: Vec<String> = Vec::new();
    assert(string_views(empty@) =~= Seq::<Seq<char>>::empty());
    if !features.is_default() {
        let a = attempt(
            BuildStage::Explicit,
            features.all_features,
            features.no_default_features,
            &features.features,
            &empty,
            &empty,
        );
        return (a, None);
    }
    if skip_docsrs {
        let mut n = chars_of("[grox] Skipping docs.rs metadata for ");
        append_str(&mut n, crate_name);
        append_str(&mut n, " (known failure)");
        return (default_attempt(), Some(string_of(n.as_slice())));
    }
    match docsrs {
        Some(m) => {
            let a = attempt(
                BuildStage::DocsRs,
                m.all_features,
                m.no_default_features,
                &m.features,
                &m.rustdoc_args,
                &m.rustc_args,
            );
            let mut n = chars_of("[grox] Using docs.rs metadata for ");
            append_str(&mut n, crate_name);
            (a, Some(string_of(n.as_slice())))
        },
        None => (attempt(BuildStage::AllFeatures, true, false, &empty, &empty, &empty), None),
    }
}

/// The notice printed when a build with fallback failed.
pub open spec fn retry_notice(stage: BuildStage, platform: bool) -> Seq<char> {
    let what = if stage == BuildStage::DocsRs {
        "docs.rs metadata"@
    } else {
        "--all-features"@
    };
    "[grox] Build with "@ + what + (if platform {
        " failed (platform issue), retrying with default features..."@
    } else {
        " failed, retrying with default features..."@
    })
}

/// What follows a failed build. The docs.rs and all-features stages fall
/// back to default features on any failure (a platform failure only changes
/// the notice), and a failed docs.rs build of a known version is recorded.
/// The explicit and default stages fail with the rustdoc error.
pub fn cascade_after_failure(
    stage: BuildStage,
    stderr: &str,
    crate_name: &str,
    crate_version: Option<&str>,
) -> (r: BuildOutcome)
    ensures
        (stage == BuildStage::Explicit || stage == BuildStage::DefaultFeatures) ==> (r matches BuildOutcome::Fail(
            e,
        ) && match spec_no_library_target(stderr@) {
            Some(n) => e matches GroxError::NoLibraryTarget { name } && name@ == n,
            None => e matches GroxError::RustdocFailed { stderr: t } && t@ == stderr@,
        }),
        (stage == BuildStage::DocsRs || stage == BuildStage::AllFeatures) ==> (r matches BuildOutcome::Retry {
            record_failure,
            notice,
            next,
        } && is_default_attempt(next) && notice@ == retry_notice(
            stage,
            spec_is_platform_failure(stderr@),
        ) && match crate_version {
            Some(v) => stage == BuildStage::DocsRs ==> (record_failure matches Some(k) && k@
                == failure_key(crate_name@, v@)),
            None => true,
        } && (stage == BuildStage::AllFeatures || crate_version is None ==> record_failure is None)),
{
    match stage {
        BuildStage::Explicit | BuildStage::DefaultFeatures => BuildOutcome::Fail(
            rustdoc_failure(stderr),
        ),
        BuildStage::DocsRs | BuildStage::AllFeatures => {
            let docs = match stage {
                BuildStage::DocsRs => true,
                _ => false,
            };
            let record = if docs {
                match crate_version {
                    Some(v) => {
                        let mut k = chars_of(crate_name);
                        k.push('@');
                        append_str(&mut k, v);
                        Some(string_of(k.as_slice()))
                    },
                    None => None,
                }
            } else {
                None
            };
            let mut n = chars_of("[grox] Build with ");
            if docs {
                append_str(&mut n, "docs.rs metadata");
            } else {
                append_str(&mut n, "--all-features");
            }
            if is_platform_failure(stderr) {
                append_str(&mut n, " failed (platform issue), retrying with default features...");
            } else {
                append_str(&mut n, " failed, retrying with default features...");
            }
            BuildOutcome::Retry {
                record_failure: record,
                notice: string_of(n.as_slice()),
                next: default_attempt(),
            }
        },
    }
}

} // verus!
