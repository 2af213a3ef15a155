//! External crate versions and JSON locations.
use vstd::prelude::*;
use crate::cli::{spec_cache_suffix, spec_is_default, FeatureFlags};
use crate::docgen::{path_join, path_join_exec};
use crate::error::GroxError;
use crate::text::{
    append, append_str, chars_of, replace_char, replace_char_exec, split, split_exec, string_of,
};

verus! {

/// What `str::parse::<u64>` accepts: an optional `+`, then one or more
/// ASCII digits, with a value that fits in 64 bits.
pub open spec fn parses_as_u64(s: Seq<char>) -> bool {
    let d = unsigned_digits(s);
    d.len() > 0 && all_digits(d) && digits_value(d) <= u64::MAX
}

/// `s` without one leading `+`.
pub open spec fn unsigned_digits(s: Seq<char>) -> Seq<char> {
    if s.len() > 0 && s[0] == '+' {
        s.skip(1)
    } else {
        s
    }
}

/// Every character is an ASCII digit.
pub open spec fn all_digits(d: Seq<char>) -> bool {
    forall|i: int| 0 <= i < d.len() ==> '0' <= #[trigger] d[i] && d[i] <= '9'
}

/// The value of a string of decimal digits.
pub open spec fn digits_value(d: Seq<char>) -> nat
    decreases d.len(),
{
    if d.len() == 0 {
        0
    } else {
        digits_value(d.drop_last()) * 10 + (d.last() as u32 - '0' as u32) as nat
    }
}

/// Parses a `u64` as `str::parse::<u64>` does.
pub fn parse_u64(s: &[char]) -> (r: Option<u64>)
    ensures
        r is Some == parses_as_u64(s@),
        r matches Some(v) ==> v as nat == digits_value(unsigned_digits(s@)),
{
    let start: usize = if s.len() > 0 && s[0] == '+' { 1 } else { 0 };
    let ghost d = unsigned_digits(s@);
    assert(d =~= s@.skip(start as int));
    if start >= s.len() {
        return None;
    }
    let mut v: u64 = 0;
    let mut i: usize = start;
    assert(s@.subrange(start as int, start as int) =~= Seq::<char>::empty());
    while i < s.len()
        invariant
            start <= i <= s@.len(),
            d =~= s@.skip(start as int),
            d == unsigned_digits(s@),
            forall|j: int| start <= j < i ==> '0' <= #[trigger] s@[j] && s@[j] <= '9',
            v as nat == digits_value(s@.subrange(start as int, i as int)),
        decreases s.len() - i,
    {
        let c = s[i];
        assert(s@.subrange(start as int, i + 1).drop_last() =~= s@.subrange(start as int, i as int));
        if !('0' <= c && c <= '9') {
            assert(d[i - start] == c);
            assert(!all_digits(d));
            return None;
        }
        let digit = (c as u32 - '0' as u32) as u64;
        if v > (u64::MAX - digit) / 10 {
            proof {
                assert(s@.subrange(start as int, i + 1) =~= d.take((i - start) as int + 1));
                assert(v * 10 + digit > u64::MAX) by (nonlinear_arith)
                    requires v > (u64::MAX - digit) / 10, digit <= 9;
                assert(digits_value(d.take((i - start) as int + 1)) == v * 10 + digit);
                if all_digits(d) {
                    lemma_digits_prefix_mono(d, (i - start) as int + 1);
                }
            }
            return None;
        }
        v = v * 10 + digit;
        i = i + 1;
    }
    assert(s@.subrange(start as int, s@.len() as int) =~= d);
    assert(all_digits(d));
    Some(v)
}

/// A longer digit prefix has at least the value of a shorter one.
proof fn lemma_digits_prefix_mono(d: Seq<char>, k: int)
    requires
        0 <= k <= d.len(),
        forall|i: int| 0 <= i < d.len() ==> '0' <= #[trigger] d[i] && d[i] <= '9',
    ensures
        digits_value(d.take(k)) <= digits_value(d),
    decreases d.len() - k,
{
    if k < d.len() {
        lemma_digits_prefix_mono(d, k + 1);
        assert(d.take(k + 1).drop_last() =~= d.take(k));
    } else {
        assert(d.take(k) =~= d);
    }
}

/// A partial version: one or two `.`-separated parts, each a `u64`.
pub open spec fn spec_is_partial_version(v: Seq<char>) -> bool {
    let parts = split(v, seq!['.']);
    (parts.len() == 1 || parts.len() == 2) && forall|i: int|
        0 <= i < parts.len() ==> parses_as_u64(#[trigger] parts[i])
}

/// Checks whether a version string is a partial version (`1` or `1.40`).
pub fn is_partial_version(v: &str) -> (r: bool)
    ensures
        r == spec_is_partial_version(v@),
{
    let dot: Vec<char> = vec!['.'];
    assert(dot@ =~= seq!['.']);
    let parts = split_exec(chars_of(v).as_slice(), dot.as_slice());
    let ghost pv = parts@.map_values(|x: Vec<char>| x@);
    if !(parts.len() == 1 || parts.len() == 2) {
        return false;
    }
    let mut k: usize = 0;
    while k < parts.len()
        invariant
            k <= parts@.len(),
            pv == parts@.map_values(|x: Vec<char>| x@),
            pv == split(v@, seq!['.']),
            forall|i: int| 0 <= i < k ==> parses_as_u64(#[trigger] pv[i]),
        decreases parts.len() - k,
    {
        assert(pv[k as int] == parts@[k as int]@);
        if parse_u64(parts[k].as_slice()).is_none() {
            assert(!parses_as_u64(pv[k as int]));
            return false;
        }
        k = k + 1;
    }
    true
}

/// Where the rustdoc JSON of an external crate is kept:
/// `<crate_dir>/target/doc/<name>.json`, with the feature cache suffix
/// before `.json` for non-default features and hyphens as underscores.
pub open spec fn spec_compute_json_path(crate_dir: Seq<char>, name: Seq<char>, f: FeatureFlags) -> Seq<char> {
    let normalized = replace_char(name, '-', '_');
    let file = if spec_is_default(f) {
        normalized + ".json"@
    } else {
        normalized + spec_cache_suffix(f) + ".json"@
    };
    path_join(path_join(path_join(crate_dir, "target"@), "doc"@), file)
}

/// Computes the JSON output path for an external crate, accounting for
/// feature flags.
pub fn compute_json_path(crate_dir: &str, name: &str, features: &FeatureFlags) -> (r: String)
    ensures
        r@ == spec_compute_json_path(crate_dir@, name@, *features),
{
    let mut file = replace_char_exec(chars_of(name).as_slice(), '-', '_');
    if !features.is_default() {
        let suffix = features.cache_suffix();
        append_str(&mut file, suffix.as_str());
    }
    append_str(&mut file, ".json");
    let t = path_join_exec(chars_of(crate_dir).as_slice(), chars_of("target").as_slice());
    let d = path_join_exec(t.as_slice(), chars_of("doc").as_slice());
    string_of(path_join_exec(d.as_slice(), file.as_slice()).as_slice())
}

// ---------------------------------------------------------------------------
// Version resolution
// ---------------------------------------------------------------------------

/// What `semver::Version::parse` gives for a text: nothing when the text is
/// not a semantic version, else the version's major and minor numbers.
pub uninterp spec fn semver_parse(s: Seq<char>) -> Option<(u64, u64)>;

/// The text `semver::Version::to_string` gives for the version parsed from
/// a text.
pub uninterp spec fn semver_text(s: Seq<char>) -> Seq<char>;

/// Whether the version parsed from `a` sorts before the one parsed from `b`
/// (`semver::Version`'s order: major, minor, patch, pre-release, build).
pub uninterp spec fn semver_lt(a: Seq<char>, b: Seq<char>) -> bool;

/// Parses a semantic version with `semver::Version::parse`; the contract
/// claims only that the result is the parser's, by name: the version's
/// major and minor numbers, or nothing when the text does not parse.
#[verifier::external_body]
fn parse_semver(s: &str) -> (r: Option<(u64, u64)>)
    ensures
        r == semver_parse(s@),
{
    match semver::Version::parse(s) {
        Ok(v) => Some((v.major, v.minor)),
        Err(_) => None,
    }
}

/// The canonical text of a version (`semver::Version::parse`, then
/// `to_string`), by name.
#[verifier::external_body]
fn canonical_semver(s: &str) -> (r: String)
    requires
        semver_parse(s@) is Some,
    ensures
        r@ == semver_text(s@),
{
    match semver::Version::parse(s) {
        Ok(v) => v.to_string(),
        Err(_) => String::new(),
    }
}

/// Compares two versions with `semver::Version`'s `<`, by name.
#[verifier::external_body]
fn semver_less(a: &str, b: &str) -> (r: bool)
    requires
        semver_parse(a@) is Some,
        semver_parse(b@) is Some,
    ensures
        r == semver_lt(a@, b@),
{
    match (semver::Version::parse(a), semver::Version::parse(b)) {
        (Ok(x), Ok(y)) => x < y,
        _ => false,
    }
}

/// The value of a part that parses as a `u64`.
pub open spec fn part_value(p: Seq<char>) -> Option<nat> {
    if parses_as_u64(p) {
        Some(digits_value(unsigned_digits(p)))
    } else {
        None
    }
}

/// Whether a version with this major and minor number matches a partial
/// version: one part that is the major number, or two that are the major
/// and minor numbers.
pub open spec fn spec_version_matches_partial(major: u64, minor: u64, parts: Seq<Seq<char>>) -> bool {
    if parts.len() == 1 {
        part_value(parts[0]) == Some(major as nat)
    } else if parts.len() == 2 {
        part_value(parts[0]) == Some(major as nat) && part_value(parts[1]) == Some(minor as nat)
    } else {
        false
    }
}

/// Returns whether a full version matches a partial version pattern.
pub fn version_matches_partial(major: u64, minor: u64, parts: &Vec<Vec<char>>) -> (r: bool)
    ensures
        r == spec_version_matches_partial(major, minor, parts@.map_values(|p: Vec<char>| p@)),
{
    let ghost pv = parts@.map_values(|p: Vec<char>| p@);
    if parts.len() == 1 {
        assert(pv[0] == parts@[0]@);
        match parse_u64(parts[0].as_slice()) {
            Some(v) => v == major,
            None => false,
        }
    } else if parts.len() == 2 {
        assert(pv[0] == parts@[0]@);
        assert(pv[1] == parts@[1]@);
        let a = match parse_u64(parts[0].as_slice()) {
            Some(v) => v == major,
            None => false,
        };
        let b = match parse_u64(parts[1].as_slice()) {
            Some(v) => v == minor,
            None => false,
        };
        a && b
    } else {
        false
    }
}

/// The published (not yanked) versions, in order, that parse and match the
/// partial version.
pub open spec fn candidates(vs: Seq<(String, bool)>, parts: Seq<Seq<char>>) -> Seq<Seq<char>>
    decreases vs.len(),
{
    if vs.len() == 0 {
        seq![]
    } else {
        let prev = candidates(vs.drop_last(), parts);
        let (num, yanked) = vs.last();
        match semver_parse(num@) {
            Some(mm) => if !yanked && spec_version_matches_partial(mm.0, mm.1, parts) {
                prev.push(num@)
            } else {
                prev
            },
            None => prev,
        }
    }
}

/// The greatest of the candidates: each one replaces the best so far when
/// the best sorts before it.
pub open spec fn greatest(c: Seq<Seq<char>>) -> Seq<char>
    decreases c.len(),
{
    if c.len() <= 1 {
        c[0]
    } else {
        let b = greatest(c.drop_last());
        if semver_lt(b, c.last()) {
            c.last()
        } else {
            b
        }
    }
}

/// What a version request resolves to: a full version as it is; a partial
/// one (`1`, `1.40`) to the greatest published matching version (an error
/// message when none matches); anything else (a pre-release) as it is.
pub open spec fn spec_resolve_version(vs: Seq<(String, bool)>, input: Seq<char>) -> Result<Seq<char>, Seq<char>> {
    if semver_parse(input) is Some {
        Ok(input)
    } else if spec_is_partial_version(input) {
        let c = candidates(vs, split(input, seq!['.']));
        if c.len() == 0 {
            Err("no version matching '"@ + input + "' found"@)
        } else {
            Ok(semver_text(greatest(c)))
        }
    } else {
        Ok(input)
    }
}

/// Every candidate parses.
proof fn lemma_candidates_parse(vs: Seq<(String, bool)>, parts: Seq<Seq<char>>)
    ensures
        forall|i: int| 0 <= i < candidates(vs, parts).len() ==> semver_parse(#[trigger] candidates(vs, parts)[i]) is Some,
    decreases vs.len(),
{
    if vs.len() > 0 {
        lemma_candidates_parse(vs.drop_last(), parts);
    }
}

/// The greatest candidate is one of them.
proof fn lemma_greatest_member(c: Seq<Seq<char>>)
    requires
        c.len() > 0,
    ensures
        c.contains(greatest(c)),
    decreases c.len(),
{
    if c.len() > 1 {
        lemma_greatest_member(c.drop_last());
        let b = greatest(c.drop_last());
        if !semver_lt(b, c.last()) {
            let k = choose|k: int| 0 <= k < c.drop_last().len() && c.drop_last()[k] == b;
            assert(c[k] == b);
        } else {
            assert(c[c.len() - 1] == c.last());
        }
    } else {
        assert(c[0] == greatest(c));
    }
}

/// Resolves a version request against the crate's published versions
/// (number and whether it was yanked, as crates.io lists them).
pub fn resolve_version(versions: &Vec<(String, bool)>, name: &str, version_input: &str) -> (r: Result<String, GroxError>)
    ensures
        match r {
            Ok(v) => spec_resolve_version(versions@, version_input@) == Ok::<Seq<char>, Seq<char>>(v@),
            Err(e) => e matches GroxError::ExternalFetchFailed { name: n, details }
                && n@ == name@ && spec_resolve_version(versions@, version_input@) == Err::<Seq<char>, Seq<char>>(details@),
        },
{
    if parse_semver(version_input).is_some() {
        return Ok(string_of(chars_of(version_input).as_slice()));
    }
    if !is_partial_version(version_input) {
        return Ok(string_of(chars_of(version_input).as_slice()));
    }
    let dot: Vec<char> = vec!['.'];
    assert(dot@ =~= seq!['.']);
    let parts = split_exec(chars_of(version_input).as_slice(), dot.as_slice());
    let ghost pv = parts@.map_values(|p: Vec<char>| p@);
    let mut cands: Vec<String> = Vec::new();
    let mut i: usize = 0;
    while i < versions.len()
        invariant
            i <= versions@.len(),
            pv == parts@.map_values(|p: Vec<char>| p@),
            pv == split(version_input@, seq!['.']),
            crate::cli::string_views(cands@) == candidates(versions@.take(i as int), pv),
        decreases versions.len() - i,
    {
        assert(versions@.take(i + 1).drop_last() =~= versions@.take(i as int));
        assert(versions@.take(i + 1).last() == versions@[i as int]);
        let (num, yanked) = (&versions[i].0, versions[i].1);
        match parse_semver(num.as_str()) {
            Some(mm) => {
                if !yanked && version_matches_partial(mm.0, mm.1, &parts) {
                    let ghost before = crate::cli::string_views(cands@);
                    cands.push(string_of(chars_of(num.as_str()).as_slice()));
                    assert(crate::cli::string_views(cands@) =~= before.push(num@));
                }
            },
            None => {},
        }
        i = i + 1;
    }
    assert(versions@.take(i as int) =~= versions@);
    let ghost cv = crate::cli::string_views(cands@);
    if cands.len() == 0 {
        let mut d = chars_of("no version matching '");
        append_str(&mut d, version_input);
        append_str(&mut d, "' found");
        return Err(GroxError::ExternalFetchFailed {
            name: string_of(chars_of(name).as_slice()),
            details: string_of(d.as_slice()),
        });
    }
    proof {
        lemma_candidates_parse(versions@, pv);
    }
    let mut best: usize = 0;
    let mut k: usize = 1;
    assert(cv.take(1) =~= seq![cv[0]]);
    while k < cands.len()
        invariant
            1 <= k <= cands@.len(),
            best < cands@.len(),
            cv == crate::cli::string_views(cands@),
            cv == candidates(versions@, pv),
            forall|j: int| 0 <= j < cv.len() ==> semver_parse(#[trigger] cv[j]) is Some,
            cands@[best as int]@ == greatest(cv.take(k as int)),
        decreases cands.len() - k,
    {
        assert(cv.take(k + 1).drop_last() =~= cv.take(k as int));
        assert(cv.take(k + 1).last() == cv[k as int]);
        assert(cv[best as int] == cands@[best as int]@);
        assert(cv[k as int] == cands@[k as int]@);
        if semver_less(cands[best].as_str(), cands[k].as_str()) {
            best = k;
        }
        k = k + 1;
    }
    assert(cv.take(k as int) =~= cv);
    assert(cv[best as int] == cands@[best as int]@);
    Ok(canonical_semver(cands[best].as_str()))
}

// ---------------------------------------------------------------------------
// Archive entries
// ---------------------------------------------------------------------------

/// A tar entry's path with the expected `{name}-{version}` top directory
/// taken off (`Path::strip_prefix`, component by component); nothing for
/// entries outside it.
pub open spec fn spec_strip_tar_prefix(raw: Seq<char>, prefix: Seq<char>) -> Option<Seq<char>> {
    let a = crate::resolve::path_components(raw);
    let b = crate::resolve::path_components(prefix);
    if b.len() <= a.len() && a.take(b.len() as int) == b {
        Some(crate::session::render_components(a.skip(b.len() as int)))
    } else {
        None
    }
}

/// Strips the expected top-level prefix from a tar entry path.
pub fn strip_tar_prefix(raw: &str, prefix: &str) -> (r: Option<String>)
    ensures
        match r {
            Some(x) => spec_strip_tar_prefix(raw@, prefix@) == Some(x@),
            None => spec_strip_tar_prefix(raw@, prefix@) is None,
        },
{
    let a = crate::resolve::path_components_exec(raw);
    let b = crate::resolve::path_components_exec(prefix);
    let ghost av = a@.map_values(|v: Vec<char>| v@);
    let ghost bv = b@.map_values(|v: Vec<char>| v@);
    if b.len() > a.len() {
        return None;
    }
    let mut i: usize = 0;
    while i < b.len()
        invariant
            i <= b@.len() <= a@.len(),
            av == a@.map_values(|v: Vec<char>| v@),
            bv == b@.map_values(|v: Vec<char>| v@),
            av == crate::resolve::path_components(raw@),
            bv == crate::resolve::path_components(prefix@),
            av.take(i as int) == bv.take(i as int),
        decreases b.len() - i,
    {
        assert(av[i as int] == a@[i as int]@);
        assert(bv[i as int] == b@[i as int]@);
        if !crate::text::chars_eq(a[i].as_slice(), b[i].as_slice()) {
            assert(av.take(bv.len() as int)[i as int] == av[i as int]);
            assert(bv[i as int] != av[i as int]);
            assert(av.take(bv.len() as int) != bv);
            return None;
        }
        assert(av.take(i + 1) =~= av.take(i as int).push(av[i as int]));
        assert(bv.take(i + 1) =~= bv.take(i as int).push(bv[i as int]));
        i = i + 1;
    }
    assert(bv.take(bv.len() as int) =~= bv);
    let mut rest: Vec<Vec<char>> = Vec::new();
    let mut k: usize = b.len();
    let ghost start = b.len() as int;
    while k < a.len()
        invariant
            b@.len() <= k <= a@.len(),
            start == b@.len(),
            av == a@.map_values(|v: Vec<char>| v@),
            rest@.map_values(|v: Vec<char>| v@) == av.subrange(start, k as int),
        decreases a.len() - k,
    {
        let ghost before = rest@.map_values(|v: Vec<char>| v@);
        rest.push(crate::text::copy_chars(a[k].as_slice()));
        assert(rest@.map_values(|v: Vec<char>| v@) =~= before.push(av[k as int]));
        assert(av.subrange(start, k + 1) =~= av.subrange(start, k as int).push(av[k as int]));
        k = k + 1;
    }
    let ghost rv = av.skip(start);
    assert(rest@.map_values(|v: Vec<char>| v@) =~= rv);
    let mut sep: Vec<char> = Vec::new();
    sep.push('/');
    assert(sep@ =~= seq!['/']);
    if rest.len() > 0 && rest[0].len() == 1 && rest[0][0] == '/' {
        assert(rv[0] == rest@[0]@);
        assert(rv[0] =~= crate::resolve::root_component());
        let tail = crate::text::join_from(rest.as_slice(), 1, sep.as_slice());
        let mut out: Vec<char> = Vec::new();
        out.push('/');
        append(&mut out, tail.as_slice());
        return Some(string_of(out.as_slice()));
    }
    proof {
        if rv.len() > 0 && rv[0] == crate::resolve::root_component() {
            assert(rv[0] == rest@[0]@);
            assert(rest@[0]@.len() == 1 && rest@[0]@[0] == '/');
        }
    }
    Some(string_of(crate::text::join_exec(rest.as_slice(), sep.as_slice()).as_slice()))
}

} // verus!
