//! Command-line options, query-path parsing and feature flags.
use vstd::prelude::*;
use crate::error::GroxError;
use crate::sort::{entry_views, sort_entries, stable_sort, EntryView, SortEntry};
use crate::text::{
    append, append_str, chars_of, first_index_of, hex16_exec, hex_digits, index_of_char,
    segments, segments_exec, slice_to_vec, string_of, trim, trim_exec,
};
use crate::types::ItemKind;

verus! {

/// Parsed command-line options.
#[derive(Debug, Clone)]
pub struct Cli {
    /// Rust path to query (e.g. `tokio::sync::Mutex`, `serde@1.0`).
    pub path: Option<String>,
    /// Show only item names.
    pub brief: bool,
    /// Show full rendered documentation per item.
    pub docs: bool,
    /// Show source code instead of docs.
    pub source: bool,
    /// Full-text search across documentation.
    pub search: Option<String>,
    /// Filter by item kind.
    pub kind: Option<KindFilter>,
    /// Include non-public items.
    pub private: bool,
    /// JSON Lines output.
    pub json: bool,
    /// Show trait implementations, optionally filtered by trait name (empty = all).
    pub impls: Option<String>,
    /// List all public items recursively.
    pub recursive: bool,
    /// Show the crate's README.
    pub readme: bool,
    /// Path to Cargo.toml.
    pub manifest_path: Option<String>,
    /// Features to activate.
    pub features: Vec<String>,
    /// Activate all available features.
    pub all_features: bool,
    /// Do not activate the `default` feature.
    pub no_default_features: bool,
    /// Clear the global documentation cache and exit.
    pub clear_cache: bool,
}

/// Item kinds accepted by the `--kind` flag.
#[derive(Debug, Clone, Copy, PartialEq, Eq, Structural)]
pub enum KindFilter {
    Fn,
    Struct,
    Enum,
    Trait,
    Type,
    Const,
    Mod,
    Macro,
}

/// The kind each filter value stands for.
pub open spec fn spec_filter_kind(f: KindFilter) -> ItemKind {
    match f {
        KindFilter::Fn => ItemKind::Function,
        KindFilter::Struct => ItemKind::Struct,
        KindFilter::Enum => ItemKind::Enum,
        KindFilter::Trait => ItemKind::Trait,
        KindFilter::Type => ItemKind::TypeAlias,
        KindFilter::Const => ItemKind::Constant,
        KindFilter::Mod => ItemKind::Module,
        KindFilter::Macro => ItemKind::Macro,
    }
}

impl From<KindFilter> for ItemKind {
    fn from(filter: KindFilter) -> (r: ItemKind) {
        match filter {
            KindFilter::Fn => ItemKind::Function,
            KindFilter::Struct => ItemKind::Struct,
            KindFilter::Enum => ItemKind::Enum,
            KindFilter::Trait => ItemKind::Trait,
            KindFilter::Type => ItemKind::TypeAlias,
            KindFilter::Const => ItemKind::Constant,
            KindFilter::Mod => ItemKind::Module,
            KindFilter::Macro => ItemKind::Macro,
        }
    }
}

impl vstd::std_specs::convert::FromSpecImpl<KindFilter> for ItemKind {
    open spec fn obeys_from_spec() -> bool {
        true
    }

    open spec fn from_spec(v: KindFilter) -> ItemKind {
        spec_filter_kind(v)
    }
}

/// The output tier selected by the flags.
#[derive(Debug, Clone, Copy, PartialEq, Eq, Structural)]
pub enum OutputMode {
    /// Plain text (the default).
    Text,
    /// Item names only.
    Brief,
    /// JSON Lines.
    Json,
}

impl Cli {
    /// The output mode: JSON wins over brief, which wins over text.
    pub fn output_mode(&self) -> (r: OutputMode)
        ensures
            r == if self.json {
                OutputMode::Json
            } else if self.brief {
                OutputMode::Brief
            } else {
                OutputMode::Text
            },
    {
        if self.json {
            OutputMode::Json
        } else if self.brief {
            OutputMode::Brief
        } else {
            OutputMode::Text
        }
    }
}

/// How the crate was specified in the query.
#[derive(Debug, Clone, PartialEq, Eq)]
pub enum CrateSpec {
    /// No path provided: query the current crate root.
    CurrentCrate,
    /// First segment is a crate name.
    Named(String),
    /// Explicit version pin: "tokio@1.40.0".
    Versioned {
        /// The crate name.
        name: String,
        /// The version string.
        version: String,
    },
}

/// Parsed query path from CLI input.
#[derive(Debug, Clone, PartialEq, Eq)]
pub struct QueryPath {
    /// How the crate was specified.
    pub crate_spec: CrateSpec,
    /// Item segments after the crate name.
    pub item_segments: Vec<String>,
}

/// The abstract value of a crate specification.
pub enum CrateSpecView {
    CurrentCrate,
    Named(Seq<char>),
    Versioned(Seq<char>, Seq<char>),
}

impl CrateSpec {
    /// The abstract value of this specification.
    pub open spec fn view(&self) -> CrateSpecView {
        match self {
            CrateSpec::CurrentCrate => CrateSpecView::CurrentCrate,
            CrateSpec::Named(n) => CrateSpecView::Named(n@),
            CrateSpec::Versioned { name, version } => CrateSpecView::Versioned(name@, version@),
        }
    }
}

/// The views of a list of strings.
pub open spec fn string_views(v: Seq<String>) -> Seq<Seq<char>> {
    v.map_values(|s: String| s@)
}

/// What parsing the (trimmed) input gives: the crate specification and the
/// item segments, or the message of an invalid-query error.
pub open spec fn spec_parse_query(input: Seq<char>) -> Result<
    (CrateSpecView, Seq<Seq<char>>),
    Seq<char>,
> {
    let t = trim(input);
    if t.len() == 0 {
        Ok((CrateSpecView::CurrentCrate, seq![]))
    } else if t[0] == '@' {
        Err("the @ prefix is no longer supported, use: grox "@ + t.skip(1))
    } else {
        let segs = segments(t);
        let first = segs[0];
        match first_index_of(first, '@') {
            Some(a) => if first.skip(a + 1).len() == 0 {
                Err("missing version after @"@)
            } else {
                Ok((CrateSpecView::Versioned(first.take(a), first.skip(a + 1)), segs.skip(1)))
            },
            None => Ok((CrateSpecView::Named(first), segs.skip(1))),
        }
    }
}

/// Copies a list of strings.
pub fn clone_strings(v: &Vec<String>) -> (r: Vec<String>)
    ensures
        string_views(r@) == string_views(v@),
{
    let mut r: Vec<String> = Vec::new();
    let mut i: usize = 0;
    while i < v.len()
        invariant
            i <= v@.len(),
            string_views(r@) == string_views(v@).take(i as int),
        decreases v.len() - i,
    {
        let ghost old_r = string_views(r@);
        r.push(string_of(chars_of(v[i].as_str()).as_slice()));
        assert(string_views(r@) =~= old_r.push(v@[i as int]@));
        assert(string_views(v@).take(i + 1) =~= string_views(v@).take(i as int).push(v@[i as int]@));
        i = i + 1;
    }
    assert(string_views(v@).take(v@.len() as int) =~= string_views(v@));
    r
}

/// Converts `parts[from..]` to strings.
pub fn strings_from(parts: &Vec<Vec<char>>, from: usize) -> (r: Vec<String>)
    requires
        from <= parts@.len(),
    ensures
        string_views(r@) == parts@.map_values(|v: Vec<char>| v@).skip(from as int),
{
    let ghost ps = parts@.map_values(|v: Vec<char>| v@);
    let mut r: Vec<String> = Vec::new();
    let mut i = from;
    while i < parts.len()
        invariant
            from <= i <= parts@.len(),
            ps == parts@.map_values(|v: Vec<char>| v@),
            string_views(r@) == ps.subrange(from as int, i as int),
        decreases parts.len() - i,
    {
        let s = string_of(parts[i].as_slice());
        let ghost old_r = string_views(r@);
        r.push(s);
        assert(string_views(r@) =~= old_r.push(ps[i as int]));
        i = i + 1;
        assert(string_views(r@) =~= ps.subrange(from as int, i as int));
    }
    assert(ps.subrange(from as int, ps.len() as int) =~= ps.skip(from as int));
    r
}

impl QueryPath {
    /// Parses a CLI input string into a `QueryPath`.
    ///
    /// Returns an error for invalid syntax like `@crate` or `crate@`.
    pub fn parse(input: &str) -> (r: Result<QueryPath, GroxError>)
        ensures
            match spec_parse_query(input@) {
                Ok((spec, segs)) => r matches Ok(q) && q.crate_spec.view() == spec && string_views(
                    q.item_segments@,
                ) == segs,
                Err(msg) => r matches Err(GroxError::InvalidQuery { message }) && message@ == msg,
            },
    {
        let raw = chars_of(input);
        let t = trim_exec(raw.as_slice());
        if t.len() == 0 {
            let r = QueryPath { crate_spec: CrateSpec::CurrentCrate, item_segments: Vec::new() };
            assert(string_views(r.item_segments@) =~= Seq::<Seq<char>>::empty());
            return Ok(r);
        }
        if t[0] == '@' {
            let mut m: Vec<char> = Vec::new();
            append_str(&mut m, "the @ prefix is no longer supported, use: grox ");
            let rest = slice_to_vec(t.as_slice(), 1, t.len());
            append(&mut m, rest.as_slice());
            assert(rest@ =~= t@.skip(1));
            return Err(GroxError::InvalidQuery { message: string_of(m.as_slice()) });
        }
        let segs = segments_exec(t.as_slice());
        proof {
            crate::text::lemma_split_nonempty(t@, crate::text::path_sep());
        }
        let ghost sv = segs@.map_values(|v: Vec<char>| v@);
        assert(sv[0] == segs@[0]@);
        let first = &segs[0];
        proof {
            crate::text::lemma_first_index_of(first@, '@');
        }
        match index_of_char(first.as_slice(), '@') {
            Some(a) => {
                let version = slice_to_vec(first.as_slice(), a + 1, first.len());
                assert(version@ =~= first@.skip(a + 1));
                if version.len() == 0 {
                    return Err(
                        GroxError::InvalidQuery {
                            message: string_of(chars_of("missing version after @").as_slice()),
                        },
                    );
                }
                let name = slice_to_vec(first.as_slice(), 0, a);
                assert(name@ =~= first@.take(a as int));
                let items = strings_from(&segs, 1);
                Ok(
                    QueryPath {
                        crate_spec: CrateSpec::Versioned {
                            name: string_of(name.as_slice()),
                            version: string_of(version.as_slice()),
                        },
                        item_segments: items,
                    },
                )
            },
            None => {
                let items = strings_from(&segs, 1);
                Ok(
                    QueryPath {
                        crate_spec: CrateSpec::Named(string_of(first.as_slice())),
                        item_segments: items,
                    },
                )
            },
        }
    }
}

/// Feature flags for doc generation.
#[derive(Debug, Clone)]
pub struct FeatureFlags {
    /// Activate all available features.
    pub all_features: bool,
    /// Do not activate the `default` feature.
    pub no_default_features: bool,
    /// Specific features to activate.
    pub features: Vec<String>,
}

/// DJB2 over a byte sequence: start at 5381, then `h * 33 + byte` for each
/// byte, wrapping at 2^64.
pub open spec fn djb2(bytes: Seq<u8>) -> u64
    decreases bytes.len(),
{
    if bytes.len() == 0 {
        5381
    } else {
        vstd::wrapping::u64_specs::wrapping_add(
            vstd::wrapping::u64_specs::wrapping_mul(djb2(bytes.drop_last()), 33),
            bytes.last() as u64,
        )
    }
}

/// DJB2 hash of the UTF-8 bytes of `s`.
pub fn djb2_hash(s: &str) -> (r: u64)
    ensures
        r == djb2(vstd::utf8::encode_utf8(s@)),
{
    let bytes = s.as_bytes();
    let mut hash: u64 = 5381;
    let mut i: usize = 0;
    assert(bytes@.take(0) =~= Seq::<u8>::empty());
    while i < bytes.len()
        invariant
            i <= bytes@.len(),
            bytes@ == vstd::utf8::encode_utf8(s@),
            hash == djb2(bytes@.take(i as int)),
        decreases bytes.len() - i,
    {
        hash = hash.wrapping_mul(33).wrapping_add(bytes[i] as u64);
        assert(bytes@.take(i + 1).drop_last() =~= bytes@.take(i as int));
        i = i + 1;
    }
    assert(bytes@.take(bytes@.len() as int) =~= bytes@);
    hash
}

/// The features sorted as strings.
pub open spec fn sorted_features(fs: Seq<Seq<char>>) -> Seq<Seq<char>> {
    stable_sort(Seq::new(fs.len(), |i: int| (0u64, fs[i], i as usize))).map_values(
        |e: EntryView| e.1,
    )
}

/// The canonical text hashed for the cache suffix.
pub open spec fn canonical_features(all: bool, no_default: bool, fs: Seq<Seq<char>>) -> Seq<
    char,
> {
    (if all { "all_features;"@ } else { seq![] }) + (if no_default { "no_default;"@ } else { seq![] })
        + (if fs.len() > 0 {
        "features="@ + crate::text::join(sorted_features(fs), seq![',']) + seq![';']
    } else {
        seq![]
    })
}

/// No feature flag is set.
pub open spec fn spec_is_default(f: FeatureFlags) -> bool {
    !f.all_features && !f.no_default_features && f.features@.len() == 0
}

/// The cache suffix: empty for default flags, otherwise `-feat_` and the
/// 16-hex-digit DJB2 hash of the canonical flag text.
pub open spec fn spec_cache_suffix(f: FeatureFlags) -> Seq<char> {
    if spec_is_default(f) {
        seq![]
    } else {
        "-feat_"@ + hex_digits(
            djb2(
                vstd::utf8::encode_utf8(
                    canonical_features(
                        f.all_features,
                        f.no_default_features,
                        string_views(f.features@),
                    ),
                ),
            ) as nat,
            16,
        )
    }
}

impl FeatureFlags {
    /// Creates feature flags from CLI arguments.
    pub fn from_cli(cli: &Cli) -> (r: Self)
        ensures
            r.all_features == cli.all_features,
            r.no_default_features == cli.no_default_features,
            string_views(r.features@) == string_views(cli.features@),
    {
        let mut features: Vec<String> = Vec::new();
        let mut i: usize = 0;
        while i < cli.features.len()
            invariant
                i <= cli.features@.len(),
                string_views(features@) == string_views(cli.features@).take(i as int),
            decreases cli.features.len() - i,
        {
            let ghost old_f = string_views(features@);
            features.push(cli.features[i].clone());
            assert(string_views(features@) =~= old_f.push(cli.features@[i as int]@));
            i = i + 1;
            assert(string_views(features@) =~= string_views(cli.features@).take(i as int));
        }
        assert(string_views(cli.features@).take(cli.features@.len() as int) =~= string_views(
            cli.features@,
        ));
        FeatureFlags {
            all_features: cli.all_features,
            no_default_features: cli.no_default_features,
            features,
        }
    }

    /// Returns true if no feature flags were explicitly set by the user.
    pub fn is_default(&self) -> (r: bool)
        ensures
            r == spec_is_default(*self),
    {
        !self.all_features && !self.no_default_features && self.features.len() == 0
    }

    /// Computes a stable cache suffix: "" for default flags, "-feat_<16-hex-hash>"
    /// otherwise (DJB2 over a canonical text of the flags).
    pub fn cache_suffix(&self) -> (r: String)
        ensures
            r@ == spec_cache_suffix(*self),
    {
        if self.is_default() {
            return String::new();
        }
        let mut canonical: Vec<char> = Vec::new();
        if self.all_features {
            append_str(&mut canonical, "all_features;");
        }
        if self.no_default_features {
            append_str(&mut canonical, "no_default;");
        }
        let ghost fv = string_views(self.features@);
        if self.features.len() > 0 {
            let mut entries: Vec<SortEntry> = Vec::new();
            let mut i: usize = 0;
            while i < self.features.len()
                invariant
                    i <= self.features@.len(),
                    fv == string_views(self.features@),
                    entry_views(entries@) == Seq::new(i as nat, |j: int| (0u64, fv[j], j as usize)),
                decreases self.features.len() - i,
            {
                let c = chars_of(self.features[i].as_str());
                let ghost old_e = entry_views(entries@);
                entries.push(SortEntry { major: 0, minor: c, item: i });
                assert(entry_views(entries@) =~= old_e.push((0u64, fv[i as int], i)));
                i = i + 1;
                assert(entry_views(entries@) =~= Seq::new(
                    i as nat,
                    |j: int| (0u64, fv[j], j as usize),
                ));
            }
            let sorted = sort_entries(entries);
            let ghost sv = entry_views(sorted@);
            let mut names: Vec<Vec<char>> = Vec::new();
            let mut k: usize = 0;
            while k < sorted.len()
                invariant
                    k <= sorted@.len(),
                    sv == entry_views(sorted@),
                    names@.map_values(|v: Vec<char>| v@) == sv.map_values(|e: EntryView| e.1).take(
                        k as int,
                    ),
                decreases sorted.len() - k,
            {
                let ghost old_n = names@.map_values(|v: Vec<char>| v@);
                names.push(crate::text::copy_chars(sorted[k].minor.as_slice()));
                assert(names@.map_values(|v: Vec<char>| v@) =~= old_n.push(sv[k as int].1));
                k = k + 1;
                assert(names@.map_values(|v: Vec<char>| v@) =~= sv.map_values(
                    |e: EntryView| e.1,
                ).take(k as int));
            }
            assert(sv.map_values(|e: EntryView| e.1).take(sorted@.len() as int) =~= sv.map_values(
                |e: EntryView| e.1,
            ));
            append_str(&mut canonical, "features=");
            let comma = vec![','];
            let joined = crate::text::join_exec(names.as_slice(), comma.as_slice());
            append(&mut canonical, joined.as_slice());
            canonical.push(';');
            assert(comma@ =~= seq![',']);
        }
        assert(canonical@ =~= canonical_features(
            self.all_features,
            self.no_default_features,
            string_views(self.features@),
        ));
        let cs = string_of(canonical.as_slice());
        let hash = djb2_hash(cs.as_str());
        let mut out: Vec<char> = Vec::new();
        append_str(&mut out, "-feat_");
        let h = hex16_exec(hash);
        append(&mut out, h.as_slice());
        string_of(out.as_slice())
    }
}

/// The sorted features depend only on which features are given, each how
/// often, not on their order.
pub proof fn lemma_sorted_features_permutation(fs1: Seq<Seq<char>>, fs2: Seq<Seq<char>>)
    requires
        fs1.to_multiset() == fs2.to_multiset(),
    ensures
        sorted_features(fs1) == sorted_features(fs2),
{
    lemma_sorted_features_texts(fs1);
    lemma_sorted_features_texts(fs2);
    crate::sort::lemma_sorted_texts_unique(sorted_features(fs1), sorted_features(fs2));
}

/// The sorted features are sorted and hold the given features.
proof fn lemma_sorted_features_texts(fs: Seq<Seq<char>>)
    ensures
        crate::sort::texts_sorted(sorted_features(fs)),
        sorted_features(fs).to_multiset() == fs.to_multiset(),
{
    let e = Seq::new(fs.len(), |i: int| (0u64, fs[i], i as usize));
    let t = stable_sort(e);
    crate::sort::lemma_stable_sort_sorted(e);
    crate::sort::lemma_stable_sort_multiset(e);
    crate::types::lemma_stable_sort_len(e);
    assert forall|i: int| 0 <= i < t.len() implies (#[trigger] t[i]).0 == 0u64 by {
        crate::sort::lemma_stable_sort_member(e, i);
        let k = choose|k: int| 0 <= k < e.len() && e[k] == t[i];
    }
    crate::sort::lemma_sorted_entry_texts(t);
    crate::sort::lemma_entry_texts_multiset(t, e);
    assert(crate::sort::entry_texts(t) =~= sorted_features(fs));
    assert(crate::sort::entry_texts(e) =~= fs);
}

/// The cache suffix does not depend on the order in which features are
/// given: flags that name the same features, each as often, share a cache.
pub proof fn lemma_cache_suffix_order_independent(a: FeatureFlags, b: FeatureFlags)
    requires
        a.all_features == b.all_features,
        a.no_default_features == b.no_default_features,
        string_views(a.features@).to_multiset() == string_views(b.features@).to_multiset(),
    ensures
        spec_cache_suffix(a) == spec_cache_suffix(b),
{
    broadcast use vstd::seq_lib::group_to_multiset_ensures;
    let fa = string_views(a.features@);
    let fb = string_views(b.features@);
    assert(fa.to_multiset().len() == fa.len());
    assert(fb.to_multiset().len() == fb.len());
    lemma_sorted_features_permutation(fa, fb);
    assert(canonical_features(a.all_features, a.no_default_features, fa) == canonical_features(
        b.all_features,
        b.no_default_features,
        fb,
    ));
}


/// A lowercase hexadecimal digit.
pub open spec fn is_hex_lower(c: char) -> bool {
    ('0' <= c && c <= '9') || ('a' <= c && c <= 'f')
}

/// `k` hexadecimal digits are `k` lowercase hexadecimal characters.
proof fn lemma_hex_digits_shape(n: nat, k: nat)
    ensures
        crate::text::hex_digits(n, k).len() == k,
        forall|i: int| 0 <= i < k ==> is_hex_lower(#[trigger] crate::text::hex_digits(n, k)[i]),
    decreases k,
{
    if k > 0 {
        lemma_hex_digits_shape(n / 16, (k - 1) as nat);
        let prev = crate::text::hex_digits(n / 16, (k - 1) as nat);
        let d = n % 16;
        assert(is_hex_lower(crate::text::hex_char(d)));
        assert forall|i: int| 0 <= i < k implies is_hex_lower(#[trigger] crate::text::hex_digits(n, k)[i]) by {
            if i < k - 1 {
                assert(crate::text::hex_digits(n, k)[i] == prev[i]);
            }
        }
    }
}

/// The shape of a cache suffix: empty exactly for the default flags,
/// otherwise `-feat_` followed by sixteen lowercase hexadecimal digits
/// (22 characters in all).
pub proof fn lemma_cache_suffix_shape(f: FeatureFlags)
    ensures
        spec_cache_suffix(f).len() == 0 <==> spec_is_default(f),
        !spec_is_default(f) ==> {
            &&& spec_cache_suffix(f).len() == 22
            &&& spec_cache_suffix(f).take(6) == "-feat_"@
            &&& forall|i: int| 6 <= i < 22 ==> is_hex_lower(#[trigger] spec_cache_suffix(f)[i])
        },
{
    if !spec_is_default(f) {
        reveal_strlit("-feat_");
        let h = djb2(
            vstd::utf8::encode_utf8(
                canonical_features(f.all_features, f.no_default_features, string_views(f.features@)),
            ),
        ) as nat;
        lemma_hex_digits_shape(h, 16);
        let sfx = spec_cache_suffix(f);
        assert(sfx == "-feat_"@ + crate::text::hex_digits(h, 16));
        assert(sfx.take(6) =~= "-feat_"@);
        assert forall|i: int| 6 <= i < 22 implies is_hex_lower(#[trigger] sfx[i]) by {
            assert(sfx[i] == crate::text::hex_digits(h, 16)[i - 6]);
        }
    }
}


/// A query given as a crate name and item segments joined with `::`.
pub open spec fn query_text(name: Seq<char>, segs: Seq<Seq<char>>) -> Seq<char> {
    crate::text::join(seq![name] + segs, crate::text::path_sep())
}

/// Whitespace-only text has nothing left after trimming.
proof fn lemma_trim_start_all_ws(w: Seq<char>)
    requires
        forall|i: int| 0 <= i < w.len() ==> crate::text::is_ws(#[trigger] w[i]),
    ensures
        crate::text::trim_start(w).len() == 0,
    decreases w.len(),
{
    if w.len() > 0 {
        assert forall|i: int| 0 <= i < w.drop_first().len() implies crate::text::is_ws(#[trigger] w.drop_first()[i]) by {
            assert(w.drop_first()[i] == w[i + 1]);
        }
        lemma_trim_start_all_ws(w.drop_first());
    }
}

/// [`QueryPath::parse`] (whose result is [`spec_parse_query`]) gives back
/// what a query was built from: a named crate (no `@`,
/// no `::`, starting with no whitespace) followed by `::`-joined item
/// segments (none but the last ending in `:`, none holding `::`) parses to
/// that crate and those segments, when the text ends in no whitespace; and
/// whitespace alone means the current crate with no segments.
pub proof fn lemma_parse_query_roundtrip(name: Seq<char>, segs: Seq<Seq<char>>, w: Seq<char>)
    requires
        name.len() > 0,
        !name.contains('@'),
        !crate::text::is_ws(name[0]),
        segs.len() > 0 ==> crate::text::clean_segment(name),
        segs.len() == 0 ==> !crate::text::contains(name, crate::text::path_sep()),
        forall|i: int| 0 <= i < segs.len() - 1 ==> crate::text::clean_segment(#[trigger] segs[i]),
        segs.len() > 0 ==> !crate::text::contains(segs.last(), crate::text::path_sep()),
        !crate::text::is_ws(query_text(name, segs).last()),
        forall|i: int| 0 <= i < w.len() ==> crate::text::is_ws(#[trigger] w[i]),
    ensures
        spec_parse_query(query_text(name, segs)) == Ok::<(CrateSpecView, Seq<Seq<char>>), Seq<char>>(
            (CrateSpecView::Named(name), segs),
        ),
        spec_parse_query(w) == Ok::<(CrateSpecView, Seq<Seq<char>>), Seq<char>>(
            (CrateSpecView::CurrentCrate, seq![]),
        ),
{
    let parts = seq![name] + segs;
    let t = query_text(name, segs);
    assert(parts[0] == name);
    assert forall|i: int| 0 <= i < parts.len() - 1 implies crate::text::clean_segment(#[trigger] parts[i]) by {
        if i > 0 {
            assert(parts[i] == segs[i - 1]);
        }
    }
    if segs.len() > 0 {
        assert(parts.last() == segs.last());
    } else {
        assert(parts.last() == name);
    }
    crate::text::lemma_segments_join(parts);
    if segs.len() == 0 {
        assert(t == name);
    } else {
        assert(parts.drop_first() =~= segs);
        assert(t == name + crate::text::path_sep() + crate::text::join(segs, crate::text::path_sep()));
    }
    assert(t.len() > 0 && t[0] == name[0]);
    assert(crate::text::trim_start(t) == t);
    assert(crate::text::trim_end(t) == t);
    assert(trim(t) == t);
    crate::text::lemma_first_index_of(name, '@');
    assert(segments(t).skip(1) =~= segs);
    lemma_trim_start_all_ws(w);
    assert(trim(w).len() == 0);
}

} // verus!
