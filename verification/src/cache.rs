//! The on-disk index cache: where each crate's cache file lives, what its
//! header records, and when a cached index is still valid.
use vstd::prelude::*;
use crate::cli::{spec_cache_suffix, FeatureFlags};
use crate::docgen::{path_join, path_join_exec};
use crate::resolve::{CrateSource, SourceView};
use crate::text::{append_str, chars_eq, chars_of, string_of};

verus! {

/// Version of this program, as recorded in cache files.
pub open spec fn grox_version() -> Seq<char> {
    "0.1.0"@
}

/// Version of this program, as recorded in cache files.
pub fn grox_version_str() -> (r: &'static str)
    ensures
        r@ == grox_version(),
{
    "0.1.0"
}

/// Cache format version; bumped when the serialization format changes.
pub const FORMAT_VERSION: u32 = 4;

/// Source-specific invalidation data stored in a cache header.
#[derive(Debug, Clone, PartialEq, Eq)]
pub enum CacheMetadata {
    /// The newest modification time (UNIX seconds) of the crate's sources
    /// when the cache was saved.
    CurrentCrate {
        /// Seconds since the UNIX epoch.
        source_mtime: u64,
    },
    /// The dependency's version.
    Dependency {
        /// The version.
        version: String,
    },
    /// The toolchain the standard library came with.
    StdLib {
        /// The toolchain hash.
        toolchain_version: String,
    },
    /// The external crate's version.
    External {
        /// The version.
        version: String,
    },
}

/// Metadata at the start of each cache file.
#[derive(Debug, Clone, PartialEq, Eq)]
pub struct CacheHeader {
    /// Version of the program that wrote the file.
    pub grox_version: String,
    /// Serialization format version.
    pub format_version: u32,
    /// UNIX epoch seconds when the cache was created.
    pub created_at: u64,
    /// Source-specific invalidation data.
    pub metadata: CacheMetadata,
}

/// The cache-key suffix that tells apart indexes built with different
/// feature or private settings: the feature suffix, then `-priv` for
/// private items.
pub open spec fn spec_full_cache_suffix(f: FeatureFlags, private: bool) -> Seq<char> {
    spec_cache_suffix(f) + (if private { "-priv"@ } else { seq![] })
}

/// Builds the cache-key suffix for feature and private settings.
pub fn cache_suffix(features: &FeatureFlags, private: bool) -> (r: String)
    ensures
        r@ == spec_full_cache_suffix(*features, private),
{
    let s = features.cache_suffix();
    let mut out = chars_of(s.as_str());
    if private {
        append_str(&mut out, "-priv");
    }
    string_of(out.as_slice())
}

/// The view of an optional `&str`.
pub open spec fn opt_str(v: Option<&str>) -> Option<Seq<char>> {
    match v {
        Some(x) => Some(x@),
        None => None,
    }
}

/// Where the cache file of a source lives: the current crate's under
/// `<workspace target>/groxide/`, the others under `<cache dir>/groxide/`
/// in `deps`, `stdlib` (keyed by toolchain) or `external`. Nothing when the
/// directory (or the toolchain) is unknown.
pub open spec fn spec_cache_path(
    source: SourceView,
    suffix: Seq<char>,
    target_dir: Option<Seq<char>>,
    cache_dir: Option<Seq<char>>,
    toolchain: Option<Seq<char>>,
) -> Option<Seq<char>> {
    match source {
        SourceView::CurrentCrate(_, name, _) => match target_dir {
            Some(t) => Some(path_join(path_join(t, "groxide"@), name + suffix + ".groxide"@)),
            None => None,
        },
        SourceView::Dependency(_, name, version) => match cache_dir {
            Some(c) => Some(
                path_join(
                    path_join(path_join(c, "groxide"@), "deps"@),
                    name + seq!['-'] + version + suffix + ".groxide"@,
                ),
            ),
            None => None,
        },
        SourceView::Stdlib(name) => match (cache_dir, toolchain) {
            (Some(c), Some(tc)) => Some(
                path_join(
                    path_join(path_join(c, "groxide"@), "stdlib"@),
                    name + seq!['-'] + tc + suffix + ".groxide"@,
                ),
            ),
            _ => None,
        },
        SourceView::External(name, version) => match cache_dir {
            Some(c) => Some(
                path_join(
                    path_join(path_join(c, "groxide"@), "external"@),
                    name + seq!['-'] + (match version {
                        Some(v) => v,
                        None => "latest"@,
                    }) + suffix + ".groxide"@,
                ),
            ),
            None => None,
        },
    }
}

fn cache_file(dir: &str, group: &str, file: &Vec<char>) -> (r: String)
    ensures
        r@ == path_join(path_join(path_join(dir@, "groxide"@), group@), file@),
{
    let a = path_join_exec(chars_of(dir).as_slice(), chars_of("groxide").as_slice());
    let b = path_join_exec(a.as_slice(), chars_of(group).as_slice());
    string_of(path_join_exec(b.as_slice(), file.as_slice()).as_slice())
}

/// Computes the cache file path for a crate source, given the workspace
/// target directory (for the current crate), the user cache directory and
/// the toolchain hash (for the standard library).
pub fn cache_path(
    source: &CrateSource,
    feature_suffix: &str,
    target_dir: Option<&str>,
    cache_dir: Option<&str>,
    toolchain: Option<&str>,
) -> (r: Option<String>)
    ensures
        opt_string(r) == spec_cache_path(
            source@,
            feature_suffix@,
            opt_str(target_dir),
            opt_str(cache_dir),
            opt_str(toolchain),
        ),
{
    match source {
        CrateSource::CurrentCrate { name, .. } => match target_dir {
            Some(t) => {
                let mut f = chars_of(name.as_str());
                append_str(&mut f, feature_suffix);
                append_str(&mut f, ".groxide");
                let g = path_join_exec(chars_of(t).as_slice(), chars_of("groxide").as_slice());
                Some(string_of(path_join_exec(g.as_slice(), f.as_slice()).as_slice()))
            },
            None => None,
        },
        CrateSource::Dependency { name, version, .. } => match cache_dir {
            Some(c) => {
                let mut f = chars_of(name.as_str());
                f.push('-');
                append_str(&mut f, version.as_str());
                append_str(&mut f, feature_suffix);
                append_str(&mut f, ".groxide");
                Some(cache_file(c, "deps", &f))
            },
            None => None,
        },
        CrateSource::Stdlib { name } => match (cache_dir, toolchain) {
            (Some(c), Some(tc)) => {
                let mut f = chars_of(name.as_str());
                f.push('-');
                append_str(&mut f, tc);
                append_str(&mut f, feature_suffix);
                append_str(&mut f, ".groxide");
                Some(cache_file(c, "stdlib", &f))
            },
            _ => None,
        },
        CrateSource::External { name, version } => match cache_dir {
            Some(c) => {
                let mut f = chars_of(name.as_str());
                f.push('-');
                match version {
                    Some(v) => append_str(&mut f, v.as_str()),
                    None => append_str(&mut f, "latest"),
                }
                append_str(&mut f, feature_suffix);
                append_str(&mut f, ".groxide");
                Some(cache_file(c, "external", &f))
            },
            None => None,
        },
    }
}

/// The view of an optional string.
pub open spec fn opt_string(v: Option<String>) -> Option<Seq<char>> {
    match v {
        Some(x) => Some(x@),
        None => None,
    }
}

/// The invalidation data recorded for a source: the source mtime (0 when
/// unknown) for the current crate, the version for dependencies and external
/// crates (`unknown` when unpinned), the toolchain hash (`unknown` when it
/// could not be had) for the standard library.
pub open spec fn spec_metadata(source: SourceView, mtime: Option<u64>, toolchain: Option<Seq<char>>) -> (
    u8,
    u64,
    Seq<char>,
) {
    match source {
        SourceView::CurrentCrate(_, _, _) => (0, match mtime {
            Some(m) => m,
            None => 0,
        }, seq![]),
        SourceView::Dependency(_, _, v) => (1, 0, v),
        SourceView::Stdlib(_) => (2, 0, match toolchain {
            Some(t) => t,
            None => "unknown"@,
        }),
        SourceView::External(_, v) => (3, 0, match v {
            Some(x) => x,
            None => "unknown"@,
        }),
    }
}

/// The view of cache metadata: a tag, the mtime, and the text.
pub open spec fn metadata_view(m: CacheMetadata) -> (u8, u64, Seq<char>) {
    match m {
        CacheMetadata::CurrentCrate { source_mtime } => (0, source_mtime, seq![]),
        CacheMetadata::Dependency { version } => (1, 0, version@),
        CacheMetadata::StdLib { toolchain_version } => (2, 0, toolchain_version@),
        CacheMetadata::External { version } => (3, 0, version@),
    }
}

/// Creates the cache header for a source, written now (`created_at`), with
/// the source mtime (for the current crate) and the toolchain hash (for the
/// standard library) that the caller found.
pub fn create_header(source: &CrateSource, current_mtime: Option<u64>, toolchain: Option<&str>, created_at: u64) -> (r: CacheHeader)
    ensures
        r.grox_version@ == grox_version(),
        r.format_version == FORMAT_VERSION,
        r.created_at == created_at,
        metadata_view(r.metadata) == spec_metadata(source@, current_mtime, opt_str(toolchain)),
{
    let metadata = match source {
        CrateSource::CurrentCrate { .. } => CacheMetadata::CurrentCrate {
            source_mtime: match current_mtime {
                Some(m) => m,
                None => 0,
            },
        },
        CrateSource::Dependency { version, .. } => CacheMetadata::Dependency {
            version: string_of(chars_of(version.as_str()).as_slice()),
        },
        CrateSource::Stdlib { .. } => CacheMetadata::StdLib {
            toolchain_version: match toolchain {
                Some(t) => string_of(chars_of(t).as_slice()),
                None => string_of(chars_of("unknown").as_slice()),
            },
        },
        CrateSource::External { version, .. } => CacheMetadata::External {
            version: match version {
                Some(v) => string_of(chars_of(v.as_str()).as_slice()),
                None => string_of(chars_of("unknown").as_slice()),
            },
        },
    };
    CacheHeader {
        grox_version: string_of(chars_of(grox_version_str()).as_slice()),
        format_version: FORMAT_VERSION,
        created_at,
        metadata,
    }
}

/// A cache is valid when it was written by this version in this format and
/// its invalidation data matches the source now: the same source mtime for
/// the current crate (which must be known), the same version, or the same
/// toolchain hash (`unknown` when it cannot be had).
pub open spec fn spec_is_cache_valid(
    h: CacheHeader,
    source: SourceView,
    mtime: Option<u64>,
    toolchain: Option<Seq<char>>,
) -> bool {
    &&& h.grox_version@ == grox_version()
    &&& h.format_version == FORMAT_VERSION
    &&& match (h.metadata, source) {
        (CacheMetadata::CurrentCrate { source_mtime }, SourceView::CurrentCrate(_, _, _)) => mtime
            == Some(source_mtime),
        (CacheMetadata::Dependency { version }, SourceView::Dependency(_, _, v)) => version@ == v,
        (CacheMetadata::StdLib { toolchain_version }, SourceView::Stdlib(_)) => toolchain_version@
            == match toolchain {
            Some(t) => t,
            None => "unknown"@,
        },
        (CacheMetadata::External { version }, SourceView::External(_, v)) => version@ == match v {
            Some(x) => x,
            None => "unknown"@,
        },
        _ => false,
    }
}

fn str_eq(a: &str, b: &str) -> (r: bool)
    ensures
        r == (a@ == b@),
{
    chars_eq(chars_of(a).as_slice(), chars_of(b).as_slice())
}

/// Validates a cache header against the current source state.
pub fn is_cache_valid(
    header: &CacheHeader,
    source: &CrateSource,
    current_mtime: Option<u64>,
    toolchain: Option<&str>,
) -> (r: bool)
    ensures
        r == spec_is_cache_valid(*header, source@, current_mtime, opt_str(toolchain)),
{
    if !str_eq(header.grox_version.as_str(), grox_version_str()) {
        return false;
    }
    if header.format_version != FORMAT_VERSION {
        return false;
    }
    match (&header.metadata, source) {
        (CacheMetadata::CurrentCrate { source_mtime }, CrateSource::CurrentCrate { .. }) => {
            match current_mtime {
                Some(now) => now == *source_mtime,
                None => false,
            }
        },
        (CacheMetadata::Dependency { version: cached }, CrateSource::Dependency { version, .. }) => {
            str_eq(cached.as_str(), version.as_str())
        },
        (CacheMetadata::StdLib { toolchain_version }, CrateSource::Stdlib { .. }) => {
            match toolchain {
                Some(t) => str_eq(toolchain_version.as_str(), t),
                None => str_eq(toolchain_version.as_str(), "unknown"),
            }
        },
        (CacheMetadata::External { version: cached }, CrateSource::External { version, .. }) => {
            match version {
                Some(v) => str_eq(cached.as_str(), v.as_str()),
                None => str_eq(cached.as_str(), "unknown"),
            }
        },
        _ => false,
    }
}

/// A header written for a source is valid for that source as long as its
/// invalidation data is unchanged: the same mtime (when known) and the same
/// toolchain hash.
pub proof fn lemma_fresh_header_valid(
    source: SourceView,
    mtime: Option<u64>,
    toolchain: Option<Seq<char>>,
    h: CacheHeader,
)
    requires
        h.grox_version@ == grox_version(),
        h.format_version == FORMAT_VERSION,
        metadata_view(h.metadata) == spec_metadata(source, mtime, toolchain),
        source is CurrentCrate ==> mtime is Some,
    ensures
        spec_is_cache_valid(h, source, mtime, toolchain),
{
    match h.metadata {
        CacheMetadata::CurrentCrate { .. } => {},
        CacheMetadata::Dependency { .. } => {},
        CacheMetadata::StdLib { .. } => {},
        CacheMetadata::External { .. } => {},
    }
}

/// Indexes built with and without private items never share a cache file:
/// their suffixes differ.
pub proof fn lemma_private_suffix_distinct(f: FeatureFlags)
    ensures
        spec_full_cache_suffix(f, true) != spec_full_cache_suffix(f, false),
{
    reveal_strlit("-priv");
    assert(spec_full_cache_suffix(f, true).len() == spec_full_cache_suffix(f, false).len() + 5);
}

/// A cache written for one version of a dependency is stale for another
/// version.
pub proof fn lemma_dependency_version_change_invalidates(
    h: CacheHeader,
    m1: Seq<char>,
    n1: Seq<char>,
    v1: Seq<char>,
    m2: Seq<char>,
    n2: Seq<char>,
    v2: Seq<char>,
    mtime: Option<u64>,
    toolchain: Option<Seq<char>>,
)
    requires
        metadata_view(h.metadata) == spec_metadata(SourceView::Dependency(m1, n1, v1), mtime, toolchain),
        v1 != v2,
    ensures
        !spec_is_cache_valid(h, SourceView::Dependency(m2, n2, v2), mtime, toolchain),
{
}

/// A cache of the current crate is stale once its sources have changed (the
/// newest modification time differs from the one recorded).
pub proof fn lemma_source_change_invalidates(
    h: CacheHeader,
    source: SourceView,
    saved: u64,
    now: u64,
    toolchain: Option<Seq<char>>,
)
    requires
        source is CurrentCrate,
        metadata_view(h.metadata) == spec_metadata(source, Some(saved), toolchain),
        saved != now,
    ensures
        !spec_is_cache_valid(h, source, Some(now), toolchain),
{
}

} // verus!
