//! What one run of the tool does: which mode the flags select, where a
//! crate's README and sources lie, and which workspace members are listed.
use vstd::prelude::*;
use crate::cli::{spec_filter_kind, Cli};
use crate::docgen::{path_join, path_join_exec};
use crate::error::GroxError;
use crate::resolve::{
    path_components, path_components_exec, root_component, CrateSource, ProjectContext,
    SourceView,
};
use crate::text::{append, append_str, chars_of, join, join_exec, string_of};
use crate::types::ItemKind;

verus! {

/// The modes of a run, in the order the flags are checked.
#[derive(Debug, Clone, Copy, PartialEq, Eq, Structural)]
pub enum RunMode {
    /// `--clear-cache`: wipe the cache and stop.
    ClearCache,
    /// No query in a virtual workspace: show every member.
    Workspace,
    /// `--readme`.
    Readme,
    /// `--search`.
    Search,
    /// `--recursive --source`.
    RecursiveSource,
    /// `--source`.
    Source,
    /// The default views.
    Output,
}

/// Which mode the flags select: clearing the cache first; the workspace view
/// when nothing is asked of a virtual workspace; then README, search,
/// recursive source, source, and the default views.
pub open spec fn spec_run_mode(cli: Cli, virtual_workspace: bool) -> RunMode {
    if cli.clear_cache {
        RunMode::ClearCache
    } else if cli.path is None && cli.search is None && !cli.readme && virtual_workspace {
        RunMode::Workspace
    } else if cli.readme {
        RunMode::Readme
    } else if cli.search is Some {
        RunMode::Search
    } else if cli.recursive && cli.source {
        RunMode::RecursiveSource
    } else if cli.source {
        RunMode::Source
    } else {
        RunMode::Output
    }
}

/// Chooses the mode of a run.
pub fn run_mode(cli: &Cli, virtual_workspace: bool) -> (r: RunMode)
    ensures
        r == spec_run_mode(*cli, virtual_workspace),
{
    if cli.clear_cache {
        RunMode::ClearCache
    } else if cli.path.is_none() && cli.search.is_none() && !cli.readme && virtual_workspace {
        RunMode::Workspace
    } else if cli.readme {
        RunMode::Readme
    } else if cli.search.is_some() {
        RunMode::Search
    } else if cli.recursive && cli.source {
        RunMode::RecursiveSource
    } else if cli.source {
        RunMode::Source
    } else {
        RunMode::Output
    }
}

/// The kind filter used to resolve the query: none in recursive mode (the
/// filter applies to the listing then), else the `--kind` flag.
pub fn resolution_kind_filter(cli: &Cli) -> (r: Option<ItemKind>)
    ensures
        r == (if cli.recursive {
            None
        } else {
            match cli.kind {
                Some(k) => Some(spec_filter_kind(k)),
                None => None,
            }
        }),
{
    if cli.recursive {
        None
    } else {
        match cli.kind {
            Some(k) => Some(ItemKind::from(k)),
            None => None,
        }
    }
}

// ---- paths ----

/// A path written from its components: the root, then the other components
/// separated by `/`.
pub open spec fn render_components(c: Seq<Seq<char>>) -> Seq<char> {
    if c.len() > 0 && c[0] == root_component() {
        seq!['/'] + join(c.skip(1), seq!['/'])
    } else {
        join(c, seq!['/'])
    }
}

/// The parent of a path (`Path::parent`): the path without its last
/// component; nothing for an empty path or the root.
pub open spec fn spec_parent(p: Seq<char>) -> Option<Seq<char>> {
    let c = path_components(p);
    if c.len() == 0 || c.last() == root_component() {
        None
    } else {
        Some(render_components(c.drop_last()))
    }
}

/// Returns the parent of a path.
pub fn parent_path(p: &str) -> (r: Option<String>)
    ensures
        match r {
            Some(x) => spec_parent(p@) == Some(x@),
            None => spec_parent(p@) is None,
        },
{
    let mut c = path_components_exec(p);
    let ghost cv = c@.map_values(|v: Vec<char>| v@);
    let n = c.len();
    if n == 0 {
        return None;
    }
    let last_root = c[n - 1].len() == 1 && c[n - 1][0] == '/';
    assert(last_root == (cv.last() == root_component())) by {
        assert(cv.last() == c@[n - 1]@);
        if c@[n - 1]@.len() == 1 && c@[n - 1]@[0] == '/' {
            assert(c@[n - 1]@ =~= root_component());
        }
    }
    if last_root {
        return None;
    }
    c.pop();
    let ghost d = cv.drop_last();
    assert(c@.map_values(|v: Vec<char>| v@) =~= d);
    let mut sep: Vec<char> = Vec::new();
    sep.push('/');
    assert(sep@ =~= seq!['/']);
    if c.len() > 0 && c[0].len() == 1 && c[0][0] == '/' {
        assert(d[0] == c@[0]@);
        assert(d[0] =~= root_component());
        let rest = crate::text::join_from(c.as_slice(), 1, sep.as_slice());
        let mut out: Vec<char> = Vec::new();
        out.push('/');
        append(&mut out, rest.as_slice());
        return Some(string_of(out.as_slice()));
    }
    proof {
        if d.len() > 0 && d[0] == root_component() {
            assert(d[0] == c@[0]@);
            assert(c@[0]@.len() == 1 && c@[0]@[0] == '/');
        }
    }
    Some(string_of(join_exec(c.as_slice(), sep.as_slice()).as_slice()))
}

// ---- README ----

/// The file names tried, in order, for a crate's README.
pub open spec fn readme_names() -> Seq<Seq<char>> {
    seq!["README.md"@, "README.MD"@, "Readme.md"@, "readme.md"@, "README"@, "README.txt"@]
}

/// The error of a README that cannot be had.
pub open spec fn readme_error(name: Seq<char>, e: GroxError) -> bool {
    e matches GroxError::ItemNotFound { query, crate_name, suggestions } && query@ == name + " README"@
        && (crate_name matches Some(c) && c@ == name) && suggestions@.len() == 0
}

/// The error for a crate without a README.
pub fn readme_not_found(name: &str) -> (r: GroxError)
    ensures
        readme_error(name@, r),
{
    let mut q = chars_of(name);
    append_str(&mut q, " README");
    GroxError::ItemNotFound {
        query: string_of(q.as_slice()),
        crate_name: Some(string_of(chars_of(name).as_slice())),
        suggestions: Vec::new(),
    }
}

/// Where an extracted crates.io crate lies: `<cache>/groxide/<name>-<version>`
/// (`latest` without a version).
pub open spec fn spec_extracted_dir(cache_dir: Seq<char>, name: Seq<char>, version: Option<Seq<char>>) -> Seq<char> {
    path_join(
        path_join(cache_dir, "groxide"@),
        name + seq!['-'] + match version {
            Some(v) => v,
            None => "latest"@,
        },
    )
}

pub fn extracted_dir(cache_dir: &str, name: &str, version: &Option<String>) -> (r: String)
    ensures
        r@ == spec_extracted_dir(cache_dir@, name@, crate::resolve::opt_view(*version)),
{
    let g = path_join_exec(chars_of(cache_dir).as_slice(), chars_of("groxide").as_slice());
    let mut leaf = chars_of(name);
    leaf.push('-');
    match version {
        Some(v) => append_str(&mut leaf, v.as_str()),
        None => append_str(&mut leaf, "latest"),
    }
    string_of(path_join_exec(g.as_slice(), leaf.as_slice()).as_slice())
}

/// The directory searched for a crate's README: the current crate's (from
/// the project's manifest when there is a project), a dependency's, or an
/// extracted crates.io crate's under the cache directory. The standard
/// library has none, nor does a crates.io crate without a cache directory.
pub open spec fn spec_readme_dir(
    source: SourceView,
    project_manifest: Option<Seq<char>>,
    cache_dir: Option<Seq<char>>,
) -> Option<Seq<char>> {
    match source {
        SourceView::Stdlib(_) => None,
        SourceView::CurrentCrate(m, _, _) => match project_manifest {
            Some(pm) => match spec_parent(pm) {
                Some(d) => Some(d),
                None => spec_parent(m),
            },
            None => spec_parent(m),
        },
        SourceView::Dependency(m, _, _) => spec_parent(m),
        SourceView::External(name, v) => match cache_dir {
            Some(c) => Some(spec_extracted_dir(c, name, v)),
            None => None,
        },
    }
}

/// Finds the directory that holds a crate's README.
pub fn readme_dir(source: &CrateSource, project_manifest: Option<&str>, cache_dir: Option<&str>) -> (r: Result<String, GroxError>)
    requires
        source is CurrentCrate ==> spec_parent(source->CurrentCrate_manifest_path@) is Some,
        source is Dependency ==> spec_parent(source->Dependency_manifest_path@) is Some,
    ensures
        match r {
            Ok(d) => spec_readme_dir(source@, crate::cache::opt_str(project_manifest), crate::cache::opt_str(cache_dir)) == Some(d@),
            Err(e) => spec_readme_dir(source@, crate::cache::opt_str(project_manifest), crate::cache::opt_str(cache_dir)) is None
                && readme_error(source.spec_name(), e),
        },
{
    match source {
        CrateSource::Stdlib { name } => Err(readme_not_found(name.as_str())),
        CrateSource::CurrentCrate { manifest_path, .. } => {
            let own = parent_path(manifest_path.as_str());
            match project_manifest {
                Some(pm) => match parent_path(pm) {
                    Some(d) => Ok(d),
                    None => Ok(own.unwrap()),
                },
                None => Ok(own.unwrap()),
            }
        },
        CrateSource::Dependency { manifest_path, .. } => Ok(parent_path(manifest_path.as_str()).unwrap()),
        CrateSource::External { name, version } => match cache_dir {
            Some(c) => Ok(extracted_dir(c, name.as_str(), version)),
            None => Err(readme_not_found(name.as_str())),
        },
    }
}

/// The README files to try in a directory, in order.
pub fn readme_candidates(dir: &str) -> (r: Vec<String>)
    ensures
        crate::cli::string_views(r@) == readme_names().map_values(|n: Seq<char>| path_join(dir@, n)),
{
    let names: [&str; 6] = ["README.md", "README.MD", "Readme.md", "readme.md", "README", "README.txt"];
    assert(names@.map_values(|x: &str| x@) =~= readme_names());
    let d = chars_of(dir);
    let mut out: Vec<String> = Vec::new();
    let mut k: usize = 0;
    while k < 6
        invariant
            k <= 6,
            d@ == dir@,
            names@.map_values(|x: &str| x@) == readme_names(),
            crate::cli::string_views(out@) == readme_names().take(k as int).map_values(|n: Seq<char>| path_join(dir@, n)),
        decreases 6 - k,
    {
        assert(names@[k as int]@ == readme_names()[k as int]);
        let ghost before = crate::cli::string_views(out@);
        out.push(string_of(path_join_exec(d.as_slice(), chars_of(names[k]).as_slice()).as_slice()));
        assert(crate::cli::string_views(out@) =~= before.push(path_join(dir@, readme_names()[k as int])));
        assert(readme_names().take(k + 1).map_values(|n: Seq<char>| path_join(dir@, n)) =~= readme_names().take(
            k as int,
        ).map_values(|n: Seq<char>| path_join(dir@, n)).push(path_join(dir@, readme_names()[k as int])));
        k = k + 1;
    }
    assert(readme_names().take(6) =~= readme_names());
    out
}

// ---- workspaces ----

/// The workspace members that have a library (rustdoc documents only
/// those), sorted by name, as current-crate sources.
pub open spec fn library_members(ctx: &ProjectContext, sorted: Seq<usize>) -> Seq<usize>
    decreases sorted.len(),
{
    if sorted.len() == 0 {
        seq![]
    } else {
        let prev = library_members(ctx, sorted.drop_last());
        if ctx.packages@[sorted.last() as int].has_lib {
            prev.push(sorted.last())
        } else {
            prev
        }
    }
}

/// The workspace members listed in the workspace view: those with a
/// library, sorted by name.
pub fn workspace_library_members(ctx: &ProjectContext) -> (r: Vec<usize>)
    requires
        ctx.wf(),
    ensures
        r@ == library_members(ctx, crate::sort::payloads(crate::sort::stable_sort(ctx.member_entries()))),
        forall|i: int| 0 <= i < r@.len() ==> r@[i] < ctx.packages@.len(),
{
    let sorted = ctx.workspace_member_packages();
    let ghost sv = sorted@;
    proof {
        let e = ctx.member_entries();
        crate::types::lemma_stable_sort_len(e);
        assert forall|j: int| 0 <= j < e.len() implies (#[trigger] e[j]).2 < ctx.packages@.len() as int by {
            assert(e[j].2 == ctx.workspace_members@[j]);
        }
        crate::render::display::lemma_sorted_payloads_below(e, ctx.packages@.len() as int);
    }
    let mut out: Vec<usize> = Vec::new();
    let mut i: usize = 0;
    while i < sorted.len()
        invariant
            ctx.wf(),
            i <= sv.len(),
            sv == sorted@,
            crate::render::text::all_below(sv, ctx.packages@.len() as int),
            out@ == library_members(ctx, sv.take(i as int)),
            forall|j: int| 0 <= j < out@.len() ==> out@[j] < ctx.packages@.len(),
        decreases sorted.len() - i,
    {
        assert(sv.take(i + 1).drop_last() =~= sv.take(i as int));
        assert(sv.take(i + 1).last() == sv[i as int]);
        let p = sorted[i];
        assert(p < ctx.packages@.len());
        if ctx.packages[p].has_lib {
            out.push(p);
        }
        i = i + 1;
    }
    assert(sv.take(i as int) =~= sv);
    out
}

} // verus!
