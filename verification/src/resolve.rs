//! Where a crate's documentation comes from: the current project, one of its
//! dependencies, the standard library, or crates.io.
use vstd::prelude::*;
use crate::cli::{string_views, CrateSpec, CrateSpecView, QueryPath};
use crate::query::{looks_like_item_name, spec_looks_like_item_name};
use crate::error::GroxError;
use crate::sort::{entry_payloads, entry_views, payloads, sort_entries, stable_sort, EntryView, SortEntry};
use crate::text::{append_str, chars_eq, chars_of, replace_char, replace_char_exec, string_of};
use crate::types::{is_stdlib_crate, spec_is_stdlib_crate};

verus! {

/// Where a crate's source lives; decides how its rustdoc JSON is made.
#[derive(Debug, Clone)]
pub enum CrateSource {
    /// The current project crate.
    CurrentCrate {
        /// Path of the crate's Cargo.toml.
        manifest_path: String,
        /// Package name, hyphens kept.
        name: String,
        /// Crate version.
        version: String,
    },
    /// A dependency (direct, workspace member or transitive).
    Dependency {
        /// Path of the dependency's Cargo.toml.
        manifest_path: String,
        /// Package name, hyphens kept.
        name: String,
        /// Crate version.
        version: String,
    },
    /// A standard library crate (std, core, alloc).
    Stdlib {
        /// The crate's name.
        name: String,
    },
    /// A crate to fetch from crates.io.
    External {
        /// The crate's name.
        name: String,
        /// The pinned version, if any.
        version: Option<String>,
    },
}

/// The abstract value of a crate source.
pub enum SourceView {
    /// Manifest path, name and version.
    CurrentCrate(Seq<char>, Seq<char>, Seq<char>),
    /// Manifest path, name and version.
    Dependency(Seq<char>, Seq<char>, Seq<char>),
    /// The name.
    Stdlib(Seq<char>),
    /// The name and the pinned version.
    External(Seq<char>, Option<Seq<char>>),
}

/// The view of an optional string.
pub open spec fn opt_view(o: Option<String>) -> Option<Seq<char>> {
    match o {
        Some(s) => Some(s@),
        None => None,
    }
}

impl CrateSource {
    /// The abstract value.
    pub open spec fn view(&self) -> SourceView {
        match self {
            CrateSource::CurrentCrate { manifest_path, name, version } => SourceView::CurrentCrate(
                manifest_path@,
                name@,
                version@,
            ),
            CrateSource::Dependency { manifest_path, name, version } => SourceView::Dependency(
                manifest_path@,
                name@,
                version@,
            ),
            CrateSource::Stdlib { name } => SourceView::Stdlib(name@),
            CrateSource::External { name, version } => SourceView::External(
                name@,
                opt_view(*version),
            ),
        }
    }

    /// The package name of any variant.
    pub open spec fn spec_name(&self) -> Seq<char> {
        match self {
            CrateSource::CurrentCrate { name, .. } => name@,
            CrateSource::Dependency { name, .. } => name@,
            CrateSource::Stdlib { name } => name@,
            CrateSource::External { name, .. } => name@,
        }
    }

    /// The version, where one is known.
    pub open spec fn spec_version(&self) -> Option<Seq<char>> {
        match self {
            CrateSource::CurrentCrate { version, .. } => Some(version@),
            CrateSource::Dependency { version, .. } => Some(version@),
            CrateSource::Stdlib { .. } => None,
            CrateSource::External { version, .. } => opt_view(*version),
        }
    }

    /// Returns the package name (hyphens preserved).
    pub fn name(&self) -> (r: &str)
        ensures
            r@ == self.spec_name(),
    {
        match self {
            CrateSource::CurrentCrate { name, .. } => name.as_str(),
            CrateSource::Dependency { name, .. } => name.as_str(),
            CrateSource::Stdlib { name } => name.as_str(),
            CrateSource::External { name, .. } => name.as_str(),
        }
    }

    /// Returns the version string, if known.
    pub fn version(&self) -> (r: Option<&str>)
        ensures
            match r {
                Some(v) => self.spec_version() == Some(v@),
                None => self.spec_version() is None,
            },
    {
        match self {
            CrateSource::CurrentCrate { version, .. } => Some(version.as_str()),
            CrateSource::Dependency { version, .. } => Some(version.as_str()),
            CrateSource::Stdlib { .. } => None,
            CrateSource::External { version, .. } => match version {
                Some(v) => Some(v.as_str()),
                None => None,
            },
        }
    }

    /// Whether this is a crate to fetch from crates.io.
    pub fn is_external(&self) -> (r: bool)
        ensures
            r == (self is External),
    {
        match self {
            CrateSource::External { .. } => true,
            _ => false,
        }
    }
}

/// A crate name with its hyphens as underscores.
pub open spec fn spec_normalize(name: Seq<char>) -> Seq<char> {
    replace_char(name, '-', '_')
}

/// Normalizing twice is normalizing once.
pub proof fn lemma_normalize_idempotent(name: Seq<char>)
    ensures
        spec_normalize(spec_normalize(name)) == spec_normalize(name),
{
    assert(spec_normalize(spec_normalize(name)) =~= spec_normalize(name));
}

/// Normalizes a crate name: replaces hyphens with underscores.
pub fn normalize_crate_name(name: &str) -> (r: String)
    ensures
        r@ == spec_normalize(name@),
{
    string_of(replace_char_exec(chars_of(name).as_slice(), '-', '_').as_slice())
}

/// Two crate names match when they agree once hyphens and underscores are
/// identified.
pub open spec fn spec_names_match(query: Seq<char>, package_name: Seq<char>) -> bool {
    spec_normalize(query) == spec_normalize(package_name)
}

/// Returns whether two crate names match with hyphen/underscore normalization.
pub fn crate_names_match(query: &str, package_name: &str) -> (r: bool)
    ensures
        r == spec_names_match(query@, package_name@),
{
    let q = chars_of(query);
    let p = chars_of(package_name);
    let nq = replace_char_exec(q.as_slice(), '-', '_');
    let np = replace_char_exec(p.as_slice(), '-', '_');
    proof {
        lemma_normalize_idempotent(query@);
        lemma_normalize_idempotent(package_name@);
    }
    chars_eq(q.as_slice(), p.as_slice()) || chars_eq(nq.as_slice(), p.as_slice()) || chars_eq(
        q.as_slice(),
        np.as_slice(),
    ) || chars_eq(nq.as_slice(), np.as_slice())
}

/// Matching crate names is an equivalence: reflexive, symmetric and
/// transitive.
pub proof fn lemma_names_match_equivalence(a: Seq<char>, b: Seq<char>, c: Seq<char>)
    ensures
        spec_names_match(a, a),
        spec_names_match(a, b) == spec_names_match(b, a),
        spec_names_match(a, b) && spec_names_match(b, c) ==> spec_names_match(a, c),
{
}

/// A name matches its own normalized form.
pub proof fn lemma_names_match_normalized(a: Seq<char>)
    ensures
        spec_names_match(a, spec_normalize(a)),
{
    lemma_normalize_idempotent(a);
}

// ---- path components ----

/// The root component of an absolute path.
pub open spec fn root_component() -> Seq<char> {
    seq!['/']
}

/// Whether a part between separators is dropped (empty, or `.`).
pub open spec fn dropped_part(p: Seq<char>) -> bool {
    p.len() == 0 || p == seq!['.']
}

/// The parts of `s` between `/` separators, without empty and `.` parts;
/// `cur` is the part read so far.
pub open spec fn parts_from(s: Seq<char>, cur: Seq<char>) -> Seq<Seq<char>>
    decreases s.len(),
{
    if s.len() == 0 {
        if dropped_part(cur) {
            seq![]
        } else {
            seq![cur]
        }
    } else if s[0] == '/' {
        (if dropped_part(cur) {
            seq![]
        } else {
            seq![cur]
        }) + parts_from(s.drop_first(), seq![])
    } else {
        parts_from(s.drop_first(), cur.push(s[0]))
    }
}

/// The components of a path, as `Path::components` gives them on Unix: the
/// root of an absolute path, a leading `.` of a relative one, then the
/// non-empty parts other than `.`.
pub open spec fn path_components(s: Seq<char>) -> Seq<Seq<char>> {
    let absolute = s.len() > 0 && s[0] == '/';
    let lead_dot = !absolute && s.len() > 0 && s[0] == '.' && (s.len() == 1 || s[1] == '/');
    (if absolute {
        seq![root_component()]
    } else if lead_dot {
        seq![seq!['.']]
    } else {
        seq![]
    }) + parts_from(s, seq![])
}

/// Collects the parts of `s` (see [`parts_from`]).
fn parts_exec(s: &[char]) -> (r: Vec<Vec<char>>)
    ensures
        r@.map_values(|v: Vec<char>| v@) == parts_from(s@, seq![]),
{
    let mut out: Vec<Vec<char>> = Vec::new();
    let mut cur: Vec<char> = Vec::new();
    let mut i: usize = 0;
    assert(s@.skip(0) =~= s@);
    assert(out@.map_values(|v: Vec<char>| v@) + parts_from(s@, seq![]) =~= parts_from(
        s@,
        seq![],
    ));
    while i < s.len()
        invariant
            i <= s@.len(),
            out@.map_values(|v: Vec<char>| v@) + parts_from(s@.skip(i as int), cur@) == parts_from(
                s@,
                seq![],
            ),
        decreases s.len() - i,
    {
        let ghost rest = s@.skip(i as int);
        let ghost ov = out@.map_values(|v: Vec<char>| v@);
        assert(rest[0] == s@[i as int]);
        assert(rest.drop_first() =~= s@.skip(i + 1));
        let c = s[i];
        if c == '/' {
            let keep = !(cur.len() == 0 || (cur.len() == 1 && cur[0] == '.'));
            assert(keep == !dropped_part(cur@)) by {
                if cur@.len() == 1 && cur@[0] == '.' {
                    assert(cur@ =~= seq!['.']);
                }
            }
            if keep {
                let ghost cv = cur@;
                out.push(cur);
                assert(out@.map_values(|v: Vec<char>| v@) =~= ov.push(cv));
                assert(ov + (seq![cv] + parts_from(rest.drop_first(), seq![])) =~= ov.push(cv)
                    + parts_from(rest.drop_first(), seq![]));
            } else {
                assert(seq![] + parts_from(rest.drop_first(), seq![]) =~= parts_from(
                    rest.drop_first(),
                    seq![],
                ));
            }
            cur = Vec::new();
            assert(cur@ =~= Seq::<char>::empty());
        } else {
            cur.push(c);
        }
        i = i + 1;
    }
    assert(s@.skip(i as int) =~= Seq::<char>::empty());
    let ghost ov = out@.map_values(|v: Vec<char>| v@);
    let keep = !(cur.len() == 0 || (cur.len() == 1 && cur[0] == '.'));
    assert(keep == !dropped_part(cur@)) by {
        if cur@.len() == 1 && cur@[0] == '.' {
            assert(cur@ =~= seq!['.']);
        }
    }
    if keep {
        let ghost cv = cur@;
        out.push(cur);
        assert(out@.map_values(|v: Vec<char>| v@) =~= ov.push(cv));
        assert(ov + seq![cv] =~= ov.push(cv));
    } else {
        assert(ov + Seq::<Seq<char>>::empty() =~= ov);
    }
    out
}

/// Splits a path into its components (see [`path_components`]).
pub fn path_components_exec(s: &str) -> (r: Vec<Vec<char>>)
    ensures
        r@.map_values(|v: Vec<char>| v@) == path_components(s@),
{
    let c = chars_of(s);
    let absolute = c.len() > 0 && c[0] == '/';
    let lead_dot = !absolute && c.len() > 0 && c[0] == '.' && (c.len() == 1 || c[1] == '/');
    let mut out: Vec<Vec<char>> = Vec::new();
    if absolute {
        let mut root: Vec<char> = Vec::new();
        root.push('/');
        out.push(root);
    } else if lead_dot {
        let mut dot: Vec<char> = Vec::new();
        dot.push('.');
        out.push(dot);
    }
    let ghost head = out@.map_values(|v: Vec<char>| v@);
    assert(head =~= (if absolute {
        seq![root_component()]
    } else if lead_dot {
        seq![seq!['.']]
    } else {
        seq![]
    }));
    let parts = parts_exec(c.as_slice());
    let ghost pv = parts@.map_values(|v: Vec<char>| v@);
    let mut k: usize = 0;
    while k < parts.len()
        invariant
            k <= parts@.len(),
            pv == parts@.map_values(|v: Vec<char>| v@),
            out@.map_values(|v: Vec<char>| v@) == head + pv.take(k as int),
        decreases parts.len() - k,
    {
        let ghost before = out@.map_values(|v: Vec<char>| v@);
        out.push(crate::text::copy_chars(parts[k].as_slice()));
        assert(out@.map_values(|v: Vec<char>| v@) =~= before.push(pv[k as int]));
        assert(pv.take(k + 1) =~= pv.take(k as int).push(pv[k as int]));
        k = k + 1;
    }
    assert(pv.take(k as int) =~= pv);
    out
}

/// How many leading components two component lists share, counting from `i`.
pub open spec fn common_from(a: Seq<Seq<char>>, b: Seq<Seq<char>>, i: nat) -> nat
    decreases a.len() - i,
{
    if i < a.len() && i < b.len() && a[i as int] == b[i as int] {
        common_from(a, b, i + 1)
    } else {
        i
    }
}

/// The number of components in which two component lists differ: those of
/// each after their common prefix.
pub open spec fn component_distance(a: Seq<Seq<char>>, b: Seq<Seq<char>>) -> nat {
    let c = common_from(a, b, 0);
    ((a.len() - c) + (b.len() - c)) as nat
}

/// `n`, or the largest `usize` where `n` is larger.
pub open spec fn capped(n: nat) -> nat {
    if n <= usize::MAX {
        n
    } else {
        usize::MAX as nat
    }
}

/// The distance between two paths: the components in which they differ.
pub open spec fn spec_path_distance(a: Seq<char>, b: Seq<char>) -> nat {
    component_distance(path_components(a), path_components(b))
}

/// The common prefix never runs past either list.
pub proof fn lemma_common_bounds(a: Seq<Seq<char>>, b: Seq<Seq<char>>, i: nat)
    requires
        i <= a.len(),
        i <= b.len(),
    ensures
        i <= common_from(a, b, i) <= a.len(),
        common_from(a, b, i) <= b.len(),
    decreases a.len() - i,
{
    if i < a.len() && i < b.len() && a[i as int] == b[i as int] {
        lemma_common_bounds(a, b, i + 1);
    }
}

/// The common prefix does not depend on the order of the two lists.
pub proof fn lemma_common_symmetric(a: Seq<Seq<char>>, b: Seq<Seq<char>>, i: nat)
    ensures
        common_from(a, b, i) == common_from(b, a, i),
    decreases a.len() - i,
{
    if i < a.len() && i < b.len() && a[i as int] == b[i as int] {
        lemma_common_symmetric(a, b, i + 1);
    }
}

/// A list shares all of itself with itself.
pub proof fn lemma_common_self(a: Seq<Seq<char>>, i: nat)
    requires
        i <= a.len(),
    ensures
        common_from(a, a, i) == a.len(),
    decreases a.len() - i,
{
    if i < a.len() {
        lemma_common_self(a, i + 1);
    }
}

/// The distance between two paths is symmetric, and zero from a path to
/// itself.
pub proof fn lemma_path_distance_laws(a: Seq<char>, b: Seq<char>)
    ensures
        spec_path_distance(a, b) == spec_path_distance(b, a),
        spec_path_distance(a, a) == 0,
{
    lemma_common_symmetric(path_components(a), path_components(b), 0);
    lemma_common_self(path_components(a), 0);
}

/// The distance between two component lists, capped at the largest `usize`.
pub fn component_distance_exec(a: &Vec<Vec<char>>, b: &Vec<Vec<char>>) -> (r: usize)
    ensures
        r == capped(
            component_distance(
                a@.map_values(|v: Vec<char>| v@),
                b@.map_values(|v: Vec<char>| v@),
            ),
        ),
{
    let ghost av = a@.map_values(|v: Vec<char>| v@);
    let ghost bv = b@.map_values(|v: Vec<char>| v@);
    let mut i: usize = 0;
    proof {
        lemma_common_bounds(av, bv, 0);
    }
    while i < a.len() && i < b.len() && chars_eq(a[i].as_slice(), b[i].as_slice())
        invariant
            i <= a@.len(),
            i <= b@.len(),
            av == a@.map_values(|v: Vec<char>| v@),
            bv == b@.map_values(|v: Vec<char>| v@),
            common_from(av, bv, 0) == common_from(av, bv, i as nat),
        decreases a.len() - i,
    {
        assert(av[i as int] == a@[i as int]@);
        assert(bv[i as int] == b@[i as int]@);
        i = i + 1;
    }
    proof {
        if i < a@.len() && i < b@.len() {
            assert(av[i as int] == a@[i as int]@);
            assert(bv[i as int] == b@[i as int]@);
        }
    }
    let da = a.len() - i;
    let db = b.len() - i;
    if da > usize::MAX - db {
        usize::MAX
    } else {
        da + db
    }
}

/// Computes the distance between two paths as the number of differing
/// components (capped at the largest `usize`).
pub fn path_distance(a: &str, b: &str) -> (r: usize)
    ensures
        r == capped(spec_path_distance(a@, b@)),
{
    let ca = path_components_exec(a);
    let cb = path_components_exec(b);
    component_distance_exec(&ca, &cb)
}

// ---- the project graph ----

/// A package of the project's dependency graph.
#[derive(Debug, Clone)]
pub struct PackageInfo {
    /// Package name, hyphens kept.
    pub name: String,
    /// Package version.
    pub version: String,
    /// Path of the package's Cargo.toml.
    pub manifest_path: String,
    /// Whether the package has a library target.
    pub has_lib: bool,
}

/// Project context discovered from Cargo.toml and cargo metadata: every
/// package of the graph, the workspace members and the current package, by
/// position in `packages`.
pub struct ProjectContext {
    /// All packages of the graph (transitive dependencies included), in
    /// metadata order.
    pub packages: Vec<PackageInfo>,
    /// Workspace members, in metadata order.
    pub workspace_members: Vec<usize>,
    /// The current (root) package.
    pub current: usize,
    /// The current package's direct dependencies in the resolve graph: the
    /// name each goes by (renames kept) and its package; `None` when the graph
    /// has no node for the current package.
    pub direct_deps: Option<Vec<(String, usize)>>,
    /// Whether the workspace has no root package (a virtual manifest).
    pub virtual_workspace: bool,
}

/// The source view of package `p` as a dependency.
pub open spec fn dependency_view(p: PackageInfo) -> SourceView {
    SourceView::Dependency(p.manifest_path@, p.name@, p.version@)
}

/// The source view of package `p` as the current crate.
pub open spec fn current_view(p: PackageInfo) -> SourceView {
    SourceView::CurrentCrate(p.manifest_path@, p.name@, p.version@)
}

/// The first direct dependency, from position `i` on, whose name matches `q`.
pub open spec fn dep_from(deps: Seq<(String, usize)>, q: Seq<char>, i: int) -> Option<usize>
    decreases deps.len() - i,
{
    if i < 0 || i >= deps.len() {
        None
    } else if spec_names_match(q, deps[i].0@) {
        Some(deps[i].1)
    } else {
        dep_from(deps, q, i + 1)
    }
}

impl ProjectContext {
    /// Every package position in the context is in bounds.
    pub open spec fn wf(&self) -> bool {
        &&& self.current < self.packages@.len()
        &&& forall|i: int|
            0 <= i < self.workspace_members@.len() ==> #[trigger] self.workspace_members@[i]
                < self.packages@.len()
        &&& match self.direct_deps {
            Some(d) => forall|i: int|
                0 <= i < d@.len() ==> (#[trigger] d@[i]).1 < self.packages@.len(),
            None => true,
        }
    }

    /// The name of package `p`.
    pub open spec fn pkg_name(&self, p: int) -> Seq<char> {
        self.packages@[p].name@
    }

    /// The first workspace member other than the current package, from
    /// position `i` on, whose name matches `q`.
    pub open spec fn member_from(&self, q: Seq<char>, i: int) -> Option<usize>
        decreases self.workspace_members@.len() - i,
    {
        if i < 0 || i >= self.workspace_members@.len() {
            None
        } else if self.workspace_members@[i] != self.current && spec_names_match(
            q,
            self.pkg_name(self.workspace_members@[i] as int),
        ) {
            Some(self.workspace_members@[i])
        } else {
            self.member_from(q, i + 1)
        }
    }

    /// The first package other than the current one, from position `i` on,
    /// whose name matches `q`.
    pub open spec fn package_from(&self, q: Seq<char>, i: int) -> Option<usize>
        decreases self.packages@.len() - i,
    {
        if i < 0 || i >= self.packages@.len() {
            None
        } else if i != self.current && spec_names_match(q, self.pkg_name(i)) {
            Some(i as usize)
        } else {
            self.package_from(q, i + 1)
        }
    }

    /// The direct dependency that `q` names, if any.
    pub open spec fn spec_direct_dep(&self, q: Seq<char>) -> Option<usize> {
        match self.direct_deps {
            Some(d) => dep_from(d@, q, 0),
            None => None,
        }
    }

    /// The resolution chain of a crate name: the current crate, then direct
    /// dependencies, workspace members, all packages, the standard library,
    /// and finally crates.io.
    pub open spec fn spec_resolve_named(&self, q: Seq<char>) -> SourceView {
        if spec_names_match(q, self.pkg_name(self.current as int)) {
            current_view(self.packages@[self.current as int])
        } else if self.spec_direct_dep(q) is Some {
            dependency_view(self.packages@[self.spec_direct_dep(q)->0 as int])
        } else if self.member_from(q, 0) is Some {
            dependency_view(self.packages@[self.member_from(q, 0)->0 as int])
        } else if self.package_from(q, 0) is Some {
            dependency_view(self.packages@[self.package_from(q, 0)->0 as int])
        } else if spec_is_stdlib_crate(q) {
            SourceView::Stdlib(q)
        } else {
            SourceView::External(q, None)
        }
    }

    /// What a crate specification resolves to.
    pub open spec fn spec_resolve_crate(&self, spec: CrateSpecView) -> SourceView {
        match spec {
            CrateSpecView::CurrentCrate => current_view(self.packages@[self.current as int]),
            CrateSpecView::Versioned(n, v) => SourceView::External(n, Some(v)),
            CrateSpecView::Named(n) => self.spec_resolve_named(n),
        }
    }

    /// Returns the manifest path of the current package.
    pub fn current_manifest_path(&self) -> (r: &str)
        requires
            self.wf(),
        ensures
            r@ == self.packages@[self.current as int].manifest_path@,
    {
        self.packages[self.current].manifest_path.as_str()
    }

    /// Whether every package position in the context is in bounds.
    pub fn check_wf(&self) -> (r: bool)
        ensures
            r == self.wf(),
    {
        let n = self.packages.len();
        if self.current >= n {
            return false;
        }
        let mut i: usize = 0;
        while i < self.workspace_members.len()
            invariant
                i <= self.workspace_members@.len(),
                n == self.packages@.len(),
                forall|j: int| 0 <= j < i ==> #[trigger] self.workspace_members@[j] < n,
            decreases self.workspace_members.len() - i,
        {
            if self.workspace_members[i] >= n {
                return false;
            }
            i = i + 1;
        }
        match &self.direct_deps {
            Some(d) => {
                let mut k: usize = 0;
                while k < d.len()
                    invariant
                        k <= d@.len(),
                        n == self.packages@.len(),
                        self.direct_deps == Some(*d),
                        forall|j: int| 0 <= j < k ==> (#[trigger] d@[j]).1 < n,
                    decreases d.len() - k,
                {
                    if d[k].1 >= n {
                        proof {
                            let dd = self.direct_deps->0;
                            assert(dd == *d);
                            assert(dd@[k as int].1 >= n);
                        }
                        return false;
                    }
                    k = k + 1;
                }
                true
            },
            None => true,
        }
    }

    /// Returns true if the workspace has no root package (virtual manifest).
    pub fn is_virtual_workspace(&self) -> (r: bool)
        ensures
            r == self.virtual_workspace,
    {
        self.virtual_workspace
    }

    /// Package `p` as a crate source of the given variant.
    fn package_source(&self, p: usize, current: bool) -> (r: CrateSource)
        requires
            p < self.packages@.len(),
        ensures
            r@ == (if current {
                current_view(self.packages@[p as int])
            } else {
                dependency_view(self.packages@[p as int])
            }),
    {
        let pkg = &self.packages[p];
        if current {
            CrateSource::CurrentCrate {
                manifest_path: pkg.manifest_path.clone(),
                name: pkg.name.clone(),
                version: pkg.version.clone(),
            }
        } else {
            CrateSource::Dependency {
                manifest_path: pkg.manifest_path.clone(),
                name: pkg.name.clone(),
                version: pkg.version.clone(),
            }
        }
    }

    /// Searches the direct dependencies of the current crate (renamed
    /// dependencies go by their rename).
    fn find_in_direct_deps(&self, query: &str) -> (r: Option<usize>)
        requires
            self.wf(),
        ensures
            r == self.spec_direct_dep(query@),
    {
        match &self.direct_deps {
            None => None,
            Some(deps) => {
                let mut i: usize = 0;
                while i < deps.len()
                    invariant
                        self.direct_deps == Some(*deps),
                        i <= deps@.len(),
                        dep_from(deps@, query@, 0) == dep_from(deps@, query@, i as int),
                    decreases deps.len() - i,
                {
                    if crate_names_match(query, deps[i].0.as_str()) {
                        return Some(deps[i].1);
                    }
                    i = i + 1;
                }
                None
            },
        }
    }

    /// Searches workspace members by crate name.
    fn find_in_workspace(&self, query: &str) -> (r: Option<usize>)
        requires
            self.wf(),
        ensures
            r == self.member_from(query@, 0),
    {
        let mut i: usize = 0;
        while i < self.workspace_members.len()
            invariant
                self.wf(),
                i <= self.workspace_members@.len(),
                self.member_from(query@, 0) == self.member_from(query@, i as int),
            decreases self.workspace_members.len() - i,
        {
            let m = self.workspace_members[i];
            if m != self.current && crate_names_match(query, self.packages[m].name.as_str()) {
                return Some(m);
            }
            i = i + 1;
        }
        None
    }

    /// Searches all packages (transitive dependencies) by crate name.
    fn find_in_all_packages(&self, query: &str) -> (r: Option<usize>)
        requires
            self.wf(),
        ensures
            r == self.package_from(query@, 0),
    {
        let mut i: usize = 0;
        while i < self.packages.len()
            invariant
                self.wf(),
                i <= self.packages@.len(),
                self.package_from(query@, 0) == self.package_from(query@, i as int),
            decreases self.packages.len() - i,
        {
            if i != self.current && crate_names_match(query, self.packages[i].name.as_str()) {
                return Some(i);
            }
            i = i + 1;
        }
        None
    }

    /// Resolves a named crate through the full resolution chain.
    pub fn resolve_named(&self, query: &str) -> (r: CrateSource)
        requires
            self.wf(),
        ensures
            r@ == self.spec_resolve_named(query@),
    {
        if crate_names_match(query, self.packages[self.current].name.as_str()) {
            return self.package_source(self.current, true);
        }
        if let Some(p) = self.find_in_direct_deps(query) {
            proof {
                let d = self.direct_deps->0;
                lemma_dep_from_in_bounds(d@, query@, 0, self.packages@.len());
            }
            return self.package_source(p, false);
        }
        if let Some(p) = self.find_in_workspace(query) {
            proof {
                self.lemma_member_from_in_bounds(query@, 0);
            }
            return self.package_source(p, false);
        }
        if let Some(p) = self.find_in_all_packages(query) {
            proof {
                self.lemma_package_from_in_bounds(query@, 0);
            }
            return self.package_source(p, false);
        }
        if is_stdlib_crate(query) {
            return CrateSource::Stdlib { name: string_of(chars_of(query).as_slice()) };
        }
        CrateSource::External { name: string_of(chars_of(query).as_slice()), version: None }
    }

    /// Resolves a `CrateSpec` to a `CrateSource`.
    pub fn resolve_crate(&self, spec: &CrateSpec) -> (r: CrateSource)
        requires
            self.wf(),
        ensures
            r@ == self.spec_resolve_crate(spec@),
    {
        match spec {
            CrateSpec::CurrentCrate => self.package_source(self.current, true),
            CrateSpec::Versioned { name, version } => CrateSource::External {
                name: name.clone(),
                version: Some(version.clone()),
            },
            CrateSpec::Named(name) => self.resolve_named(name.as_str()),
        }
    }

    /// A member found by [`Self::member_from`] is a package of the context.
    pub proof fn lemma_member_from_in_bounds(&self, q: Seq<char>, i: int)
        requires
            self.wf(),
        ensures
            self.member_from(q, i) matches Some(p) ==> p < self.packages@.len(),
        decreases self.workspace_members@.len() - i,
    {
        if 0 <= i < self.workspace_members@.len() {
            self.lemma_member_from_in_bounds(q, i + 1);
        }
    }

    /// A package found by [`Self::package_from`] is in bounds.
    pub proof fn lemma_package_from_in_bounds(&self, q: Seq<char>, i: int)
        ensures
            self.package_from(q, i) matches Some(p) ==> p < self.packages@.len(),
        decreases self.packages@.len() - i,
    {
        if 0 <= i < self.packages@.len() {
            self.lemma_package_from_in_bounds(q, i + 1);
        }
    }
}

/// A dependency found by [`dep_from`] is one of the listed packages.
pub proof fn lemma_dep_from_in_bounds(deps: Seq<(String, usize)>, q: Seq<char>, i: int, n: nat)
    requires
        forall|j: int| 0 <= j < deps.len() ==> (#[trigger] deps[j]).1 < n,
    ensures
        dep_from(deps, q, i) matches Some(p) ==> p < n,
    decreases deps.len() - i,
{
    if 0 <= i < deps.len() {
        lemma_dep_from_in_bounds(deps, q, i + 1, n);
    }
}

impl ProjectContext {
    /// The workspace members as sort entries keyed by package name.
    pub open spec fn member_entries(&self) -> Seq<EntryView> {
        Seq::new(
            self.workspace_members@.len(),
            |i: int|
                (
                    0u64,
                    self.pkg_name(self.workspace_members@[i] as int),
                    self.workspace_members@[i],
                ),
        )
    }

    /// Returns all workspace member packages, sorted by name (stably: members
    /// of equal name keep their metadata order).
    pub fn workspace_member_packages(&self) -> (r: Vec<usize>)
        requires
            self.wf(),
        ensures
            r@ == payloads(stable_sort(self.member_entries())),
    {
        let mut entries: Vec<SortEntry> = Vec::new();
        let mut i: usize = 0;
        while i < self.workspace_members.len()
            invariant
                self.wf(),
                i <= self.workspace_members@.len(),
                entry_views(entries@) == self.member_entries().take(i as int),
            decreases self.workspace_members.len() - i,
        {
            let m = self.workspace_members[i];
            let ghost before = entry_views(entries@);
            entries.push(SortEntry { major: 0, minor: chars_of(self.packages[m].name.as_str()), item: m });
            assert(entry_views(entries@) =~= before.push(self.member_entries()[i as int]));
            assert(self.member_entries().take(i + 1) =~= self.member_entries().take(i as int).push(
                self.member_entries()[i as int],
            ));
            i = i + 1;
        }
        assert(self.member_entries().take(i as int) =~= self.member_entries());
        let sorted = sort_entries(entries);
        entry_payloads(&sorted)
    }
}

// ---- choosing the current package ----

/// The distance from the working directory to the directory of a member's
/// manifest (capped), or `None` where the manifest path has no parent.
pub open spec fn member_distance(cwd: Seq<char>, manifest: Seq<char>) -> Option<nat> {
    let c = path_components(manifest);
    if c.len() == 0 || c.last() == root_component() {
        None
    } else {
        Some(capped(component_distance(path_components(cwd), c.drop_last())))
    }
}

/// The distances of the members' manifest directories from `cwd`.
pub open spec fn member_distances(cwd: Seq<char>, members: Seq<(usize, String)>) -> Seq<Option<nat>> {
    Seq::new(members.len(), |k: int| member_distance(cwd, members[k].1@))
}

/// Position `j` holds the smallest distance, and is the first to hold it.
pub open spec fn is_closest(ds: Seq<Option<nat>>, j: int) -> bool {
    &&& 0 <= j < ds.len()
    &&& ds[j] is Some
    &&& forall|k: int| 0 <= k < ds.len() && (#[trigger] ds[k]) is Some ==> ds[j]->0 <= ds[k]->0
    &&& forall|k: int| 0 <= k < j && (#[trigger] ds[k]) is Some ==> ds[j]->0 < ds[k]->0
}

/// At most one position is the closest.
pub proof fn lemma_closest_unique(ds: Seq<Option<nat>>, i: int, j: int)
    requires
        is_closest(ds, i),
        is_closest(ds, j),
    ensures
        i == j,
{
    if i < j {
        assert(ds[i] is Some);
    } else if j < i {
        assert(ds[j] is Some);
    }
}

/// The distance of a member's manifest directory from the working
/// directory, given the working directory's components.
fn member_distance_exec(cwd: &str, cwd_comps: &Vec<Vec<char>>, manifest: &str) -> (r: Option<usize>)
    requires
        cwd_comps@.map_values(|v: Vec<char>| v@) == path_components(cwd@),
    ensures
        match r {
            Some(d) => member_distance(cwd@, manifest@) == Some(d as nat),
            None => member_distance(cwd@, manifest@) is None,
        },
{
    let mut mc = path_components_exec(manifest);
    let ghost mv = mc@.map_values(|v: Vec<char>| v@);
    let n = mc.len();
    if n == 0 {
        return None;
    }
    let is_root = mc[n - 1].len() == 1 && mc[n - 1][0] == '/';
    assert(is_root == (mv.last() == root_component())) by {
        assert(mv.last() == mc@[n - 1]@);
        if mc@[n - 1]@.len() == 1 && mc@[n - 1]@[0] == '/' {
            assert(mc@[n - 1]@ =~= root_component());
        }
    }
    if is_root {
        return None;
    }
    mc.pop();
    assert(mc@.map_values(|v: Vec<char>| v@) =~= mv.drop_last());
    Some(component_distance_exec(cwd_comps, &mc))
}

/// Determines the current package: the root package of a non-virtual
/// workspace; else the workspace member whose manifest directory is closest
/// to the working directory (the first of equally close ones); else the first
/// workspace member. `members` holds each member's package and manifest path.
pub fn determine_current_package(
    root: Option<usize>,
    cwd: Option<&str>,
    members: &Vec<(usize, String)>,
) -> (r: Result<usize, GroxError>)
    ensures
        root is Some ==> r == Ok::<usize, GroxError>(root->0),
        root is None && cwd is Some && (exists|k: int|
            0 <= k < members@.len() && (#[trigger] member_distances(cwd->0@, members@)[k]) is Some)
            ==> exists|j: int|
            is_closest(member_distances(cwd->0@, members@), j) && r == Ok::<usize, GroxError>(
                members@[j].0,
            ),
        root is None && !(cwd is Some && (exists|k: int|
            0 <= k < members@.len() && (#[trigger] member_distances(cwd->0@, members@)[k]) is Some))
            ==> r == (if members@.len() > 0 {
            Ok::<usize, GroxError>(members@[0].0)
        } else {
            Err::<usize, GroxError>(GroxError::ManifestNotFound)
        }),
{
    if let Some(p) = root {
        return Ok(p);
    }
    if let Some(c) = cwd {
        let cc = path_components_exec(c);
        let ghost ds = member_distances(c@, members@);
        let mut best: Option<(usize, usize)> = None;
        let mut i: usize = 0;
        while i < members.len()
            invariant
                i <= members@.len(),
                ds == member_distances(c@, members@),
                cc@.map_values(|v: Vec<char>| v@) == path_components(c@),
                best is None ==> forall|k: int| 0 <= k < i ==> (#[trigger] ds[k]) is None,
                best matches Some(b) ==> b.0 < i && ds[b.0 as int] == Some(b.1 as nat) && (forall|k: int|
                    0 <= k < i && (#[trigger] ds[k]) is Some ==> b.1 <= ds[k]->0) && (forall|k: int|
                    0 <= k < b.0 && (#[trigger] ds[k]) is Some ==> b.1 < ds[k]->0),
            decreases members.len() - i,
        {
            let d = member_distance_exec(c, &cc, members[i].1.as_str());
            assert(ds[i as int] == member_distance(c@, members@[i as int].1@));
            if let Some(dist) = d {
                let better = match best {
                    None => true,
                    Some(b) => dist < b.1,
                };
                if better {
                    best = Some((i, dist));
                }
            }
            i = i + 1;
        }
        if let Some(b) = best {
            assert(is_closest(ds, b.0 as int));
            return Ok(members[b.0].0);
        }
    }
    if members.len() > 0 {
        Ok(members[0].0)
    } else {
        Err(GroxError::ManifestNotFound)
    }
}

/// Resolves a `CrateSpec` without a project context: only the standard
/// library and crates.io are available.
pub fn resolve_crate_without_context(spec: &CrateSpec) -> (r: Result<CrateSource, GroxError>)
    ensures
        match spec@ {
            CrateSpecView::CurrentCrate => r == Err::<CrateSource, GroxError>(GroxError::ManifestNotFound),
            CrateSpecView::Versioned(n, v) => r matches Ok(s) && s@ == SourceView::External(n, Some(v)),
            CrateSpecView::Named(n) => r matches Ok(s) && s@ == (if spec_is_stdlib_crate(n) {
                SourceView::Stdlib(n)
            } else {
                SourceView::External(n, None)
            }),
        },
{
    match spec {
        CrateSpec::CurrentCrate => Err(GroxError::ManifestNotFound),
        CrateSpec::Versioned { name, version } => Ok(
            CrateSource::External { name: name.clone(), version: Some(version.clone()) },
        ),
        CrateSpec::Named(name) => {
            if is_stdlib_crate(name.as_str()) {
                Ok(CrateSource::Stdlib { name: name.clone() })
            } else {
                Ok(CrateSource::External { name: name.clone(), version: None })
            }
        },
    }
}

/// The notice printed before fetching a crate that the project does not
/// depend on.
pub open spec fn spec_auto_fetch_message(name: Seq<char>, version: Option<Seq<char>>) -> Seq<char> {
    match version {
        Some(v) => "[grox] "@ + name + " not in project deps, fetching "@ + v + " from crates.io..."@,
        None => "[grox] "@ + name + " not in project deps, fetching latest from crates.io..."@,
    }
}

/// Formats the auto-fetch notice.
pub fn auto_fetch_message(name: &str, version: Option<&str>) -> (r: String)
    ensures
        r@ == spec_auto_fetch_message(
            name@,
            match version {
                Some(v) => Some(v@),
                None => None,
            },
        ),
{
    let mut out = chars_of("[grox] ");
    append_str(&mut out, name);
    match version {
        Some(v) => {
            append_str(&mut out, " not in project deps, fetching ");
            append_str(&mut out, v);
            append_str(&mut out, " from crates.io...");
        },
        None => {
            append_str(&mut out, " not in project deps, fetching latest from crates.io...");
        },
    }
    string_of(out.as_slice())
}

/// Resolves the crate of a query to its source, with the single-segment
/// reinterpretation: a name that no project package has and that looks like
/// an item (`grox HashMap`) is an item of the current crate. The flag says
/// whether the crate is about to be fetched from crates.io, which the caller
/// announces with [`auto_fetch_message`].
pub fn resolve_crate_source(ctx: Option<&ProjectContext>, query: QueryPath) -> (r: Result<
    (CrateSource, QueryPath, bool),
    GroxError,
>)
    requires
        ctx matches Some(c) ==> c.wf(),
    ensures
        match query.crate_spec@ {
            CrateSpecView::CurrentCrate => match ctx {
                Some(c) => r matches Ok((s, q, f)) && s@ == c.spec_resolve_crate(
                    CrateSpecView::CurrentCrate,
                ) && q == query && !f,
                None => r == Err::<(CrateSource, QueryPath, bool), GroxError>(
                    GroxError::ManifestNotFound,
                ),
            },
            CrateSpecView::Versioned(n, v) => r matches Ok((s, q, f)) && s@ == SourceView::External(
                n,
                Some(v),
            ) && q == query && !f,
            CrateSpecView::Named(n) => match ctx {
                Some(c) => {
                    let found = c.spec_resolve_named(n);
                    if found is External && query.item_segments@.len() == 0
                        && spec_looks_like_item_name(n) {
                        r matches Ok((s, q, f)) && s@ == c.spec_resolve_crate(
                            CrateSpecView::CurrentCrate,
                        ) && q.crate_spec@ == CrateSpecView::CurrentCrate && string_views(
                            q.item_segments@,
                        ) == seq![n] && !f
                    } else {
                        r matches Ok((s, q, f)) && s@ == found && q == query && f == (found is External)
                    }
                },
                None => r matches Ok((s, q, f)) && s@ == (if spec_is_stdlib_crate(n) {
                    SourceView::Stdlib(n)
                } else {
                    SourceView::External(n, None)
                }) && q == query && f == !spec_is_stdlib_crate(n),
            },
        },
{
    match &query.crate_spec {
        CrateSpec::CurrentCrate => {
            match ctx {
                Some(c) => {
                    let s = c.resolve_crate(&CrateSpec::CurrentCrate);
                    Ok((s, query, false))
                },
                None => Err(GroxError::ManifestNotFound),
            }
        },
        CrateSpec::Versioned { name, version } => {
            let s = CrateSource::External { name: name.clone(), version: Some(version.clone()) };
            Ok((s, query, false))
        },
        CrateSpec::Named(name) => {
            match ctx {
                Some(c) => {
                    let source = c.resolve_named(name.as_str());
                    if source.is_external() {
                        if query.item_segments.len() == 0 && looks_like_item_name(name.as_str()) {
                            let current = c.resolve_crate(&CrateSpec::CurrentCrate);
                            let mut segs: Vec<String> = Vec::new();
                            segs.push(name.clone());
                            let reinterpreted = QueryPath {
                                crate_spec: CrateSpec::CurrentCrate,
                                item_segments: segs,
                            };
                            assert(string_views(reinterpreted.item_segments@) =~= seq![name@]);
                            return Ok((current, reinterpreted, false));
                        }
                        return Ok((source, query, true));
                    }
                    Ok((source, query, false))
                },
                None => {
                    let source = CrateSource::External { name: name.clone(), version: None };
                    if is_stdlib_crate(name.as_str()) {
                        return Ok((CrateSource::Stdlib { name: name.clone() }, query, false));
                    }
                    Ok((source, query, true))
                },
            }
        },
    }
}

} // verus!
