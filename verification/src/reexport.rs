//! Following re-exports: parsing a stub's source path, finding the
//! canonical item by name, and planning descents into other crates through
//! prefix and glob re-exports.
//!
//! Loading another crate's index is I/O; the descent functions here compute
//! what to load and what to look up there, and [`descent_outcome`] decides
//! what a loaded index answers.
use vstd::prelude::*;
use crate::cli::{string_views, QueryPath, CrateSpec};
use crate::query::{
    all_in_bounds, first_where, found_in_bounds, is_reexport_stub, item_at, qr_view,
    spec_is_reexport_stub, QueryView,
};
use crate::resolution::{char_vecs, resolve_item, spec_resolve_item};
use crate::text::{
    any_upper, any_upper_exec, chars_eq, occurs_at_exec, chars_of, find_from, find_from_exec, join, join_exec,
    lower, lower_chars, path_sep, path_sep_exec, segments, segments_exec, slice_to_vec,
    occurs_at, starts_with, starts_with_exec, string_of, trim, trim_exec, trim_end_char,
    trim_end_char_exec,
};
use crate::types::{spec_matches_filter, DocIndex, GlobUse, IndexItem, ItemKind, QueryResult};

verus! {

// ---------------------------------------------------------------------------
// Stub source
// ---------------------------------------------------------------------------

/// The prefix `pub use ` of a stub signature.
pub open spec fn pub_use() -> Seq<char> {
    seq!['p', 'u', 'b', ' ', 'u', 's', 'e', ' ']
}

/// The separator ` as ` of a renaming `use`.
pub open spec fn as_sep() -> Seq<char> {
    seq![' ', 'a', 's', ' ']
}

/// The source path of a re-export stub: the recorded source if any, else
/// the path after `pub use ` in the signature (up to ` as `, or with
/// trailing `;` and surrounding whitespace removed); `None` when empty or
/// when the signature is not a `pub use`.
pub open spec fn spec_reexport_source(it: IndexItem) -> Option<Seq<char>> {
    match it.reexport_source {
        Some(s) => Some(s@),
        None => if !starts_with(it.signature@, pub_use()) {
            None
        } else {
            let rest = it.signature@.skip(8);
            let src = match find_from(rest, as_sep(), 0) {
                Some(p) => rest.take(p),
                None => trim(trim_end_char(rest, ';')),
            };
            if src.len() == 0 {
                None
            } else {
                Some(src)
            }
        },
    }
}

/// Parses the source crate path from a re-export stub item.
pub fn parse_reexport_source(item: &IndexItem) -> (r: Option<String>)
    ensures
        match r {
            Some(s) => spec_reexport_source(*item) == Some(s@),
            None => spec_reexport_source(*item) is None,
        },
{
    if let Some(source) = &item.reexport_source {
        return Some(source.clone());
    }
    let sig = chars_of(item.signature.as_str());
    let pu: Vec<char> = vec!['p', 'u', 'b', ' ', 'u', 's', 'e', ' '];
    assert(pu@ =~= pub_use());
    if !starts_with_exec(sig.as_slice(), pu.as_slice()) {
        return None;
    }
    let rest = slice_to_vec(sig.as_slice(), 8, sig.len());
    assert(rest@ =~= item.signature@.skip(8));
    let asp: Vec<char> = vec![' ', 'a', 's', ' '];
    assert(asp@ =~= as_sep());
    let src = match find_from_exec(rest.as_slice(), asp.as_slice(), 0) {
        Some(p) => {
            proof {
                crate::text::lemma_find_from(rest@, asp@, 0);
            }
            let t = slice_to_vec(rest.as_slice(), 0, p);
            assert(t@ =~= rest@.take(p as int));
            t
        },
        None => {
            let t = trim_end_char_exec(rest.as_slice(), ';');
            trim_exec(t.as_slice())
        },
    };
    if src.len() == 0 {
        return None;
    }
    Some(string_of(src.as_slice()))
}

// ---------------------------------------------------------------------------
// Following by name
// ---------------------------------------------------------------------------

/// A non-stub item named exactly `name`.
pub open spec fn named_non_stub(idx: &DocIndex, name: Seq<char>) -> spec_fn(usize) -> bool {
    |i: usize| item_at(idx, i).name@ == name && !spec_is_reexport_stub(item_at(idx, i))
}

/// An item named exactly `name`.
pub open spec fn named(idx: &DocIndex, name: Seq<char>) -> spec_fn(usize) -> bool {
    |i: usize| item_at(idx, i).name@ == name
}

/// Name-based following: among the items stored under the lowercased last
/// segment of `item_path`, the first non-stub with exactly that name, else
/// the first item with exactly that name.
pub open spec fn spec_follow_by_name(idx: &DocIndex, item_path: Seq<char>) -> Option<usize> {
    let name = segments(item_path).last();
    let cands = idx.name_map.get_or_empty(lower(name));
    match first_where(cands, named_non_stub(idx, name)) {
        Some(i) => Some(i),
        None => first_where(cands, named(idx, name)),
    }
}

fn first_named(idx: &DocIndex, cands: &Vec<usize>, name: &[char], non_stub: bool) -> (r: Option<usize>)
    requires
        all_in_bounds(idx, cands@),
    ensures
        r == first_where(cands@, if non_stub { named_non_stub(idx, name@) } else { named(idx, name@) }),
        r matches Some(i) ==> i < idx.items@.len(),
{
    let ghost pred = if non_stub { named_non_stub(idx, name@) } else { named(idx, name@) };
    let mut t: usize = 0;
    assert(cands@.skip(0) =~= cands@);
    while t < cands.len()
        invariant
            t <= cands@.len(),
            all_in_bounds(idx, cands@),
            pred == (if non_stub { named_non_stub(idx, name@) } else { named(idx, name@) }),
            first_where(cands@, pred) == first_where(cands@.skip(t as int), pred),
        decreases cands.len() - t,
    {
        let n = cands[t];
        assert(cands@.skip(t as int)[0] == n);
        assert(cands@.skip(t as int).drop_first() =~= cands@.skip(t + 1));
        let it = &idx.items[n];
        let ok = chars_eq(chars_of(it.name.as_str()).as_slice(), name) && (!non_stub || !is_reexport_stub(it));
        if ok {
            return Some(n);
        }
        t = t + 1;
    }
    None
}

/// Falls back to a name-based lookup for the last `::` segment of
/// `item_path`, preferring real definitions over re-export stubs.
pub fn follow_by_name(source_index: &DocIndex, item_path: &str) -> (r: Option<usize>)
    requires
        source_index.positions_in_bounds(),
    ensures
        r == spec_follow_by_name(source_index, item_path@),
        r matches Some(i) ==> i < source_index.items@.len(),
{
    let p = chars_of(item_path);
    let segs = segments_exec(p.as_slice());
    proof {
        crate::text::lemma_split_nonempty(p@, path_sep());
    }
    let name = &segs[segs.len() - 1];
    let ln = lower_chars(name.as_slice());
    let cands = source_index.lookup_by_name(string_of(ln.as_slice()).as_str());
    proof {
        crate::keyed::lemma_get_below(source_index.name_map.entries(), ln@, source_index.items@.len() as int);
    }
    match first_named(source_index, &cands, name.as_slice(), true) {
        Some(i) => Some(i),
        None => first_named(source_index, &cands, name.as_slice(), false),
    }
}

// ---------------------------------------------------------------------------
// Re-export stubs on a failed lookup
// ---------------------------------------------------------------------------

/// ASCII case folding of one character, as a code point.
pub open spec fn ascii_fold(c: char) -> u32 {
    if 'A' <= c && c <= 'Z' {
        (c as u32 + 32) as u32
    } else {
        c as u32
    }
}

/// Equality up to ASCII case.
pub open spec fn eq_ignore_ascii_case(a: Seq<char>, b: Seq<char>) -> bool {
    a.len() == b.len() && forall|i: int| 0 <= i < a.len() ==> ascii_fold(#[trigger] a[i]) == ascii_fold(b[i])
}

fn ascii_fold_exec(c: char) -> (r: u32)
    ensures
        r == ascii_fold(c),
{
    if 'A' <= c && c <= 'Z' {
        c as u32 + 32
    } else {
        c as u32
    }
}

fn eq_ignore_ascii_case_exec(a: &[char], b: &[char]) -> (r: bool)
    ensures
        r == eq_ignore_ascii_case(a@, b@),
{
    if a.len() != b.len() {
        return false;
    }
    let mut i: usize = 0;
    while i < a.len()
        invariant
            i <= a@.len(),
            a@.len() == b@.len(),
            forall|j: int| 0 <= j < i ==> ascii_fold(#[trigger] a@[j]) == ascii_fold(b@[j]),
        decreases a.len() - i,
    {
        if ascii_fold_exec(a[i]) != ascii_fold_exec(b[i]) {
            return false;
        }
        i = i + 1;
    }
    true
}

/// The name test of a failed lookup: exact when the name has an uppercase
/// character, else equality up to ASCII case.
pub open spec fn name_matches(name: Seq<char>, q: Seq<char>) -> bool {
    if any_upper(q) {
        name == q
    } else {
        eq_ignore_ascii_case(name, q)
    }
}

/// Whether an item passes the optional kind filter.
pub open spec fn kind_ok(k: ItemKind, kf: Option<ItemKind>) -> bool {
    match kf {
        None => true,
        Some(f) => spec_matches_filter(k, f),
    }
}

/// A re-export stub whose name matches `q` and whose kind passes the filter.
pub open spec fn stub_match(idx: &DocIndex, q: Seq<char>, kf: Option<ItemKind>) -> spec_fn(usize) -> bool {
    |i: usize|
        item_at(idx, i).reexport_source is Some && name_matches(item_at(idx, i).name@, q) && kind_ok(
            item_at(idx, i).kind,
            kf,
        )
}

/// An item whose name matches `q` and whose kind passes the filter.
pub open spec fn any_match(idx: &DocIndex, q: Seq<char>, kf: Option<ItemKind>) -> spec_fn(usize) -> bool {
    |i: usize| name_matches(item_at(idx, i).name@, q) && kind_ok(item_at(idx, i).kind, kf)
}

/// After a failed lookup: the items stored under the lowercased last
/// segment whose name matches it — stubs with a recorded source first, any
/// item when there is none — as found (one), ambiguous (several, with the
/// joined segments as query) or nothing.
pub open spec fn spec_reexport_on_not_found(idx: &DocIndex, segs: Seq<Seq<char>>, kf: Option<ItemKind>) -> Option<QueryView> {
    if segs.len() == 0 {
        None
    } else {
        let q = segs.last();
        let cands = idx.name_map.get_or_empty(lower(q));
        let m1 = cands.filter(stub_match(idx, q, kf));
        let m = if m1.len() == 0 {
            cands.filter(any_match(idx, q, kf))
        } else {
            m1
        };
        if m.len() == 0 {
            None
        } else if m.len() == 1 {
            Some(QueryView::Found(m[0]))
        } else {
            Some(QueryView::Ambiguous(m, join(segs, path_sep())))
        }
    }
}

fn filter_matches(idx: &DocIndex, cands: &Vec<usize>, q: &[char], kf: Option<ItemKind>, stubs_only: bool) -> (r: Vec<usize>)
    requires
        all_in_bounds(idx, cands@),
    ensures
        r@ == cands@.filter(if stubs_only { stub_match(idx, q@, kf) } else { any_match(idx, q@, kf) }),
        all_in_bounds(idx, r@),
{
    let ghost pred = if stubs_only { stub_match(idx, q@, kf) } else { any_match(idx, q@, kf) };
    let strict = any_upper_exec(q);
    let mut r: Vec<usize> = Vec::new();
    let mut k: usize = 0;
    assert(cands@.take(0).filter(pred) =~= Seq::<usize>::empty()) by {
        reveal_with_fuel(Seq::<_>::filter, 1);
    }
    while k < cands.len()
        invariant
            k <= cands@.len(),
            all_in_bounds(idx, cands@),
            strict == any_upper(q@),
            pred == (if stubs_only { stub_match(idx, q@, kf) } else { any_match(idx, q@, kf) }),
            r@ == cands@.take(k as int).filter(pred),
        decreases cands.len() - k,
    {
        proof {
            crate::query::lemma_filter_take_step(cands@, pred, k as int);
        }
        let i = cands[k];
        let it = &idx.items[i];
        let name = chars_of(it.name.as_str());
        let nm = if strict {
            chars_eq(name.as_slice(), q)
        } else {
            eq_ignore_ascii_case_exec(name.as_slice(), q)
        };
        let ko = match kf {
            None => true,
            Some(f) => it.kind.matches_filter(f),
        };
        if nm && ko && (!stubs_only || it.reexport_source.is_some()) {
            r.push(i);
        }
        k = k + 1;
    }
    proof {
        crate::query::lemma_take_all(cands@);
        crate::query::lemma_filter_in_bounds(idx, cands@, pred);
    }
    r
}

/// Resolves a failed lookup through re-export stubs (or same-named items
/// elsewhere) whose name matches the last query segment.
pub fn try_resolve_reexport_on_not_found(query: &QueryPath, index: &DocIndex, kind_filter: Option<ItemKind>) -> (r: Option<QueryResult>)
    requires
        index.positions_in_bounds(),
    ensures
        match r {
            Some(x) => spec_reexport_on_not_found(index, string_views(query.item_segments@), kind_filter) == Some(qr_view(x)),
            None => spec_reexport_on_not_found(index, string_views(query.item_segments@), kind_filter) is None,
        },
        r matches Some(x) ==> found_in_bounds(index, qr_view(x)),
{
    let n = query.item_segments.len();
    if n == 0 {
        return None;
    }
    let ghost sv = string_views(query.item_segments@);
    let q = chars_of(query.item_segments[n - 1].as_str());
    assert(q@ == sv.last());
    let ql = lower_chars(q.as_slice());
    let cands = index.lookup_by_name(string_of(ql.as_slice()).as_str());
    proof {
        crate::keyed::lemma_get_below(index.name_map.entries(), ql@, index.items@.len() as int);
    }
    let m1 = filter_matches(index, &cands, q.as_slice(), kind_filter, true);
    let m = if m1.len() == 0 {
        filter_matches(index, &cands, q.as_slice(), kind_filter, false)
    } else {
        m1
    };
    if m.len() == 0 {
        return None;
    }
    if m.len() == 1 {
        return Some(QueryResult::Found { index: m[0] });
    }
    let segs = char_vecs(query.item_segments.as_slice());
    let sep = path_sep_exec();
    let joined = join_exec(segs.as_slice(), sep.as_slice());
    Some(QueryResult::Ambiguous { indices: m, query: string_of(joined.as_slice()) })
}


// ---------------------------------------------------------------------------
// Descent into other crates
// ---------------------------------------------------------------------------

/// One step of a descent into another crate.
#[derive(Debug, PartialEq, Eq)]
pub enum DescentStep {
    /// Stop the descent with no result.
    Abort,
    /// Load `source_crate`, resolve `inner_segments` there, and fall back to
    /// following `fallback_name` by name.
    Load {
        /// The crate to load.
        source_crate: String,
        /// The item segments to resolve in the loaded crate.
        inner_segments: Vec<String>,
        /// The path whose last segment is followed by name when resolution fails.
        fallback_name: String,
    },
}

/// The abstract value of a descent step.
pub enum StepView {
    Abort,
    Load(Seq<char>, Seq<Seq<char>>, Seq<char>),
}

/// The abstract value of a descent step.
pub open spec fn step_view(s: DescentStep) -> StepView {
    match s {
        DescentStep::Abort => StepView::Abort,
        DescentStep::Load { source_crate, inner_segments, fallback_name } => StepView::Load(
            source_crate@,
            string_views(inner_segments@),
            fallback_name@,
        ),
    }
}

/// The views of a list of steps.
pub open spec fn step_views(v: Seq<DescentStep>) -> Seq<StepView> {
    v.map_values(|s: DescentStep| step_view(s))
}

/// `s` split at its first `::`, if any.
pub open spec fn split_once_sep(s: Seq<char>) -> Option<(Seq<char>, Seq<char>)> {
    match find_from(s, path_sep(), 0) {
        Some(i) => Some((s.take(i), s.skip(i + 2))),
        None => None,
    }
}

/// The stub candidates for a query prefix: the positions stored under
/// `crate::prefix`, or under `prefix` when there are none.
pub open spec fn prefix_candidates(idx: &DocIndex, segs: Seq<Seq<char>>, p: int) -> Seq<usize> {
    let without = join(segs.take(p), path_sep());
    let with_crate = idx.crate_name@ + path_sep() + without;
    let c = idx.path_map.get_or_empty(with_crate);
    if c.len() == 0 {
        idx.path_map.get_or_empty(without)
    } else {
        c
    }
}

/// A candidate that records a re-export source.
pub open spec fn has_source(idx: &DocIndex) -> spec_fn(usize) -> bool {
    |i: usize| item_at(idx, i).reexport_source is Some
}

/// The step for the prefix of `p` segments: none when no candidate is a
/// stub with a source; abort when that source has no `::`; else load its
/// crate and resolve the source's item path followed by the remaining
/// segments.
pub open spec fn prefix_step(idx: &DocIndex, segs: Seq<Seq<char>>, p: int) -> Option<StepView> {
    match first_where(prefix_candidates(idx, segs, p), has_source(idx)) {
        None => None,
        Some(stub) => {
            let src = item_at(idx, stub).reexport_source->0@;
            match split_once_sep(src) {
                None => Some(StepView::Abort),
                Some((sc, sip)) => Some(
                    StepView::Load(sc, segments(sip) + segs.skip(p), join(segs.skip(p), path_sep())),
                ),
            }
        },
    }
}

/// The steps for prefixes of `p` segments down to one, stopping after an abort.
pub open spec fn prefix_plan_from(idx: &DocIndex, segs: Seq<Seq<char>>, p: int) -> Seq<StepView>
    decreases p,
{
    if p < 1 {
        seq![]
    } else {
        match prefix_step(idx, segs, p) {
            None => prefix_plan_from(idx, segs, p - 1),
            Some(StepView::Abort) => seq![StepView::Abort],
            Some(st) => seq![st] + prefix_plan_from(idx, segs, p - 1),
        }
    }
}

/// The prefix descent: for queries of two or more segments, the steps for
/// the longest proper prefix first.
pub open spec fn spec_prefix_plan(idx: &DocIndex, segs: Seq<Seq<char>>) -> Seq<StepView> {
    if segs.len() < 2 {
        seq![]
    } else {
        prefix_plan_from(idx, segs, segs.len() - 1)
    }
}

fn first_with_source(idx: &DocIndex, cands: &Vec<usize>) -> (r: Option<usize>)
    requires
        all_in_bounds(idx, cands@),
    ensures
        r == first_where(cands@, has_source(idx)),
        r matches Some(i) ==> i < idx.items@.len(),
{
    let mut t: usize = 0;
    assert(cands@.skip(0) =~= cands@);
    while t < cands.len()
        invariant
            t <= cands@.len(),
            all_in_bounds(idx, cands@),
            first_where(cands@, has_source(idx)) == first_where(cands@.skip(t as int), has_source(idx)),
        decreases cands.len() - t,
    {
        let n = cands[t];
        assert(cands@.skip(t as int)[0] == n);
        assert(cands@.skip(t as int).drop_first() =~= cands@.skip(t + 1));
        if idx.items[n].reexport_source.is_some() {
            return Some(n);
        }
        t = t + 1;
    }
    None
}

fn split_once_exec(s: &[char]) -> (r: Option<(Vec<char>, Vec<char>)>)
    ensures
        match r {
            Some((a, b)) => split_once_sep(s@) == Some((a@, b@)),
            None => split_once_sep(s@) is None,
        },
{
    let sep = path_sep_exec();
    assert(sep@.len() == 2);
    match find_from_exec(s, sep.as_slice(), 0) {
        Some(i) => {
            proof {
                crate::text::lemma_find_from(s@, sep@, 0);
                assert(occurs_at(s@, sep@, i as int));
                assert(i + sep@.len() <= s@.len());
                assert(i + 2 <= s@.len());
            }
            let n = s.len();
            let j: usize = i + 2;
            let a = slice_to_vec(s, 0, i);
            let b = slice_to_vec(s, j, s.len());
            assert(a@ =~= s@.take(i as int));
            assert(b@ =~= s@.skip(i + 2));
            Some((a, b))
        },
        None => None,
    }
}

fn copy_segments(v: &Vec<Vec<char>>, from: usize, to: usize) -> (r: Vec<Vec<char>>)
    requires
        from <= to <= v@.len(),
    ensures
        r@.map_values(|x: Vec<char>| x@) == v@.map_values(|x: Vec<char>| x@).subrange(from as int, to as int),
{
    let ghost vv = v@.map_values(|x: Vec<char>| x@);
    let mut r: Vec<Vec<char>> = Vec::new();
    let mut i = from;
    while i < to
        invariant
            from <= i <= to <= v@.len(),
            vv == v@.map_values(|x: Vec<char>| x@),
            r@.map_values(|x: Vec<char>| x@) == vv.subrange(from as int, i as int),
        decreases to - i,
    {
        let ghost old_r = r@.map_values(|x: Vec<char>| x@);
        r.push(crate::text::copy_chars(v[i].as_slice()));
        assert(r@.map_values(|x: Vec<char>| x@) =~= old_r.push(vv[i as int]));
        assert(vv.subrange(from as int, i + 1) =~= vv.subrange(from as int, i as int).push(vv[i as int]));
        i = i + 1;
    }
    r
}

fn strings_of_vecs(v: &Vec<Vec<char>>) -> (r: Vec<String>)
    ensures
        string_views(r@) == v@.map_values(|x: Vec<char>| x@),
{
    let ghost vv = v@.map_values(|x: Vec<char>| x@);
    let mut r: Vec<String> = Vec::new();
    let mut i: usize = 0;
    while i < v.len()
        invariant
            i <= v@.len(),
            vv == v@.map_values(|x: Vec<char>| x@),
            string_views(r@) == vv.take(i as int),
        decreases v.len() - i,
    {
        let ghost old_r = string_views(r@);
        r.push(string_of(v[i].as_slice()));
        assert(string_views(r@) =~= old_r.push(vv[i as int]));
        assert(vv.take(i + 1) =~= vv.take(i as int).push(vv[i as int]));
        i = i + 1;
    }
    assert(vv.take(v@.len() as int) =~= vv);
    r
}

fn prefix_step_exec(idx: &DocIndex, segs: &Vec<Vec<char>>, p: usize) -> (r: Option<DescentStep>)
    requires
        idx.positions_in_bounds(),
        1 <= p < segs@.len(),
    ensures
        match r {
            Some(st) => prefix_step(idx, segs@.map_values(|x: Vec<char>| x@), p as int) == Some(step_view(st)),
            None => prefix_step(idx, segs@.map_values(|x: Vec<char>| x@), p as int) is None,
        },
{
    let ghost sv = segs@.map_values(|x: Vec<char>| x@);
    let sep = path_sep_exec();
    let prefix = copy_segments(segs, 0, p);
    assert(sv.subrange(0, p as int) =~= sv.take(p as int));
    let without = join_exec(prefix.as_slice(), sep.as_slice());
    let mut with_crate = chars_of(idx.crate_name.as_str());
    crate::text::append(&mut with_crate, sep.as_slice());
    crate::text::append(&mut with_crate, without.as_slice());
    let c1 = idx.lookup_by_path(string_of(with_crate.as_slice()).as_str());
    let cands = if c1.len() == 0 {
        idx.lookup_by_path(string_of(without.as_slice()).as_str())
    } else {
        c1
    };
    proof {
        crate::keyed::lemma_get_below(idx.path_map.entries(), with_crate@, idx.items@.len() as int);
        crate::keyed::lemma_get_below(idx.path_map.entries(), without@, idx.items@.len() as int);
    }
    let stub = match first_with_source(idx, &cands) {
        None => {
            return None;
        },
        Some(s) => s,
    };
    proof {
        crate::query::lemma_first_where(cands@, has_source(idx));
    }
    let src = match &idx.items[stub].reexport_source {
        Some(x) => chars_of(x.as_str()),
        None => {
            return None;
        },
    };
    match split_once_exec(src.as_slice()) {
        None => Some(DescentStep::Abort),
        Some((sc, sip)) => {
            let mut inner = segments_exec(sip.as_slice());
            let rest = copy_segments(segs, p, segs.len());
            assert(sv.subrange(p as int, sv.len() as int) =~= sv.skip(p as int));
            let ghost iv = inner@.map_values(|x: Vec<char>| x@);
            let mut k: usize = 0;
            while k < rest.len()
                invariant
                    k <= rest@.len(),
                    inner@.map_values(|x: Vec<char>| x@) == iv + rest@.map_values(|x: Vec<char>| x@).take(k as int),
                decreases rest.len() - k,
            {
                let ghost oi = inner@.map_values(|x: Vec<char>| x@);
                inner.push(crate::text::copy_chars(rest[k].as_slice()));
                assert(inner@.map_values(|x: Vec<char>| x@) =~= oi.push(rest@[k as int]@));
                assert(rest@.map_values(|x: Vec<char>| x@).take(k + 1) =~= rest@.map_values(|x: Vec<char>| x@).take(k as int).push(rest@[k as int]@));
                k = k + 1;
            }
            assert(rest@.map_values(|x: Vec<char>| x@).take(rest@.len() as int) =~= rest@.map_values(|x: Vec<char>| x@));
            let fb = join_exec(rest.as_slice(), sep.as_slice());
            Some(DescentStep::Load {
                source_crate: string_of(sc.as_slice()),
                inner_segments: strings_of_vecs(&inner),
                fallback_name: string_of(fb.as_slice()),
            })
        },
    }
}

/// The prefix descent for a query: for `std::vec::Vec`, the prefix `vec`
/// may be a re-export of `alloc::vec`, so `alloc` is loaded and `vec::Vec`
/// resolved there. Prefixes are tried longest first; the steps stop after
/// an abort.
pub fn prefix_descent_plan(query: &QueryPath, index: &DocIndex) -> (r: Vec<DescentStep>)
    requires
        index.positions_in_bounds(),
    ensures
        step_views(r@) == spec_prefix_plan(index, string_views(query.item_segments@)),
{
    let n = query.item_segments.len();
    let mut plan: Vec<DescentStep> = Vec::new();
    if n < 2 {
        assert(step_views(plan@) =~= Seq::<StepView>::empty());
        return plan;
    }
    let segs = char_vecs(query.item_segments.as_slice());
    let ghost sv = string_views(query.item_segments@);
    let mut p: usize = n - 1;
    assert(step_views(plan@) + prefix_plan_from(index, sv, p as int) =~= spec_prefix_plan(index, sv));
    while p >= 1
        invariant
            n == segs@.len(),
            n >= 2,
            p < n,
            index.positions_in_bounds(),
            sv == segs@.map_values(|x: Vec<char>| x@),
            sv == string_views(query.item_segments@),
            step_views(plan@) + prefix_plan_from(index, sv, p as int) == spec_prefix_plan(index, sv),
        decreases p,
    {
        let ghost old_p = step_views(plan@);
        let step = prefix_step_exec(index, &segs, p);
        match step {
            None => {},
            Some(DescentStep::Abort) => {
                assert(prefix_step(index, sv, p as int) == Some(StepView::Abort));
                assert(prefix_plan_from(index, sv, p as int) == seq![StepView::Abort]);
                plan.push(DescentStep::Abort);
                assert(step_views(plan@) =~= old_p + seq![StepView::Abort]);
                assert(step_views(plan@) == spec_prefix_plan(index, sv));
                return plan;
            },
            Some(st) => {
                let ghost stv = step_view(st);
                plan.push(st);
                assert(step_views(plan@) =~= old_p.push(stv));
                assert(old_p + (seq![stv] + prefix_plan_from(index, sv, p - 1)) =~= old_p.push(stv)
                    + prefix_plan_from(index, sv, p - 1));
            },
        }
        p = p - 1;
    }
    assert(step_views(plan@) + Seq::<StepView>::empty() =~= step_views(plan@));
    plan
}


/// `s` without its leading run of `::`.
pub open spec fn trim_start_sep(s: Seq<char>) -> Seq<char>
    decreases s.len(),
{
    if s.len() >= 2 && starts_with(s, path_sep()) {
        trim_start_sep(s.skip(2))
    } else {
        s
    }
}

fn trim_start_sep_exec(s: &[char]) -> (r: Vec<char>)
    ensures
        r@ == trim_start_sep(s@),
{
    let sep = path_sep_exec();
    let mut k: usize = 0;
    assert(s@.skip(0) =~= s@);
    while occurs_at_exec(s, sep.as_slice(), k)
        invariant
            k <= s@.len(),
            sep@ == path_sep(),
            trim_start_sep(s@) == trim_start_sep(s@.skip(k as int)),
        decreases s.len() - k,
    {
        assert(s@.skip(k as int).subrange(0, 2) =~= s@.subrange(k as int, k + 2));
        assert(s@.skip(k as int).skip(2) =~= s@.skip(k + 2));
        k = k + 2;
    }
    proof {
        let t = s@.skip(k as int);
        if t.len() >= 2 && starts_with(t, path_sep()) {
            assert(t.subrange(0, 2) =~= s@.subrange(k as int, k + 2));
            assert(occurs_at(s@, sep@, k as int));
        }
    }
    let r = slice_to_vec(s, k, s.len());
    assert(r@ =~= s@.skip(k as int));
    r
}

/// The parent path tried at a level: the crate name followed by the first
/// `level - 1` query segments before the last.
pub open spec fn glob_parent_path(idx: &DocIndex, segs: Seq<Seq<char>>, level: int) -> Seq<char> {
    join((seq![idx.crate_name@] + segs.drop_last()).take(level), path_sep())
}

/// Whether a glob re-export was recorded in the module being tried (an
/// empty parent counts as the crate root).
pub open spec fn glob_applies(g: GlobUse, parent: Seq<char>, level: int) -> bool {
    g.parent_path@ == parent || (level == 1 && g.parent_path@.len() == 0)
}

/// The step for one glob: load the glob's source crate and resolve the
/// glob's inner path followed by the query segments after the parent.
pub open spec fn glob_step(g: GlobUse, segs: Seq<Seq<char>>, level: int) -> Option<StepView> {
    let source = trim_start_sep(g.source_path@);
    let sc = match split_once_sep(source) {
        Some((c, _)) => c,
        None => source,
    };
    let sip = match split_once_sep(source) {
        Some((_, p)) => p,
        None => seq![],
    };
    if sc.len() == 0 {
        None
    } else {
        let head = if sip.len() == 0 {
            seq![]
        } else {
            segments(sip)
        };
        Some(StepView::Load(sc, head + segs.skip(level - 1), segs.last()))
    }
}

/// The steps of the globs that apply at a level, in recording order.
pub open spec fn level_steps(globs: Seq<GlobUse>, segs: Seq<Seq<char>>, parent: Seq<char>, level: int) -> Seq<StepView>
    decreases globs.len(),
{
    if globs.len() == 0 {
        seq![]
    } else {
        let prev = level_steps(globs.drop_last(), segs, parent, level);
        let g = globs.last();
        if glob_applies(g, parent, level) {
            match glob_step(g, segs, level) {
                Some(st) => prev.push(st),
                None => prev,
            }
        } else {
            prev
        }
    }
}

/// The steps of the levels from `level` down to one.
pub open spec fn glob_plan_from(idx: &DocIndex, segs: Seq<Seq<char>>, level: int) -> Seq<StepView>
    decreases level,
{
    if level < 1 {
        seq![]
    } else {
        level_steps(idx.glob_uses@, segs, glob_parent_path(idx, segs, level), level) + glob_plan_from(
            idx,
            segs,
            level - 1,
        )
    }
}

/// The glob descent: the query's parent modules from the innermost out to
/// the crate root, and at each the glob re-exports recorded there.
pub open spec fn spec_glob_plan(idx: &DocIndex, segs: Seq<Seq<char>>) -> Seq<StepView> {
    if segs.len() == 0 || idx.glob_uses@.len() == 0 {
        seq![]
    } else {
        glob_plan_from(idx, segs, segs.len() as int)
    }
}

fn glob_step_exec(g: &GlobUse, segs: &Vec<Vec<char>>, level: usize) -> (r: Option<DescentStep>)
    requires
        1 <= level <= segs@.len(),
    ensures
        match r {
            Some(st) => glob_step(*g, segs@.map_values(|x: Vec<char>| x@), level as int) == Some(step_view(st)),
            None => glob_step(*g, segs@.map_values(|x: Vec<char>| x@), level as int) is None,
        },
{
    let ghost sv = segs@.map_values(|x: Vec<char>| x@);
    let source = trim_start_sep_exec(chars_of(g.source_path.as_str()).as_slice());
    let (sc, sip) = match split_once_exec(source.as_slice()) {
        Some((c, p)) => (c, p),
        None => (source, Vec::new()),
    };
    if sc.len() == 0 {
        return None;
    }
    let mut inner: Vec<Vec<char>> = if sip.len() == 0 {
        Vec::new()
    } else {
        segments_exec(sip.as_slice())
    };
    let ghost hv = inner@.map_values(|x: Vec<char>| x@);
    assert(sip.len() == 0 ==> hv =~= Seq::<Seq<char>>::empty());
    let rest = copy_segments(segs, level - 1, segs.len());
    assert(sv.subrange(level - 1, sv.len() as int) =~= sv.skip(level - 1));
    let mut k: usize = 0;
    while k < rest.len()
        invariant
            k <= rest@.len(),
            inner@.map_values(|x: Vec<char>| x@) == hv + rest@.map_values(|x: Vec<char>| x@).take(k as int),
        decreases rest.len() - k,
    {
        let ghost oi = inner@.map_values(|x: Vec<char>| x@);
        inner.push(crate::text::copy_chars(rest[k].as_slice()));
        assert(inner@.map_values(|x: Vec<char>| x@) =~= oi.push(rest@[k as int]@));
        assert(rest@.map_values(|x: Vec<char>| x@).take(k + 1) =~= rest@.map_values(|x: Vec<char>| x@).take(k as int).push(rest@[k as int]@));
        k = k + 1;
    }
    assert(rest@.map_values(|x: Vec<char>| x@).take(rest@.len() as int) =~= rest@.map_values(|x: Vec<char>| x@));
    let last = &segs[segs.len() - 1];
    Some(DescentStep::Load {
        source_crate: string_of(sc.as_slice()),
        inner_segments: strings_of_vecs(&inner),
        fallback_name: string_of(last.as_slice()),
    })
}

fn level_steps_exec(idx: &DocIndex, segs: &Vec<Vec<char>>, parent: &[char], level: usize, plan: &mut Vec<DescentStep>)
    requires
        1 <= level <= segs@.len(),
    ensures
        step_views(final(plan)@) == step_views(old(plan)@) + level_steps(
            idx.glob_uses@,
            segs@.map_values(|x: Vec<char>| x@),
            parent@,
            level as int,
        ),
{
    let ghost sv = segs@.map_values(|x: Vec<char>| x@);
    let ghost p0 = step_views(plan@);
    let ghost gs = idx.glob_uses@;
    let mut k: usize = 0;
    assert(p0 + level_steps(gs.take(0), sv, parent@, level as int) =~= p0);
    while k < idx.glob_uses.len()
        invariant
            k <= gs.len(),
            gs == idx.glob_uses@,
            1 <= level <= segs@.len(),
            sv == segs@.map_values(|x: Vec<char>| x@),
            step_views(plan@) == p0 + level_steps(gs.take(k as int), sv, parent@, level as int),
        decreases gs.len() - k,
    {
        let g = &idx.glob_uses[k];
        assert(gs.take(k + 1).drop_last() =~= gs.take(k as int));
        assert(gs.take(k + 1).last() == gs[k as int]);
        let gp = chars_of(g.parent_path.as_str());
        let applies = chars_eq(gp.as_slice(), parent) || (level == 1 && gp.len() == 0);
        if applies {
            match glob_step_exec(g, segs, level) {
                Some(st) => {
                    let ghost old_p = step_views(plan@);
                    let ghost stv = step_view(st);
                    plan.push(st);
                    assert(step_views(plan@) =~= old_p.push(stv));
                },
                None => {},
            }
        }
        k = k + 1;
    }
    assert(gs.take(gs.len() as int) =~= gs);
}

/// The glob descent for a query: for `clap::Args` with `pub use
/// clap_builder::*` recorded at `clap`, load `clap_builder` and resolve
/// `Args` there. Parent modules are tried innermost first.
pub fn glob_descent_plan(query: &QueryPath, index: &DocIndex) -> (r: Vec<DescentStep>)
    ensures
        step_views(r@) == spec_glob_plan(index, string_views(query.item_segments@)),
{
    let n = query.item_segments.len();
    let mut plan: Vec<DescentStep> = Vec::new();
    if n == 0 || index.glob_uses.len() == 0 {
        assert(step_views(plan@) =~= Seq::<StepView>::empty());
        return plan;
    }
    let segs = char_vecs(query.item_segments.as_slice());
    let ghost sv = string_views(query.item_segments@);
    assert(sv.len() == n);
    assert(segs@.map_values(|x: Vec<char>| x@).len() == segs@.len());
    let sep = path_sep_exec();
    let mut parents: Vec<Vec<char>> = Vec::new();
    parents.push(chars_of(index.crate_name.as_str()));
    let init = copy_segments(&segs, 0, n - 1);
    let mut k: usize = 0;
    let ghost full = seq![index.crate_name@] + sv.drop_last();
    assert(sv.subrange(0, n - 1) =~= sv.drop_last());
    while k < init.len()
        invariant
            k <= init@.len(),
            init@.map_values(|x: Vec<char>| x@) == sv.drop_last(),
            parents@.map_values(|x: Vec<char>| x@) == seq![index.crate_name@] + sv.drop_last().take(k as int),
        decreases init.len() - k,
    {
        let ghost op = parents@.map_values(|x: Vec<char>| x@);
        parents.push(crate::text::copy_chars(init[k].as_slice()));
        assert(parents@.map_values(|x: Vec<char>| x@) =~= op.push(sv.drop_last()[k as int]));
        assert(seq![index.crate_name@] + sv.drop_last().take(k + 1) =~= (seq![index.crate_name@] + sv.drop_last().take(k as int)).push(sv.drop_last()[k as int]));
        k = k + 1;
    }
    assert(sv.drop_last().take(sv.drop_last().len() as int) =~= sv.drop_last());
    let mut level: usize = n;
    assert(step_views(plan@) + glob_plan_from(index, sv, level as int) =~= spec_glob_plan(index, sv));
    while level >= 1
        invariant
            n == segs@.len(),
            n >= 1,
            level <= n,
            sv == segs@.map_values(|x: Vec<char>| x@),
            sv == string_views(query.item_segments@),
            parents@.map_values(|x: Vec<char>| x@) == full,
            full == seq![index.crate_name@] + sv.drop_last(),
            full.len() == n,
            sep@ == path_sep(),
            step_views(plan@) + glob_plan_from(index, sv, level as int) == spec_glob_plan(index, sv),
        decreases level,
    {
        let prefix = copy_segments(&parents, 0, level);
        assert(full.subrange(0, level as int) =~= full.take(level as int));
        let pp = join_exec(prefix.as_slice(), sep.as_slice());
        let ghost before = step_views(plan@);
        level_steps_exec(index, &segs, pp.as_slice(), level, &mut plan);
        assert(before + (level_steps(index.glob_uses@, sv, glob_parent_path(index, sv, level as int), level as int) + glob_plan_from(index, sv, level - 1))
            =~= step_views(plan@) + glob_plan_from(index, sv, level - 1));
        level = level - 1;
    }
    assert(step_views(plan@) + Seq::<StepView>::empty() =~= step_views(plan@));
    plan
}

/// What a loaded crate answers for a descent step: the resolved item when
/// resolution finds one, else the name-based match.
pub open spec fn spec_descent_outcome(src: &DocIndex, inner: Seq<Seq<char>>, fallback: Seq<char>) -> Option<usize> {
    match spec_resolve_item(src, inner, None) {
        QueryView::Found(i) => Some(i),
        _ => spec_follow_by_name(src, fallback),
    }
}

/// Decides what a loaded source crate answers for a descent step.
pub fn descent_outcome(inner_segments: &Vec<String>, fallback_name: &str, source_index: &DocIndex) -> (r: Option<usize>)
    requires
        source_index.positions_in_bounds(),
        source_index.children_in_bounds(),
    ensures
        r == spec_descent_outcome(source_index, string_views(inner_segments@), fallback_name@),
        r matches Some(i) ==> i < source_index.items@.len(),
{
    let q = QueryPath { crate_spec: CrateSpec::CurrentCrate, item_segments: crate::cli::clone_strings(inner_segments) };
    match resolve_item(&q, source_index, None) {
        QueryResult::Found { index } => Some(index),
        _ => follow_by_name(source_index, fallback_name),
    }
}

} // verus!
