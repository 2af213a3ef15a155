//! Resolving an item query against one crate's index, with fallbacks.
use vstd::prelude::*;
use crate::cli::{string_views, QueryPath};
use crate::query::{
    found_in_bounds, lookup_chars, spec_suggestions, suggestions_for, lookup_method_in, qr_view, spec_lookup, spec_lookup_method,
    QueryView,
};
use crate::text::{
    append, chars_of, join, join_exec, path_sep, path_sep_exec, replace_char, replace_char_exec,
    chars_eq,
};
use crate::types::{DocIndex, ItemKind, QueryResult};

verus! {

/// The abstract value of [`QueryResult::NotFound`].
pub open spec fn is_not_found(v: QueryView) -> bool {
    v is NotFound
}

/// The crate root: looked up by the crate name, then by its `-`→`_`
/// normalized name (no kind filter).
pub open spec fn spec_resolve_root(idx: &DocIndex) -> QueryView {
    let cn = idx.crate_name@;
    let r = spec_lookup(idx, cn, None);
    let nrm = replace_char(cn, '-', '_');
    if !is_not_found(r) {
        r
    } else if nrm != cn && !is_not_found(spec_lookup(idx, nrm, None)) {
        spec_lookup(idx, nrm, None)
    } else {
        r
    }
}

/// The method fallback: the last segment as a method of the parent, with
/// the crate name prepended, then without.
pub open spec fn spec_resolve_method(idx: &DocIndex, segs: Seq<Seq<char>>, kf: Option<ItemKind>) -> QueryView {
    let cn = idx.crate_name@;
    let parent = segs.drop_last();
    let m = segs.last();
    let m1 = spec_lookup_method(idx, join(seq![cn] + parent, path_sep()), m, kf);
    if !is_not_found(m1) {
        m1
    } else {
        spec_lookup_method(idx, join(parent, path_sep()), m, kf)
    }
}

/// Item resolution with fallbacks:
/// - no segments: [`spec_resolve_root`];
/// - otherwise the first answer among: `crate::path` and `path` with the
///   kind filter; both again without it (when a filter was given); for two
///   or more segments, [`spec_resolve_method`]; else not found, with the
///   near matches of the item path as suggestions.
pub open spec fn spec_resolve_item(idx: &DocIndex, segs: Seq<Seq<char>>, kf: Option<ItemKind>) -> QueryView {
    if segs.len() == 0 {
        spec_resolve_root(idx)
    } else {
        let ip = join(segs, path_sep());
        let fp = idx.crate_name@ + path_sep() + ip;
        let r1 = spec_lookup(idx, fp, kf);
        let r2 = spec_lookup(idx, ip, kf);
        let r3 = spec_lookup(idx, fp, None);
        let r4 = spec_lookup(idx, ip, None);
        if !is_not_found(r1) {
            r1
        } else if !is_not_found(r2) {
            r2
        } else if kf is Some && !is_not_found(r3) {
            r3
        } else if kf is Some && !is_not_found(r4) {
            r4
        } else if segs.len() >= 2 && !is_not_found(spec_resolve_method(idx, segs, kf)) {
            spec_resolve_method(idx, segs, kf)
        } else {
            QueryView::NotFound(ip, spec_suggestions(idx, ip))
        }
    }
}

fn is_not_found_exec(r: &QueryResult) -> (b: bool)
    ensures
        b == is_not_found(qr_view(*r)),
{
    match r {
        QueryResult::NotFound { .. } => true,
        _ => false,
    }
}

/// The characters of each string.
pub fn char_vecs(v: &[String]) -> (r: Vec<Vec<char>>)
    ensures
        r@.map_values(|x: Vec<char>| x@) == string_views(v@),
{
    let mut r: Vec<Vec<char>> = Vec::new();
    let mut i: usize = 0;
    while i < v.len()
        invariant
            i <= v@.len(),
            r@.map_values(|x: Vec<char>| x@) == string_views(v@).take(i as int),
        decreases v.len() - i,
    {
        let ghost old_r = r@.map_values(|x: Vec<char>| x@);
        r.push(chars_of(v[i].as_str()));
        assert(r@.map_values(|x: Vec<char>| x@) =~= old_r.push(v@[i as int]@));
        assert(string_views(v@).take(i + 1) =~= string_views(v@).take(i as int).push(v@[i as int]@));
        i = i + 1;
    }
    assert(string_views(v@).take(v@.len() as int) =~= string_views(v@));
    r
}

fn resolve_root(index: &DocIndex) -> (r: QueryResult)
    requires
        index.positions_in_bounds(),
    ensures
        qr_view(r) == spec_resolve_root(index),
        found_in_bounds(index, qr_view(r)),
{
    let cn = chars_of(index.crate_name.as_str());
    let r = lookup_chars(index, cn.as_slice(), None);
    if !is_not_found_exec(&r) {
        return r;
    }
    let nrm = replace_char_exec(cn.as_slice(), '-', '_');
    if !chars_eq(nrm.as_slice(), cn.as_slice()) {
        let r2 = lookup_chars(index, nrm.as_slice(), None);
        if !is_not_found_exec(&r2) {
            return r2;
        }
    }
    r
}

fn resolve_method(index: &DocIndex, segs: &Vec<Vec<char>>, m: &str, kind_filter: Option<ItemKind>) -> (r: QueryResult)
    requires
        index.positions_in_bounds(),
        index.children_in_bounds(),
        segs@.len() >= 2,
        m@ == segs@.last()@,
    ensures
        qr_view(r) == spec_resolve_method(index, segs@.map_values(|x: Vec<char>| x@), kind_filter),
        found_in_bounds(index, qr_view(r)),
{
    let ghost sv = segs@.map_values(|x: Vec<char>| x@);
    let cn = chars_of(index.crate_name.as_str());
    let sep = path_sep_exec();
    let n = segs.len();
    let mut parent: Vec<Vec<char>> = Vec::new();
    let mut full_parent: Vec<Vec<char>> = Vec::new();
    full_parent.push(crate::text::copy_chars(cn.as_slice()));
    assert(full_parent@.map_values(|x: Vec<char>| x@) =~= seq![cn@] + sv.take(0));
    let mut i: usize = 0;
    while i < n - 1
        invariant
            n == segs@.len(),
            n >= 2,
            i <= n - 1,
            sv == segs@.map_values(|x: Vec<char>| x@),
            parent@.map_values(|x: Vec<char>| x@) == sv.take(i as int),
            full_parent@.map_values(|x: Vec<char>| x@) == seq![cn@] + sv.take(i as int),
        decreases n - 1 - i,
    {
        let ghost op = parent@.map_values(|x: Vec<char>| x@);
        let ghost ofp = full_parent@.map_values(|x: Vec<char>| x@);
        parent.push(crate::text::copy_chars(segs[i].as_slice()));
        full_parent.push(crate::text::copy_chars(segs[i].as_slice()));
        assert(parent@.map_values(|x: Vec<char>| x@) =~= op.push(sv[i as int]));
        assert(full_parent@.map_values(|x: Vec<char>| x@) =~= ofp.push(sv[i as int]));
        assert(sv.take(i + 1) =~= sv.take(i as int).push(sv[i as int]));
        assert(seq![cn@] + sv.take(i + 1) =~= (seq![cn@] + sv.take(i as int)).push(sv[i as int]));
        i = i + 1;
    }
    assert(sv.take(n - 1) =~= sv.drop_last());
    let fpq = join_exec(full_parent.as_slice(), sep.as_slice());
    let m1 = lookup_method_in(index, fpq.as_slice(), m, kind_filter);
    if !is_not_found_exec(&m1) {
        return m1;
    }
    let pq = join_exec(parent.as_slice(), sep.as_slice());
    lookup_method_in(index, pq.as_slice(), m, kind_filter)
}

/// Resolves an item with all fallback strategies.
pub fn resolve_item(query: &QueryPath, index: &DocIndex, kind_filter: Option<ItemKind>) -> (r: QueryResult)
    requires
        index.positions_in_bounds(),
        index.children_in_bounds(),
    ensures
        qr_view(r) == spec_resolve_item(index, string_views(query.item_segments@), kind_filter),
        found_in_bounds(index, qr_view(r)),
{
    if query.item_segments.len() == 0 {
        return resolve_root(index);
    }
    let cn = chars_of(index.crate_name.as_str());
    let sep = path_sep_exec();
    let segs = char_vecs(query.item_segments.as_slice());
    let ip = join_exec(segs.as_slice(), sep.as_slice());
    let mut fp = crate::text::copy_chars(cn.as_slice());
    append(&mut fp, sep.as_slice());
    append(&mut fp, ip.as_slice());
    let r1 = lookup_chars(index, fp.as_slice(), kind_filter);
    if !is_not_found_exec(&r1) {
        return r1;
    }
    let r2 = lookup_chars(index, ip.as_slice(), kind_filter);
    if !is_not_found_exec(&r2) {
        return r2;
    }
    if kind_filter.is_some() {
        let r3 = lookup_chars(index, fp.as_slice(), None);
        if !is_not_found_exec(&r3) {
            return r3;
        }
        let r4 = lookup_chars(index, ip.as_slice(), None);
        if !is_not_found_exec(&r4) {
            return r4;
        }
    }
    if segs.len() >= 2 {
        let m = &query.item_segments[segs.len() - 1];
        let mr = resolve_method(index, &segs, m.as_str(), kind_filter);
        if !is_not_found_exec(&mr) {
            return mr;
        }
    }
    let suggestions = suggestions_for(index, ip.as_slice());
    QueryResult::NotFound { query: crate::text::string_of(ip.as_slice()), suggestions }
}

} // verus!
