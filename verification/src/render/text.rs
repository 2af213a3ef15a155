//! The plain-text view of an item.
use vstd::prelude::*;
use crate::render::display::{display_view, spec_display, DisplayItem, DisplayView};
use crate::render::markdown::{spec_strip_markdown, strip_markdown_chars};
use crate::render::truncate::{feature_gate_suffix, spec_feature_gate_suffix, spec_truncate_doc, truncate_doc};
use crate::sort::{entry_payloads, payloads, sort_entries, stable_sort, SortEntry};
use crate::text::{
    append, append_padded, append_str, chars_of, pad_right, string_of, trim_end_char,
    trim_end_char_exec,
};
use crate::types::{
    grouped_view, spec_header, spec_meta, spec_uses_signature_display, DisplayLimits, DocIndex,
    Group, GroupedItems, IndexItem, ItemKind, KindCategory, TraitImplInfo,
};

verus! {

/// The feature-gate annotation of an item.
pub open spec fn gate_of(it: IndexItem) -> Seq<char> {
    spec_feature_gate_suffix(
        match it.feature_gate {
            Some(g) => Some(g@),
            None => None,
        },
    )
}

/// The doc block: a blank line and the stripped, truncated docs (followed by
/// a newline when `trailing`); nothing for undocumented items.
pub open spec fn doc_block(it: IndexItem, lim: DisplayLimits, trailing: bool) -> Seq<char> {
    if it.docs@.len() == 0 {
        seq![]
    } else {
        seq!['\n'] + spec_truncate_doc(
            spec_strip_markdown(it.docs@),
            lim.max_doc_length as nat,
            lim.expand_all,
        ) + if trailing {
            seq!['\n']
        } else {
            seq![]
        }
    }
}

/// A listing line: `  x` alone, or `x` padded to `w` characters followed by
/// two spaces, the summary and the feature-gate annotation.
pub open spec fn listing_line(x: Seq<char>, w: nat, summary: Seq<char>, gate: Seq<char>) -> Seq<char> {
    seq![' ', ' '] + (if summary.len() == 0 && gate.len() == 0 {
        x
    } else {
        pad_right(x, w) + seq![' ', ' '] + summary + gate
    }) + seq!['\n']
}

/// The signature line of an item (signature padded to 58).
pub open spec fn sig_line(it: IndexItem) -> Seq<char> {
    listing_line(it.signature@, 58, it.summary@, gate_of(it))
}

/// The name line of an item (name padded to 30).
pub open spec fn name_line(it: IndexItem) -> Seq<char> {
    listing_line(it.name@, 30, it.summary@, gate_of(it))
}

/// The lines of the items at `pos`, signature or name lines.
pub open spec fn item_lines(items: Seq<IndexItem>, pos: Seq<usize>, sig: bool) -> Seq<char>
    decreases pos.len(),
{
    if pos.len() == 0 {
        seq![]
    } else {
        item_lines(items, pos.drop_last(), sig) + if sig {
            sig_line(items[pos.last() as int])
        } else {
            name_line(items[pos.last() as int])
        }
    }
}

/// The grouped children: per group a blank line, its header, and its lines.
pub open spec fn grouped_lines(items: Seq<IndexItem>, groups: Seq<(KindCategory, Seq<usize>)>) -> Seq<char>
    decreases groups.len(),
{
    if groups.len() == 0 {
        seq![]
    } else {
        let g = groups.last();
        grouped_lines(items, groups.drop_last()) + seq!['\n'] + spec_header(g.0)@ + seq!['\n']
            + item_lines(items, g.1, spec_uses_signature_display(g.0))
    }
}

/// The order in which trait impls are listed: real impls before synthetic
/// ones, each by trait path.
pub open spec fn impl_order(ts: Seq<TraitImplInfo>) -> Seq<usize> {
    payloads(
        stable_sort(
            Seq::new(
                ts.len(),
                |i: int| (if ts[i].is_synthetic { 1u64 } else { 0u64 }, ts[i].trait_path@, i as usize),
            ),
        ),
    )
}

/// `  impl <path>` lines in impl order.
pub open spec fn impl_lines(ts: Seq<TraitImplInfo>, order: Seq<usize>) -> Seq<char>
    decreases order.len(),
{
    if order.len() == 0 {
        seq![]
    } else {
        impl_lines(ts, order.drop_last()) + "  impl "@ + ts[order.last() as int].trait_path@ + seq![
            '\n',
        ]
    }
}

/// A titled section: a blank line, the title line, and the body; nothing
/// when the body has no items.
pub open spec fn section(nonempty: bool, title: Seq<char>, body: Seq<char>) -> Seq<char> {
    if nonempty {
        seq!['\n'] + title + seq!['\n'] + body
    } else {
        seq![]
    }
}

/// The text view of a display item, without trailing newlines:
/// - crate: `crate <name>` and module: `mod <path>` (with gate), docs,
///   grouped children;
/// - type: `<kind> <path>`, signature, docs, `Variants:`, `Methods:`,
///   `Trait Implementations:`;
/// - trait: `trait <path>`, signature, docs, then `(no methods)`, or
///   `Required Methods:` and `Provided Methods:` when both kinds exist, or
///   `Methods:`;
/// - leaf: `<kind> <path>`, signature, docs.
pub open spec fn spec_render_text(idx: &DocIndex, d: DisplayView, lim: DisplayLimits) -> Seq<char> {
    trim_end_char(text_body(idx, d, lim), '\n')
}

/// The crate or module view before trailing newlines are removed.
pub open spec fn container_body(idx: &DocIndex, i: usize, g: Seq<(KindCategory, Seq<usize>)>, lim: DisplayLimits, is_crate: bool) -> Seq<char> {
    let it = idx.items@[i as int];
    (if is_crate {
        "crate "@ + it.name@
    } else {
        "mod "@ + it.path@
    }) + gate_of(it) + seq!['\n'] + doc_block(it, lim, true) + grouped_lines(idx.items@, g)
}

/// The header, signature and docs shared by type, trait and leaf views.
pub open spec fn head_body(kind_word: Seq<char>, it: IndexItem, lim: DisplayLimits, trailing: bool) -> Seq<char> {
    kind_word + seq![' '] + it.path@ + gate_of(it) + seq!['\n', '\n'] + it.signature@ + seq!['\n']
        + doc_block(it, lim, trailing)
}

/// The type view before trailing newlines are removed.
pub open spec fn type_body(idx: &DocIndex, i: usize, m: Seq<usize>, v: Seq<usize>, t: Seq<TraitImplInfo>, lim: DisplayLimits) -> Seq<char> {
    let items = idx.items@;
    let it = items[i as int];
    head_body(spec_meta(it.kind).short_name@, it, lim, true) + section(
        v.len() > 0,
        "Variants:"@,
        item_lines(items, v, true),
    ) + section(m.len() > 0, "Methods:"@, item_lines(items, m, true)) + section(
        t.len() > 0,
        "Trait Implementations:"@,
        impl_lines(t, impl_order(t)),
    )
}

/// The trait view before trailing newlines are removed.
pub open spec fn trait_body(idx: &DocIndex, i: usize, rq: Seq<usize>, pv: Seq<usize>, lim: DisplayLimits) -> Seq<char> {
    let items = idx.items@;
    let it = items[i as int];
    head_body("trait"@, it, lim, true) + if rq.len() == 0 && pv.len() == 0 {
        seq!['\n'] + "(no methods)"@
    } else if rq.len() > 0 && pv.len() > 0 {
        section(true, "Required Methods:"@, item_lines(items, rq, true)) + section(
            true,
            "Provided Methods:"@,
            item_lines(items, pv, true),
        )
    } else {
        section(true, "Methods:"@, item_lines(items, if rq.len() > 0 { rq } else { pv }, true))
    }
}

/// The text view before trailing newlines are removed.
pub open spec fn text_body(idx: &DocIndex, d: DisplayView, lim: DisplayLimits) -> Seq<char> {
    match d {
        DisplayView::Crate(i, g) => container_body(idx, i, g, lim, true),
        DisplayView::Module(i, g) => container_body(idx, i, g, lim, false),
        DisplayView::Type(i, m, v, t) => type_body(idx, i, m, v, t, lim),
        DisplayView::Trait(i, rq, pv) => trait_body(idx, i, rq, pv, lim),
        DisplayView::Leaf(i) => {
            let it = idx.items@[i as int];
            head_body(spec_meta(it.kind).short_name@, it, lim, false)
        },
    }
}

/// What a selection keeps is among the given positions and passes the test.
proof fn lemma_select_members(items: Seq<IndexItem>, pos: Seq<usize>, pred: spec_fn(IndexItem) -> bool)
    ensures
        forall|k: int| 0 <= k < crate::render::display::select(items, pos, pred).len() ==> pos.contains(
            #[trigger] crate::render::display::select(items, pos, pred)[k],
        ) && pred(items[crate::render::display::select(items, pos, pred)[k] as int]),
    decreases pos.len(),
{
    if pos.len() > 0 {
        let pre = pos.drop_last();
        lemma_select_members(items, pre, pred);
        let prev = crate::render::display::select(items, pre, pred);
        let sel = crate::render::display::select(items, pos, pred);
        assert forall|k: int| 0 <= k < sel.len() implies pos.contains(#[trigger] sel[k]) && pred(items[sel[k] as int]) by {
            if k < prev.len() {
                assert(sel[k] == prev[k]);
                let j = choose|j: int| 0 <= j < pre.len() && pre[j] == prev[k];
                assert(pos[j] == pre[j]);
            } else {
                assert(sel[k] == pos.last());
                assert(pos[pos.len() - 1] == pos.last());
            }
        }
    }
}

/// Sorting by name keeps positions among the given ones.
proof fn lemma_by_name_members(items: Seq<IndexItem>, pos: Seq<usize>)
    ensures
        forall|k: int| 0 <= k < crate::render::display::by_name(items, pos).len() ==> pos.contains(
            #[trigger] crate::render::display::by_name(items, pos)[k],
        ),
{
    let es = pos.map_values(|p: usize| (0u64, items[p as int].name@, p));
    let out = crate::render::display::by_name(items, pos);
    crate::types::lemma_stable_sort_len(es);
    assert forall|k: int| 0 <= k < out.len() implies pos.contains(#[trigger] out[k]) by {
        crate::sort::lemma_stable_sort_member(es, k);
        let j = choose|j: int| 0 <= j < es.len() && es[j] == stable_sort(es)[k];
        assert(es[j].2 == pos[j]);
    }
}

/// The trait view puts each method under the right heading: when a trait
/// has both kinds, the lines under `Required Methods:` are exactly its
/// functions without a default body and those under `Provided Methods:`
/// exactly its functions with one (each in name order).
pub proof fn lemma_trait_method_sections(idx: &DocIndex, i: usize, include_private: bool, lim: DisplayLimits)
    requires
        i < idx.items@.len(),
        idx.items@[i as int].kind == ItemKind::Trait,
    ensures
        spec_display(idx, i, include_private) matches DisplayView::Trait(j, rq, pv) && {
            &&& j == i
            &&& forall|k: int| 0 <= k < rq.len() ==> {
                let it = idx.items@[#[trigger] rq[k] as int];
                it.kind == ItemKind::Function && !it.has_body
            }
            &&& forall|k: int| 0 <= k < pv.len() ==> {
                let it = idx.items@[#[trigger] pv[k] as int];
                it.kind == ItemKind::Function && it.has_body
            }
            &&& (rq.len() > 0 && pv.len() > 0) ==> text_body(idx, DisplayView::Trait(i, rq, pv), lim)
                == head_body("trait"@, idx.items@[i as int], lim, true) + seq!['\n'] + "Required Methods:"@
                + seq!['\n'] + item_lines(idx.items@, rq, true) + seq!['\n'] + "Provided Methods:"@
                + seq!['\n'] + item_lines(idx.items@, pv, true)
        },
{
    let items = idx.items@;
    let cs = crate::render::display::child_positions(items[i as int]);
    let f0 = crate::render::display::fn_with_body(false);
    let f1 = crate::render::display::fn_with_body(true);
    let s0 = crate::render::display::select(items, cs, f0);
    let s1 = crate::render::display::select(items, cs, f1);
    lemma_select_members(items, cs, f0);
    lemma_select_members(items, cs, f1);
    lemma_by_name_members(items, s0);
    lemma_by_name_members(items, s1);
    let rq = crate::render::display::by_name(items, s0);
    let pv = crate::render::display::by_name(items, s1);
    assert forall|k: int| 0 <= k < rq.len() implies {
        let it = items[#[trigger] rq[k] as int];
        it.kind == ItemKind::Function && !it.has_body
    } by {
        let j = choose|j: int| 0 <= j < s0.len() && s0[j] == rq[k];
        assert(f0(items[s0[j] as int]));
    }
    assert forall|k: int| 0 <= k < pv.len() implies {
        let it = items[#[trigger] pv[k] as int];
        it.kind == ItemKind::Function && it.has_body
    } by {
        let j = choose|j: int| 0 <= j < s1.len() && s1[j] == pv[k];
        assert(f1(items[s1[j] as int]));
    }
}

/// Appends the feature-gate annotation of an item.
fn append_gate(out: &mut Vec<char>, it: &IndexItem)
    ensures
        final(out)@ == old(out)@ + gate_of(*it),
{
    let g = feature_gate_suffix(it.feature_gate.as_ref());
    append_str(out, g.as_str());
}

/// Appends the doc block of an item.
fn append_doc_block(out: &mut Vec<char>, it: &IndexItem, lim: &DisplayLimits, trailing: bool)
    ensures
        final(out)@ == old(out)@ + doc_block(*it, *lim, trailing),
{
    if it.docs.as_str().is_empty() {
        assert(old(out)@ + Seq::<char>::empty() =~= old(out)@);
        return;
    }
    let stripped = strip_markdown_chars(chars_of(it.docs.as_str()).as_slice());
    let s = string_of(stripped.as_slice());
    let t = truncate_doc(s.as_str(), lim);
    out.push('\n');
    append_str(out, t.as_str());
    if trailing {
        out.push('\n');
    }
}

/// Appends a listing line.
fn append_listing_line(out: &mut Vec<char>, x: &str, w: usize, it: &IndexItem)
    ensures
        final(out)@ == old(out)@ + listing_line(x@, w as nat, it.summary@, gate_of(*it)),
{
    let g = feature_gate_suffix(it.feature_gate.as_ref());
    let ghost o = old(out)@;
    out.push(' ');
    out.push(' ');
    let xs = chars_of(x);
    if it.summary.as_str().is_empty() && g.as_str().is_empty() {
        append(out, xs.as_slice());
    } else {
        append_padded(out, xs.as_slice(), w);
        out.push(' ');
        out.push(' ');
        append_str(out, it.summary.as_str());
        append_str(out, g.as_str());
    }
    out.push('\n');
    assert(out@ =~= o + listing_line(x@, w as nat, it.summary@, gate_of(*it)));
}

/// Appends the lines of the items at `pos`.
fn append_item_lines(out: &mut Vec<char>, idx: &DocIndex, pos: &Vec<usize>, sig: bool)
    requires
        forall|j: int| 0 <= j < pos@.len() ==> #[trigger] pos@[j] < idx.items@.len(),
    ensures
        final(out)@ == old(out)@ + item_lines(idx.items@, pos@, sig),
{
    let ghost o = old(out)@;
    let mut k: usize = 0;
    assert(o + item_lines(idx.items@, pos@.take(0), sig) =~= o);
    while k < pos.len()
        invariant
            k <= pos@.len(),
            forall|j: int| 0 <= j < pos@.len() ==> #[trigger] pos@[j] < idx.items@.len(),
            out@ == o + item_lines(idx.items@, pos@.take(k as int), sig),
        decreases pos.len() - k,
    {
        assert(pos@.take(k + 1).drop_last() =~= pos@.take(k as int));
        let it = &idx.items[pos[k]];
        if sig {
            append_listing_line(out, it.signature.as_str(), 58, it);
        } else {
            append_listing_line(out, it.name.as_str(), 30, it);
        }
        k = k + 1;
    }
    assert(pos@.take(pos@.len() as int) =~= pos@);
}

/// Appends the grouped children sections.
fn append_grouped(out: &mut Vec<char>, idx: &DocIndex, g: &GroupedItems)
    requires
        forall|i: int, j: int|
            0 <= i < g.groups@.len() && 0 <= j < g.groups@[i].items@.len() ==> #[trigger] g.groups@[i].items@[j]
                < idx.items@.len(),
    ensures
        final(out)@ == old(out)@ + grouped_lines(idx.items@, grouped_view(*g)),
{
    let ghost o = old(out)@;
    let ghost gv = grouped_view(*g);
    let mut k: usize = 0;
    assert(o + grouped_lines(idx.items@, gv.take(0)) =~= o);
    while k < g.groups.len()
        invariant
            k <= g.groups@.len(),
            gv == grouped_view(*g),
            forall|i: int, j: int|
                0 <= i < g.groups@.len() && 0 <= j < g.groups@[i].items@.len() ==> #[trigger] g.groups@[i].items@[j]
                    < idx.items@.len(),
            out@ == o + grouped_lines(idx.items@, gv.take(k as int)),
        decreases g.groups.len() - k,
    {
        assert(gv.take(k + 1).drop_last() =~= gv.take(k as int));
        let grp = &g.groups[k];
        assert(gv.take(k + 1).last() == (grp.category, grp.items@));
        out.push('\n');
        append_str(out, grp.category.header());
        out.push('\n');
        assert forall|j: int| 0 <= j < grp.items@.len() implies #[trigger] grp.items@[j] < idx.items@.len() by {
            assert(g.groups@[k as int].items@[j] < idx.items@.len());
        }
        append_item_lines(out, idx, &grp.items, grp.category.uses_signature_display());
        k = k + 1;
    }
    assert(gv.take(gv.len() as int) =~= gv);
}

/// Positions of trait impls in listing order.
pub fn impl_order_exec(ts: &Vec<TraitImplInfo>) -> (r: Vec<usize>)
    ensures
        r@ == impl_order(ts@),
        forall|j: int| 0 <= j < r@.len() ==> #[trigger] r@[j] < ts@.len(),
{
    let ghost f = |i: int| (if ts@[i].is_synthetic { 1u64 } else { 0u64 }, ts@[i].trait_path@, i as usize);
    let mut es: Vec<SortEntry> = Vec::new();
    let mut i: usize = 0;
    while i < ts.len()
        invariant
            i <= ts@.len(),
            f == (|i: int| (if ts@[i].is_synthetic { 1u64 } else { 0u64 }, ts@[i].trait_path@, i as usize)),
            crate::sort::entry_views(es@) == Seq::new(i as nat, f),
        decreases ts.len() - i,
    {
        let ghost old_e = crate::sort::entry_views(es@);
        let major: u64 = if ts[i].is_synthetic { 1 } else { 0 };
        es.push(SortEntry { major, minor: chars_of(ts[i].trait_path.as_str()), item: i });
        assert(crate::sort::entry_views(es@) =~= old_e.push(f(i as int)));
        assert(Seq::new((i + 1) as nat, f) =~= Seq::new(i as nat, f).push(f(i as int)));
        i = i + 1;
    }
    let ghost ev = crate::sort::entry_views(es@);
    let sorted = sort_entries(es);
    proof {
        assert forall|t: int| 0 <= t < stable_sort(ev).len() implies #[trigger] stable_sort(ev)[t].2 < ts@.len() by {
            crate::sort::lemma_stable_sort_member(ev, t);
            let j = choose|j: int| 0 <= j < ev.len() && ev[j] == stable_sort(ev)[t];
            assert(ev[j] == f(j));
        }
    }
    let r = entry_payloads(&sorted);
    proof {
        assert forall|j: int| 0 <= j < r@.len() implies #[trigger] r@[j] < ts@.len() by {
            assert(r@[j] == stable_sort(ev)[j].2);
        }
    }
    r
}

/// Appends `  impl <path>` lines.
fn append_impl_lines(out: &mut Vec<char>, ts: &Vec<TraitImplInfo>, order: &Vec<usize>)
    requires
        forall|j: int| 0 <= j < order@.len() ==> #[trigger] order@[j] < ts@.len(),
    ensures
        final(out)@ == old(out)@ + impl_lines(ts@, order@),
{
    let ghost o = old(out)@;
    let mut k: usize = 0;
    assert(o + impl_lines(ts@, order@.take(0)) =~= o);
    while k < order.len()
        invariant
            k <= order@.len(),
            forall|j: int| 0 <= j < order@.len() ==> #[trigger] order@[j] < ts@.len(),
            out@ == o + impl_lines(ts@, order@.take(k as int)),
        decreases order.len() - k,
    {
        assert(order@.take(k + 1).drop_last() =~= order@.take(k as int));
        let ghost before = out@;
        append_str(out, "  impl ");
        append_str(out, ts[order[k]].trait_path.as_str());
        out.push('\n');
        assert(out@ =~= before + "  impl "@ + ts@[order@[k as int] as int].trait_path@ + seq!['\n']);
        k = k + 1;
    }
    assert(order@.take(order@.len() as int) =~= order@);
}

/// Appends a titled section of listing lines (when `pos` is not empty).
fn append_section(out: &mut Vec<char>, idx: &DocIndex, title: &str, pos: &Vec<usize>)
    requires
        all_below(pos@, idx.items@.len() as int),
    ensures
        final(out)@ == old(out)@ + section(pos@.len() > 0, title@, item_lines(idx.items@, pos@, true)),
{
    let ghost o = old(out)@;
    if pos.len() > 0 {
        out.push('\n');
        append_str(out, title);
        out.push('\n');
        append_item_lines(out, idx, pos, true);
        assert(out@ =~= o + section(true, title@, item_lines(idx.items@, pos@, true)));
    } else {
        assert(out@ =~= o + section(false, title@, item_lines(idx.items@, pos@, true)));
    }
}

/// Every position is below `n`.
pub open spec fn all_below(s: Seq<usize>, n: int) -> bool {
    forall|j: int| 0 <= j < s.len() ==> #[trigger] s[j] < n
}

/// Every grouped position is below `n`.
pub open spec fn groups_below(g: Seq<(KindCategory, Seq<usize>)>, n: int) -> bool {
    forall|a: int| 0 <= a < g.len() ==> all_below(#[trigger] g[a].1, n)
}

/// The positions a display item refers to are positions of the index.
pub open spec fn display_in_bounds(idx: &DocIndex, d: DisplayView) -> bool {
    let n = idx.items@.len() as int;
    match d {
        DisplayView::Crate(i, g) => i < n && groups_below(g, n),
        DisplayView::Module(i, g) => i < n && groups_below(g, n),
        DisplayView::Type(i, m, v, _) => i < n && all_below(m, n) && all_below(v, n),
        DisplayView::Trait(i, r, p) => i < n && all_below(r, n) && all_below(p, n),
        DisplayView::Leaf(i) => i < n,
    }
}

/// Appends the crate or module view (before trimming).
fn append_container(out: &mut Vec<char>, index: &DocIndex, item: usize, children: &GroupedItems, limits: &DisplayLimits, is_crate: bool)
    requires
        item < index.items@.len(),
        groups_below(grouped_view(*children), index.items@.len() as int),
    ensures
        final(out)@ == old(out)@ + container_body(index, item, grouped_view(*children), *limits, is_crate),
{
    let ghost o = old(out)@;
    let it = &index.items[item];
    if is_crate {
        append_str(out, "crate ");
        append_str(out, it.name.as_str());
    } else {
        append_str(out, "mod ");
        append_str(out, it.path.as_str());
    }
    append_gate(out, it);
    out.push('\n');
    append_doc_block(out, it, limits, true);
    proof {
        let gv = grouped_view(*children);
        assert forall|a: int, b: int|
            0 <= a < children.groups@.len() && 0 <= b < children.groups@[a].items@.len()
            implies #[trigger] children.groups@[a].items@[b] < index.items@.len() by {
            assert(gv[a] == (children.groups@[a].category, children.groups@[a].items@));
            assert(all_below(gv[a].1, index.items@.len() as int));
            assert(gv[a].1[b] < index.items@.len());
        }
    }
    append_grouped(out, index, children);
    assert(out@ =~= o + container_body(index, item, grouped_view(*children), *limits, is_crate));
}

/// Appends the header, signature and docs.
fn append_head(out: &mut Vec<char>, kind_word: &str, it: &IndexItem, limits: &DisplayLimits, trailing: bool)
    ensures
        final(out)@ == old(out)@ + head_body(kind_word@, *it, *limits, trailing),
{
    let ghost o = old(out)@;
    append_str(out, kind_word);
    out.push(' ');
    append_str(out, it.path.as_str());
    append_gate(out, it);
    out.push('\n');
    out.push('\n');
    append_str(out, it.signature.as_str());
    out.push('\n');
    let ghost mid = out@;
    append_doc_block(out, it, limits, trailing);
    assert(out@ =~= o + head_body(kind_word@, *it, *limits, trailing));
}

fn append_impl_section(out: &mut Vec<char>, trait_impls: &Vec<TraitImplInfo>)
    ensures
        final(out)@ == old(out)@ + section(
            trait_impls@.len() > 0,
            "Trait Implementations:"@,
            impl_lines(trait_impls@, impl_order(trait_impls@)),
        ),
{
    let ghost before = out@;
    if trait_impls.len() > 0 {
        out.push('\n');
        append_str(out, "Trait Implementations:");
        out.push('\n');
        let order = impl_order_exec(trait_impls);
        append_impl_lines(out, trait_impls, &order);
        assert(out@ =~= before + section(true, "Trait Implementations:"@, impl_lines(trait_impls@, impl_order(trait_impls@))));
    } else {
        assert(out@ =~= before + section(false, "Trait Implementations:"@, impl_lines(trait_impls@, impl_order(trait_impls@))));
    }
}

#[verifier::spinoff_prover]
fn append_type(out: &mut Vec<char>, index: &DocIndex, item: usize, methods: &Vec<usize>, variants: &Vec<usize>, trait_impls: &Vec<TraitImplInfo>, limits: &DisplayLimits)
    requires
        item < index.items@.len(),
        all_below(methods@, index.items@.len() as int),
        all_below(variants@, index.items@.len() as int),
    ensures
        final(out)@ == old(out)@ + type_body(index, item, methods@, variants@, trait_impls@, *limits),
{
    let ghost o = old(out)@;
    let it = &index.items[item];
    append_head(out, it.kind.short_name(), it, limits, true);
    append_section(out, index, "Variants:", variants);
    append_section(out, index, "Methods:", methods);
    append_impl_section(out, trait_impls);
    assert(out@ =~= o + type_body(index, item, methods@, variants@, trait_impls@, *limits));
}

fn append_trait(out: &mut Vec<char>, index: &DocIndex, item: usize, required_methods: &Vec<usize>, provided_methods: &Vec<usize>, limits: &DisplayLimits)
    requires
        item < index.items@.len(),
        all_below(required_methods@, index.items@.len() as int),
        all_below(provided_methods@, index.items@.len() as int),
    ensures
        final(out)@ == old(out)@ + trait_body(index, item, required_methods@, provided_methods@, *limits),
{
    let ghost o = old(out)@;
    let it = &index.items[item];
    append_head(out, "trait", it, limits, true);
    let ghost before = out@;
    let hr = required_methods.len() > 0;
    let hp = provided_methods.len() > 0;
    if !hr && !hp {
        out.push('\n');
        append_str(out, "(no methods)");
        assert(out@ =~= before + (seq!['\n'] + "(no methods)"@));
    } else if hr && hp {
        append_section(out, index, "Required Methods:", required_methods);
        append_section(out, index, "Provided Methods:", provided_methods);
    } else if hr {
        append_section(out, index, "Methods:", required_methods);
    } else {
        append_section(out, index, "Methods:", provided_methods);
    }
    assert(out@ =~= o + trait_body(index, item, required_methods@, provided_methods@, *limits));
}

/// Renders a display item as plain text.
pub fn render_text(index: &DocIndex, display: &DisplayItem, limits: &DisplayLimits) -> (r: String)
    requires
        display_in_bounds(index, display_view(*display)),
    ensures
        r@ == spec_render_text(index, display_view(*display), *limits),
{
    let mut out: Vec<char> = Vec::new();
    match display {
        DisplayItem::Crate { item, children } => {
            append_container(&mut out, index, *item, children, limits, true);
        },
        DisplayItem::Module { item, children } => {
            append_container(&mut out, index, *item, children, limits, false);
        },
        DisplayItem::Type { item, methods, variants, trait_impls } => {
            append_type(&mut out, index, *item, methods, variants, trait_impls, limits);
        },
        DisplayItem::Trait { item, required_methods, provided_methods } => {
            append_trait(&mut out, index, *item, required_methods, provided_methods, limits);
        },
        DisplayItem::Leaf { item } => {
            let it = &index.items[*item];
            append_head(&mut out, it.kind.short_name(), it, limits, false);
        },
    }
    assert(out@ =~= Seq::<char>::empty() + text_body(index, display_view(*display), *limits));
    string_of(trim_end_char_exec(out.as_slice(), '\n').as_slice())
}

} // verus!
