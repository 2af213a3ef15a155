//! The brief view: kinds and names only.
use vstd::prelude::*;
use crate::render::display::{display_view, DisplayItem, DisplayView};
use crate::render::text::{all_below, groups_below, display_in_bounds};
use crate::search::module_prefix;
use crate::sort::{entry_views, sort_entries, stable_sort, EntryView, SortEntry};
use crate::text::{
    append, append_padded, append_str, chars_of, pad_right, path_sep, path_sep_exec, rfind_exec,
    slice_to_vec, string_of, trim_end_char, trim_end_char_exec,
};
use crate::types::{grouped_view, spec_meta, DocIndex, GroupedItems, IndexItem, KindCategory};

verus! {

/// The short kind name of an item.
pub open spec fn kind_word(it: IndexItem) -> Seq<char> {
    spec_meta(it.kind).short_name@
}

/// The largest of the kind-name widths of the items at `pos` (0 for none).
pub open spec fn max_kind_width(items: Seq<IndexItem>, pos: Seq<usize>) -> nat
    decreases pos.len(),
{
    if pos.len() == 0 {
        0
    } else {
        let prev = max_kind_width(items, pos.drop_last());
        let w = kind_word(items[pos.last() as int]).len();
        if w > prev {
            w
        } else {
            prev
        }
    }
}

/// All grouped positions, group after group.
pub open spec fn flatten(g: Seq<(KindCategory, Seq<usize>)>) -> Seq<usize>
    decreases g.len(),
{
    if g.len() == 0 {
        seq![]
    } else {
        flatten(g.drop_last()) + g.last().1
    }
}

/// `  <kind padded to w>  <name>` lines of the items at `pos`.
pub open spec fn kind_name_lines(items: Seq<IndexItem>, pos: Seq<usize>, w: nat) -> Seq<char>
    decreases pos.len(),
{
    if pos.len() == 0 {
        seq![]
    } else {
        let it = items[pos.last() as int];
        kind_name_lines(items, pos.drop_last(), w) + seq![' ', ' '] + pad_right(kind_word(it), w)
            + seq![' ', ' '] + it.name@ + seq!['\n']
    }
}

/// `<prefix><name>` lines of the items at `pos`.
pub open spec fn prefixed_names(items: Seq<IndexItem>, pos: Seq<usize>, prefix: Seq<char>) -> Seq<char>
    decreases pos.len(),
{
    if pos.len() == 0 {
        seq![]
    } else {
        prefixed_names(items, pos.drop_last(), prefix) + prefix + items[pos.last() as int].name@ + seq![
            '\n',
        ]
    }
}

/// The brief view: a header line (`crate <path>`, `trait <path>` or
/// `<kind> <path>`), then for containers every child as kind and name
/// (kinds padded to the widest), for types variants then methods, for
/// traits required then provided methods; trailing newlines removed.
pub open spec fn spec_render_brief(idx: &DocIndex, d: DisplayView) -> Seq<char> {
    trim_end_char(brief_body(idx, d), '\n')
}

/// The brief view before trailing newlines are removed.
pub open spec fn brief_body(idx: &DocIndex, d: DisplayView) -> Seq<char> {
    let items = idx.items@;
    let nl = seq!['\n'];
    match d {
        DisplayView::Crate(i, g) => "crate "@ + items[i as int].path@ + nl + kind_name_lines(
            items,
            flatten(g),
            max_kind_width(items, flatten(g)),
        ),
        DisplayView::Module(i, g) => kind_word(items[i as int]) + seq![' '] + items[i as int].path@ + nl
            + kind_name_lines(items, flatten(g), max_kind_width(items, flatten(g))),
        DisplayView::Type(i, m, v, _) => kind_word(items[i as int]) + seq![' '] + items[i as int].path@
            + nl + prefixed_names(items, v, "  variant  "@) + prefixed_names(items, m, "  fn       "@),
        DisplayView::Trait(i, r, p) => "trait "@ + items[i as int].path@ + nl + prefixed_names(
            items,
            r,
            "  fn  "@,
        ) + prefixed_names(items, p, "  fn  "@),
        DisplayView::Leaf(i) => kind_word(items[i as int]) + seq![' '] + items[i as int].path@ + nl,
    }
}

fn flatten_exec(g: &GroupedItems) -> (r: Vec<usize>)
    ensures
        r@ == flatten(grouped_view(*g)),
{
    let ghost gv = grouped_view(*g);
    let mut r: Vec<usize> = Vec::new();
    let mut k: usize = 0;
    assert(gv.take(0) =~= Seq::<(KindCategory, Seq<usize>)>::empty());
    while k < g.groups.len()
        invariant
            k <= g.groups@.len(),
            gv == grouped_view(*g),
            r@ == flatten(gv.take(k as int)),
        decreases g.groups.len() - k,
    {
        assert(gv.take(k + 1).drop_last() =~= gv.take(k as int));
        assert(gv.take(k + 1).last().1 == g.groups@[k as int].items@);
        let items = &g.groups[k].items;
        let ghost before = r@;
        let mut j: usize = 0;
        while j < items.len()
            invariant
                j <= items@.len(),
                r@ == before + items@.take(j as int),
            decreases items.len() - j,
        {
            r.push(items[j]);
            assert(items@.take(j + 1) =~= items@.take(j as int).push(items@[j as int]));
            j = j + 1;
        }
        assert(items@.take(items@.len() as int) =~= items@);
        k = k + 1;
    }
    assert(gv.take(gv.len() as int) =~= gv);
    r
}

fn max_kind_width_exec(items: &[IndexItem], pos: &Vec<usize>) -> (r: usize)
    requires
        all_below(pos@, items@.len() as int),
    ensures
        r == max_kind_width(items@, pos@),
{
    let mut m: usize = 0;
    let mut k: usize = 0;
    while k < pos.len()
        invariant
            k <= pos@.len(),
            all_below(pos@, items@.len() as int),
            m == max_kind_width(items@, pos@.take(k as int)),
        decreases pos.len() - k,
    {
        assert(pos@.take(k + 1).drop_last() =~= pos@.take(k as int));
        assert(pos@[k as int] < items@.len());
        let w = chars_of(items[pos[k]].kind.short_name()).len();
        if w > m {
            m = w;
        }
        k = k + 1;
    }
    assert(pos@.take(pos@.len() as int) =~= pos@);
    m
}

fn append_kind_name_lines(out: &mut Vec<char>, items: &[IndexItem], pos: &Vec<usize>, w: usize)
    requires
        all_below(pos@, items@.len() as int),
    ensures
        final(out)@ == old(out)@ + kind_name_lines(items@, pos@, w as nat),
{
    let ghost o = old(out)@;
    let mut k: usize = 0;
    assert(o + kind_name_lines(items@, pos@.take(0), w as nat) =~= o);
    while k < pos.len()
        invariant
            k <= pos@.len(),
            all_below(pos@, items@.len() as int),
            out@ == o + kind_name_lines(items@, pos@.take(k as int), w as nat),
        decreases pos.len() - k,
    {
        assert(pos@.take(k + 1).drop_last() =~= pos@.take(k as int));
        assert(pos@[k as int] < items@.len());
        let it = &items[pos[k]];
        let ghost before = out@;
        out.push(' ');
        out.push(' ');
        append_padded(out, chars_of(it.kind.short_name()).as_slice(), w);
        out.push(' ');
        out.push(' ');
        append_str(out, it.name.as_str());
        out.push('\n');
        assert(out@ =~= before + seq![' ', ' '] + pad_right(kind_word(*it), w as nat) + seq![' ', ' ']
            + it.name@ + seq!['\n']);
        k = k + 1;
    }
    assert(pos@.take(pos@.len() as int) =~= pos@);
}

fn append_prefixed_names(out: &mut Vec<char>, items: &[IndexItem], pos: &Vec<usize>, prefix: &str)
    requires
        all_below(pos@, items@.len() as int),
    ensures
        final(out)@ == old(out)@ + prefixed_names(items@, pos@, prefix@),
{
    let ghost o = old(out)@;
    let mut k: usize = 0;
    assert(o + prefixed_names(items@, pos@.take(0), prefix@) =~= o);
    while k < pos.len()
        invariant
            k <= pos@.len(),
            all_below(pos@, items@.len() as int),
            out@ == o + prefixed_names(items@, pos@.take(k as int), prefix@),
        decreases pos.len() - k,
    {
        assert(pos@.take(k + 1).drop_last() =~= pos@.take(k as int));
        assert(pos@[k as int] < items@.len());
        let ghost before = out@;
        append_str(out, prefix);
        append_str(out, items[pos[k]].name.as_str());
        out.push('\n');
        assert(out@ =~= before + prefix@ + items@[pos@[k as int] as int].name@ + seq!['\n']);
        k = k + 1;
    }
    assert(pos@.take(pos@.len() as int) =~= pos@);
}

/// Every flattened position is below `n` when every grouped one is.
proof fn lemma_flatten_below(g: Seq<(KindCategory, Seq<usize>)>, n: int)
    requires
        groups_below(g, n),
    ensures
        all_below(flatten(g), n),
    decreases g.len(),
{
    if g.len() > 0 {
        assert(groups_below(g.drop_last(), n)) by {
            assert forall|a: int| 0 <= a < g.drop_last().len() implies all_below(#[trigger] g.drop_last()[a].1, n) by {
                assert(g.drop_last()[a] == g[a]);
            }
        }
        lemma_flatten_below(g.drop_last(), n);
        assert(all_below(g[g.len() - 1].1, n));
        let f = flatten(g);
        let p = flatten(g.drop_last());
        assert forall|j: int| 0 <= j < f.len() implies #[trigger] f[j] < n by {
            if j < p.len() {
                assert(f[j] == p[j]);
            } else {
                assert(f[j] == g.last().1[j - p.len()]);
            }
        }
    }
}

/// Renders the brief view of a display item.
pub fn render_brief(index: &DocIndex, display: &DisplayItem) -> (r: String)
    requires
        display_in_bounds(index, display_view(*display)),
    ensures
        r@ == spec_render_brief(index, display_view(*display)),
{
    let items = index.items.as_slice();
    let mut out: Vec<char> = Vec::new();
    match display {
        DisplayItem::Crate { item, children } => {
            let it = &items[*item];
            append_str(&mut out, "crate ");
            append_str(&mut out, it.path.as_str());
            out.push('\n');
            let flat = flatten_exec(children);
            proof {
                assert(display_in_bounds(index, DisplayView::Crate(*item, grouped_view(*children))));
                lemma_flatten_below(grouped_view(*children), items@.len() as int);
            }
            let w = max_kind_width_exec(items, &flat);
            append_kind_name_lines(&mut out, items, &flat, w);
            assert(out@ =~= brief_body(index, display_view(*display)));
        },
        DisplayItem::Module { item, children } => {
            let it = &items[*item];
            append_str(&mut out, it.kind.short_name());
            out.push(' ');
            append_str(&mut out, it.path.as_str());
            out.push('\n');
            let flat = flatten_exec(children);
            proof {
                assert(display_in_bounds(index, DisplayView::Module(*item, grouped_view(*children))));
                lemma_flatten_below(grouped_view(*children), items@.len() as int);
            }
            let w = max_kind_width_exec(items, &flat);
            append_kind_name_lines(&mut out, items, &flat, w);
            assert(out@ =~= brief_body(index, display_view(*display)));
        },
        DisplayItem::Type { item, methods, variants, .. } => {
            let it = &items[*item];
            append_str(&mut out, it.kind.short_name());
            out.push(' ');
            append_str(&mut out, it.path.as_str());
            out.push('\n');
            append_prefixed_names(&mut out, items, variants, "  variant  ");
            append_prefixed_names(&mut out, items, methods, "  fn       ");
            assert(out@ =~= brief_body(index, display_view(*display)));
        },
        DisplayItem::Trait { item, required_methods, provided_methods } => {
            let it = &items[*item];
            append_str(&mut out, "trait ");
            append_str(&mut out, it.path.as_str());
            out.push('\n');
            append_prefixed_names(&mut out, items, required_methods, "  fn  ");
            append_prefixed_names(&mut out, items, provided_methods, "  fn  ");
            assert(out@ =~= brief_body(index, display_view(*display)));
        },
        DisplayItem::Leaf { item } => {
            let it = &items[*item];
            append_str(&mut out, it.kind.short_name());
            out.push(' ');
            append_str(&mut out, it.path.as_str());
            out.push('\n');
            assert(out@ =~= brief_body(index, display_view(*display)));
        },
    }
    string_of(trim_end_char_exec(out.as_slice(), '\n').as_slice())
}

// ---------------------------------------------------------------------------
// Recursive listings grouped by module
// ---------------------------------------------------------------------------

/// The module an item is listed under: its path before the last `::`, or
/// the root path for a path without `::`.
pub open spec fn parent_of(it: IndexItem, root: Seq<char>) -> Seq<char> {
    match module_prefix(it.path@) {
        Some(p) => p,
        None => root,
    }
}

/// The items ordered by parent module (stable, so items keep their order
/// within a module), as `(0, parent, position)` entries.
pub open spec fn by_module(items: Seq<IndexItem>, root: Seq<char>) -> Seq<EntryView> {
    stable_sort(Seq::new(items.len(), |i: int| (0u64, parent_of(items[i], root), i as usize)))
}

/// The parent module of an item, as characters.
pub fn parent_of_exec(it: &IndexItem, root: &[char]) -> (r: Vec<char>)
    ensures
        r@ == parent_of(*it, root@),
{
    let p = chars_of(it.path.as_str());
    let sep = path_sep_exec();
    match rfind_exec(p.as_slice(), sep.as_slice()) {
        Some(i) => {
            let r = slice_to_vec(p.as_slice(), 0, i);
            assert(r@ =~= p@.take(i as int));
            r
        },
        None => crate::text::copy_chars(root),
    }
}

/// Sorts the items by parent module, stably.
pub fn module_order(items: &[IndexItem], root: &[char]) -> (r: Vec<SortEntry>)
    ensures
        entry_views(r@) == by_module(items@, root@),
{
    let ghost f = |i: int| (0u64, parent_of(items@[i], root@), i as usize);
    let mut es: Vec<SortEntry> = Vec::new();
    let mut i: usize = 0;
    while i < items.len()
        invariant
            i <= items@.len(),
            f == (|i: int| (0u64, parent_of(items@[i], root@), i as usize)),
            entry_views(es@) == Seq::new(i as nat, f),
        decreases items.len() - i,
    {
        let ghost old_e = entry_views(es@);
        es.push(SortEntry { major: 0, minor: parent_of_exec(&items[i], root), item: i });
        assert(entry_views(es@) =~= old_e.push(f(i as int)));
        assert(Seq::new((i + 1) as nat, f) =~= Seq::new(i as nat, f).push(f(i as int)));
        i = i + 1;
    }
    sort_entries(es)
}

/// Entries ordered by module refer to positions of the items.
pub proof fn lemma_by_module_positions(items: Seq<IndexItem>, root: Seq<char>, t: int)
    requires
        0 <= t < by_module(items, root).len(),
        items.len() <= usize::MAX,
    ensures
        by_module(items, root)[t].2 < items.len(),
        by_module(items, root)[t].1 == parent_of(items[by_module(items, root)[t].2 as int], root),
{
    let s = Seq::new(items.len(), |i: int| (0u64, parent_of(items[i], root), i as usize));
    crate::sort::lemma_stable_sort_member(s, t);
    let j = choose|j: int| 0 <= j < s.len() && s[j] == stable_sort(s)[t];
    assert(s[j].2 == j);
}

/// Module-grouped lines: a `<module>:` header (after a blank line, except
/// the first) each time the module changes, then one line per item.
pub open spec fn grouped_by_module(items: Seq<IndexItem>, es: Seq<EntryView>, w: nat) -> Seq<char>
    decreases es.len(),
{
    if es.len() == 0 {
        seq![]
    } else {
        let prev = grouped_by_module(items, es.drop_last(), w);
        let e = es.last();
        let header = if es.len() == 1 {
            e.1 + seq![':', '\n']
        } else if es[es.len() - 2].1 != e.1 {
            seq!['\n'] + e.1 + seq![':', '\n']
        } else {
            seq![]
        };
        let it = items[e.2 as int];
        prev + header + seq![' ', ' '] + pad_right(kind_word(it), w) + seq![' ', ' '] + it.name@
            + seq!['\n']
    }
}

/// The brief recursive listing: items grouped by parent module (modules in
/// order), kind and name per item, kinds padded to the widest; empty for no
/// items.
pub open spec fn spec_render_brief_recursive(items: Seq<IndexItem>, root: Seq<char>) -> Seq<char> {
    let w = max_kind_width(items, Seq::new(items.len(), |i: int| i as usize));
    trim_end_char(grouped_by_module(items, by_module(items, root), w), '\n')
}

/// Renders a brief recursive listing of items grouped by parent module.
pub fn render_brief_recursive(items: &[IndexItem], root_path: &str) -> (r: String)
    ensures
        r@ == spec_render_brief_recursive(items@, root_path@),
{
    let root = chars_of(root_path);
    let n = items.len();
    let mut all: Vec<usize> = Vec::new();
    let mut i: usize = 0;
    while i < items.len()
        invariant
            i <= items@.len(),
            all@ == Seq::new(i as nat, |j: int| j as usize),
        decreases items.len() - i,
    {
        all.push(i);
        assert(all@ =~= Seq::new((i + 1) as nat, |j: int| j as usize));
        i = i + 1;
    }
    let w = max_kind_width_exec(items, &all);
    let order = module_order(items, root.as_slice());
    let ghost ev = entry_views(order@);
    let mut out: Vec<char> = Vec::new();
    let mut k: usize = 0;
    assert(ev.take(0) =~= Seq::<EntryView>::empty());
    while k < order.len()
        invariant
            k <= order@.len(),
            ev == entry_views(order@),
            ev == by_module(items@, root@),
            n == items@.len(),
            out@ == grouped_by_module(items@, ev.take(k as int), w as nat),
        decreases order.len() - k,
    {
        let ghost before = out@;
        assert(ev.take(k + 1).drop_last() =~= ev.take(k as int));
        proof {
            lemma_by_module_positions(items@, root@, k as int);
        }
        let e = &order[k];
        if k == 0 {
            append(&mut out, e.minor.as_slice());
            out.push(':');
            out.push('\n');
        } else if !crate::text::chars_eq(order[k - 1].minor.as_slice(), e.minor.as_slice()) {
            out.push('\n');
            append(&mut out, e.minor.as_slice());
            out.push(':');
            out.push('\n');
        }
        let it = &items[e.item];
        out.push(' ');
        out.push(' ');
        append_padded(&mut out, chars_of(it.kind.short_name()).as_slice(), w);
        out.push(' ');
        out.push(' ');
        append_str(&mut out, it.name.as_str());
        out.push('\n');
        assert(ev.take(k + 1).last() == ev[k as int]);
        assert(k > 0 ==> ev.take(k + 1)[k - 1] == ev[k - 1]);
        assert(out@ =~= grouped_by_module(items@, ev.take(k + 1), w as nat));
        k = k + 1;
    }
    assert(ev.take(ev.len() as int) =~= ev);
    string_of(trim_end_char_exec(out.as_slice(), '\n').as_slice())
}

} // verus!
