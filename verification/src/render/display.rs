//! The display model of an item: what a view of it shows.
use vstd::prelude::*;
use crate::sort::{entry_payloads, payloads, sort_entries, stable_sort, EntryView, SortEntry};
use crate::render::text::{all_below, display_in_bounds, groups_below};
use crate::text::{chars_eq, chars_of};
use crate::types::{
    group_items, grouped_view, groups_upto, DocIndex, GroupedItems, IndexItem, ItemKind,
    KindCategory, TraitImplInfo,
};

verus! {

/// What a view of an item shows; items are positions in the index.
#[derive(Debug)]
pub enum DisplayItem {
    /// Crate root display.
    Crate {
        /// The crate root item.
        item: usize,
        /// Public children grouped by category.
        children: GroupedItems,
    },
    /// Module display.
    Module {
        /// The module item.
        item: usize,
        /// Public children grouped by category.
        children: GroupedItems,
    },
    /// Type display (struct, enum, union).
    Type {
        /// The type item.
        item: usize,
        /// Associated methods, sorted by name.
        methods: Vec<usize>,
        /// Enum variants, sorted by name.
        variants: Vec<usize>,
        /// Trait implementations.
        trait_impls: Vec<TraitImplInfo>,
    },
    /// Trait display.
    Trait {
        /// The trait item.
        item: usize,
        /// Required methods (no default body), sorted by name.
        required_methods: Vec<usize>,
        /// Provided methods (with a default body), sorted by name.
        provided_methods: Vec<usize>,
    },
    /// Leaf item (function, constant, macro, etc.).
    Leaf {
        /// The leaf item.
        item: usize,
    },
}

/// The abstract value of a display item.
pub enum DisplayView {
    Crate(usize, Seq<(KindCategory, Seq<usize>)>),
    Module(usize, Seq<(KindCategory, Seq<usize>)>),
    Type(usize, Seq<usize>, Seq<usize>, Seq<TraitImplInfo>),
    Trait(usize, Seq<usize>, Seq<usize>),
    Leaf(usize),
}

/// The abstract value of a display item.
pub open spec fn display_view(d: DisplayItem) -> DisplayView {
    match d {
        DisplayItem::Crate { item, children } => DisplayView::Crate(item, grouped_view(children)),
        DisplayItem::Module { item, children } => DisplayView::Module(item, grouped_view(children)),
        DisplayItem::Type { item, methods, variants, trait_impls } => DisplayView::Type(
            item,
            methods@,
            variants@,
            trait_impls@,
        ),
        DisplayItem::Trait { item, required_methods, provided_methods } => DisplayView::Trait(
            item,
            required_methods@,
            provided_methods@,
        ),
        DisplayItem::Leaf { item } => DisplayView::Leaf(item),
    }
}

/// The positions of the children of `item`.
pub open spec fn child_positions(item: IndexItem) -> Seq<usize> {
    item.children@.map_values(|c: crate::types::ChildRef| c.index)
}

/// The positions among `pos` whose item satisfies `pred`, in order.
pub open spec fn select(items: Seq<IndexItem>, pos: Seq<usize>, pred: spec_fn(IndexItem) -> bool) -> Seq<usize>
    decreases pos.len(),
{
    if pos.len() == 0 {
        seq![]
    } else {
        let prev = select(items, pos.drop_last(), pred);
        if pred(items[pos.last() as int]) {
            prev.push(pos.last())
        } else {
            prev
        }
    }
}

/// Positions sorted by item name (stable).
pub open spec fn by_name(items: Seq<IndexItem>, pos: Seq<usize>) -> Seq<usize> {
    payloads(stable_sort(pos.map_values(|p: usize| (0u64, items[p as int].name@, p))))
}

/// Public children (all children with `include_private`).
pub open spec fn visible(include_private: bool) -> spec_fn(IndexItem) -> bool {
    |it: IndexItem| include_private || it.is_public
}

/// Items of one kind.
pub open spec fn of_kind(k: ItemKind) -> spec_fn(IndexItem) -> bool {
    |it: IndexItem| it.kind == k
}

/// Functions with or without a default body.
pub open spec fn fn_with_body(b: bool) -> spec_fn(IndexItem) -> bool {
    |it: IndexItem| it.kind == ItemKind::Function && it.has_body == b
}

/// What [`build_display_item`] builds: a module is the crate root when its
/// path is the crate name; modules show their visible children grouped by
/// category; types show their function children as methods and variant
/// children as variants (each sorted by name) and their trait impls; traits
/// split function children into required and provided (sorted by name);
/// everything else is a leaf.
pub open spec fn spec_display(idx: &DocIndex, i: usize, include_private: bool) -> DisplayView {
    let items = idx.items@;
    let it = items[i as int];
    let cs = child_positions(it);
    match it.kind {
        ItemKind::Module => {
            let g = groups_upto(items, select(items, cs, visible(include_private)), 13);
            if it.path@ == idx.crate_name@ {
                DisplayView::Crate(i, g)
            } else {
                DisplayView::Module(i, g)
            }
        },
        ItemKind::Struct | ItemKind::Enum | ItemKind::Union => DisplayView::Type(
            i,
            by_name(items, select(items, cs, of_kind(ItemKind::Function))),
            by_name(items, select(items, cs, of_kind(ItemKind::Variant))),
            match idx.trait_impls.spec_get(i) {
                Some(v) => v,
                None => Seq::empty(),
            },
        ),
        ItemKind::Trait | ItemKind::TraitAlias => DisplayView::Trait(
            i,
            by_name(items, select(items, cs, fn_with_body(false))),
            by_name(items, select(items, cs, fn_with_body(true))),
        ),
        _ => DisplayView::Leaf(i),
    }
}

/// Sorts positions by item name (stable).
pub fn sort_by_name(idx: &DocIndex, pos: &Vec<usize>) -> (r: Vec<usize>)
    requires
        forall|j: int| 0 <= j < pos@.len() ==> #[trigger] pos@[j] < idx.items@.len(),
    ensures
        r@ == by_name(idx.items@, pos@),
{
    let ghost f = |p: usize| (0u64, idx.items@[p as int].name@, p);
    let mut es: Vec<SortEntry> = Vec::new();
    let mut i: usize = 0;
    while i < pos.len()
        invariant
            i <= pos@.len(),
            forall|j: int| 0 <= j < pos@.len() ==> #[trigger] pos@[j] < idx.items@.len(),
            f == (|p: usize| (0u64, idx.items@[p as int].name@, p)),
            crate::sort::entry_views(es@) == pos@.take(i as int).map_values(f),
        decreases pos.len() - i,
    {
        let ghost old_e = crate::sort::entry_views(es@);
        let p = pos[i];
        es.push(SortEntry { major: 0, minor: chars_of(idx.items[p].name.as_str()), item: p });
        assert(crate::sort::entry_views(es@) =~= old_e.push(f(p)));
        assert(pos@.take(i + 1).map_values(f) =~= pos@.take(i as int).map_values(f).push(f(p)));
        i = i + 1;
    }
    assert(pos@.take(pos@.len() as int) =~= pos@);
    let sorted = sort_entries(es);
    entry_payloads(&sorted)
}

/// The children of `i` that satisfy a test, as one of the selections above.
fn select_children(idx: &DocIndex, i: usize, which: u8, include_private: bool) -> (r: Vec<usize>)
    requires
        i < idx.items@.len(),
        idx.children_in_bounds(),
        which <= 4,
    ensures
        r@ == select(idx.items@, child_positions(idx.items@[i as int]), if which == 0 {
            visible(include_private)
        } else if which == 1 {
            of_kind(ItemKind::Function)
        } else if which == 2 {
            of_kind(ItemKind::Variant)
        } else if which == 3 {
            fn_with_body(false)
        } else {
            fn_with_body(true)
        }),
        forall|j: int| 0 <= j < r@.len() ==> #[trigger] r@[j] < idx.items@.len(),
{
    let ghost pred = if which == 0 {
        visible(include_private)
    } else if which == 1 {
        of_kind(ItemKind::Function)
    } else if which == 2 {
        of_kind(ItemKind::Variant)
    } else if which == 3 {
        fn_with_body(false)
    } else {
        fn_with_body(true)
    };
    let item = &idx.items[i];
    let ghost cs = child_positions(*item);
    let mut r: Vec<usize> = Vec::new();
    let mut k: usize = 0;
    while k < item.children.len()
        invariant
            k <= item.children@.len(),
            i < idx.items@.len(),
            item == idx.items@[i as int],
            idx.children_in_bounds(),
            cs == child_positions(*item),
            pred == (if which == 0 {
                visible(include_private)
            } else if which == 1 {
                of_kind(ItemKind::Function)
            } else if which == 2 {
                of_kind(ItemKind::Variant)
            } else if which == 3 {
                fn_with_body(false)
            } else {
                fn_with_body(true)
            }),
            r@ == select(idx.items@, cs.take(k as int), pred),
            forall|j: int| 0 <= j < r@.len() ==> #[trigger] r@[j] < idx.items@.len(),
        decreases item.children.len() - k,
    {
        assert(cs.take(k + 1).drop_last() =~= cs.take(k as int));
        assert(cs.take(k + 1).last() == item.children@[k as int].index);
        let p = item.children[k].index;
        assert(idx.items@[i as int].children@[k as int].index < idx.items@.len());
        let c = &idx.items[p];
        let ok = if which == 0 {
            include_private || c.is_public
        } else if which == 1 {
            c.kind == ItemKind::Function
        } else if which == 2 {
            c.kind == ItemKind::Variant
        } else if which == 3 {
            c.kind == ItemKind::Function && !c.has_body
        } else {
            c.kind == ItemKind::Function && c.has_body
        };
        assert(ok == pred(idx.items@[p as int]));
        if ok {
            r.push(p);
        }
        k = k + 1;
    }
    assert(cs.take(cs.len() as int) =~= cs);
    r
}

/// Builds the display model of the item at `item_index`.
pub fn build_display_item(index: &DocIndex, item_index: usize, include_private: bool) -> (r: DisplayItem)
    requires
        item_index < index.items@.len(),
        index.children_in_bounds(),
    ensures
        display_view(r) == spec_display(index, item_index, include_private),
        display_in_bounds(index, display_view(r)),
{
    proof {
        lemma_display_in_bounds(index, item_index, include_private);
    }
    let item = &index.items[item_index];
    match item.kind {
        ItemKind::Module => {
            let vis = select_children(index, item_index, 0, include_private);
            let children = group_items(index.items.as_slice(), vis.as_slice());
            if chars_eq(chars_of(item.path.as_str()).as_slice(), chars_of(index.crate_name.as_str()).as_slice()) {
                DisplayItem::Crate { item: item_index, children }
            } else {
                DisplayItem::Module { item: item_index, children }
            }
        },
        ItemKind::Struct | ItemKind::Enum | ItemKind::Union => {
            let m = select_children(index, item_index, 1, include_private);
            let v = select_children(index, item_index, 2, include_private);
            DisplayItem::Type {
                item: item_index,
                methods: sort_by_name(index, &m),
                variants: sort_by_name(index, &v),
                trait_impls: index.item_trait_impls(item_index),
            }
        },
        ItemKind::Trait | ItemKind::TraitAlias => {
            let rq = select_children(index, item_index, 3, include_private);
            let pv = select_children(index, item_index, 4, include_private);
            DisplayItem::Trait {
                item: item_index,
                required_methods: sort_by_name(index, &rq),
                provided_methods: sort_by_name(index, &pv),
            }
        },
        _ => DisplayItem::Leaf { item: item_index },
    }
}

/// Sorted payloads come from the entries sorted.
pub proof fn lemma_sorted_payloads_below(s: Seq<EntryView>, n: int)
    requires
        forall|j: int| 0 <= j < s.len() ==> (#[trigger] s[j]).2 < n,
    ensures
        all_below(payloads(stable_sort(s)), n),
{
    crate::types::lemma_stable_sort_len(s);
    assert forall|j: int| 0 <= j < payloads(stable_sort(s)).len() implies #[trigger] payloads(
        stable_sort(s),
    )[j] < n by {
        crate::sort::lemma_stable_sort_member(s, j);
        let x = stable_sort(s)[j];
        let k = choose|k: int| 0 <= k < s.len() && s[k] == x;
        assert(s[k].2 < n);
    }
}

/// Selecting positions keeps them among the given ones.
pub proof fn lemma_select_below(items: Seq<IndexItem>, pos: Seq<usize>, pred: spec_fn(IndexItem) -> bool, n: int)
    requires
        all_below(pos, n),
    ensures
        all_below(select(items, pos, pred), n),
    decreases pos.len(),
{
    if pos.len() > 0 {
        lemma_select_below(items, pos.drop_last(), pred, n);
    }
}

/// Sorting positions by name keeps them among the given ones.
pub proof fn lemma_by_name_below(items: Seq<IndexItem>, pos: Seq<usize>, n: int)
    requires
        all_below(pos, n),
    ensures
        all_below(by_name(items, pos), n),
{
    let s = pos.map_values(|p: usize| (0u64, items[p as int].name@, p));
    assert forall|j: int| 0 <= j < s.len() implies (#[trigger] s[j]).2 < n by {
        assert(s[j].2 == pos[j]);
    }
    lemma_sorted_payloads_below(s, n);
}

/// The groups of positions hold positions of the items.
pub proof fn lemma_groups_upto_below(items: Seq<IndexItem>, pos: Seq<usize>, r: nat)
    ensures
        groups_below(groups_upto(items, pos, r), items.len() as int),
    decreases r,
{
    broadcast use vstd::seq_lib::group_filter_ensures;
    if r > 0 {
        lemma_groups_upto_below(items, pos, (r - 1) as nat);
        let c = crate::types::category_at((r - 1) as nat);
        let es = crate::types::category_entries(items, pos, c);
        let f = |p: usize| p < items.len() && crate::types::spec_meta(items[p as int].kind).category == c;
        assert forall|j: int| 0 <= j < es.len() implies (#[trigger] es[j]).2 < items.len() as int by {
            assert(es[j].2 == pos.filter(f)[j]);
            assert(f(pos.filter(f)[j]));
        }
        lemma_sorted_payloads_below(es, items.len() as int);
    }
}

/// The children of an item of an index whose children are in bounds.
pub proof fn lemma_children_below(idx: &DocIndex, i: usize)
    requires
        i < idx.items@.len(),
        idx.children_in_bounds(),
    ensures
        all_below(child_positions(idx.items@[i as int]), idx.items@.len() as int),
{
    let it = idx.items@[i as int];
    assert forall|j: int| 0 <= j < child_positions(it).len() implies #[trigger] child_positions(
        it,
    )[j] < idx.items@.len() as int by {
        assert(child_positions(it)[j] == idx.items@[i as int].children@[j].index);
    }
}

/// What [`build_display_item`] builds refers only to positions of the index.
pub proof fn lemma_display_in_bounds(idx: &DocIndex, i: usize, include_private: bool)
    requires
        i < idx.items@.len(),
        idx.children_in_bounds(),
    ensures
        display_in_bounds(idx, spec_display(idx, i, include_private)),
{
    let items = idx.items@;
    let n = items.len() as int;
    let cs = child_positions(items[i as int]);
    lemma_children_below(idx, i);
    match items[i as int].kind {
        ItemKind::Module => {
            lemma_groups_upto_below(items, select(items, cs, visible(include_private)), 13);
        },
        ItemKind::Struct | ItemKind::Enum | ItemKind::Union => {
            lemma_select_below(items, cs, of_kind(ItemKind::Function), n);
            lemma_select_below(items, cs, of_kind(ItemKind::Variant), n);
            lemma_by_name_below(items, select(items, cs, of_kind(ItemKind::Function)), n);
            lemma_by_name_below(items, select(items, cs, of_kind(ItemKind::Variant)), n);
        },
        ItemKind::Trait | ItemKind::TraitAlias => {
            lemma_select_below(items, cs, fn_with_body(false), n);
            lemma_select_below(items, cs, fn_with_body(true), n);
            lemma_by_name_below(items, select(items, cs, fn_with_body(false)), n);
            lemma_by_name_below(items, select(items, cs, fn_with_body(true)), n);
        },
        _ => {},
    }
}

} // verus!
