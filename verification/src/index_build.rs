//! Building the documentation index from a crate model, in four passes:
//! a child-to-parent map; a path for every id (from rustdoc's summaries,
//! hoisted through glob re-exports, through impl blocks and traits, and
//! finally through the parent chain); the conversion of items in id order;
//! and the linking of children and trait implementations.
use vstd::prelude::*;
use vstd::hash_map::HashMapWithView;
use crate::cache::opt_string;
use crate::cli::string_views;
use crate::crate_model::{
    item_of, items_sorted, lemma_item_at, path_summary_of, CrateItem, CrateModel, FieldIds, ImplBlock,
    ItemInner, ItemVisibility, PathEntry, SummaryKind, UseDecl,
};
use crate::index_builder::{
    extract_feature_gate, fallback_signature, spec_extract_summary, spec_fallback_signature,
    spec_feature_gate, summary_of,
};
use crate::signature::{render_signature, spec_render_signature};
use crate::text::{append, append_str, chars_of, join, join_exec, path_sep, path_sep_exec, string_of};
use crate::keyed::{assoc_push, assoc_push_all, Entries};
use crate::text::lower;
use crate::types::{suffix_keys, ChildRef, DocIndex, ImplMap, IndexItem, ItemKind, SourceSpan, TraitImplInfo};

verus! {

broadcast use vstd::std_specs::hash::group_hash_axioms;

// ---------------------------------------------------------------------------
// Kinds and visibility
// ---------------------------------------------------------------------------

/// The index kind of an item; `None` for impl blocks, `use` declarations
/// and `extern crate`, which are not indexed as such.
pub open spec fn spec_item_kind(inner: ItemInner) -> Option<ItemKind> {
    match inner {
        ItemInner::Module(_) => Some(ItemKind::Module),
        ItemInner::Struct { .. } => Some(ItemKind::Struct),
        ItemInner::Enum { .. } => Some(ItemKind::Enum),
        ItemInner::Union { .. } => Some(ItemKind::Union),
        ItemInner::Trait { .. } => Some(ItemKind::Trait),
        ItemInner::TraitAlias => Some(ItemKind::TraitAlias),
        ItemInner::Function { .. } => Some(ItemKind::Function),
        ItemInner::TypeAlias => Some(ItemKind::TypeAlias),
        ItemInner::AssocType => Some(ItemKind::AssocType),
        ItemInner::AssocConst => Some(ItemKind::AssocConst),
        ItemInner::Constant => Some(ItemKind::Constant),
        ItemInner::Static => Some(ItemKind::Static),
        ItemInner::Macro => Some(ItemKind::Macro),
        ItemInner::ProcMacro => Some(ItemKind::ProcMacro),
        ItemInner::Variant => Some(ItemKind::Variant),
        ItemInner::StructField => Some(ItemKind::Field),
        ItemInner::ExternType => Some(ItemKind::ForeignType),
        ItemInner::Primitive => Some(ItemKind::Primitive),
        ItemInner::Impl(_) | ItemInner::Use(_) | ItemInner::ExternCrate => None,
    }
}

/// Each indexed item gets the kind of its own rustdoc variant: a module is
/// indexed as a module, a struct as a struct, an enum as an enum, and so on
/// for every kind; impl blocks, `use` items and `extern crate` are not
/// indexed. No two variants share a kind.
pub proof fn lemma_item_kind_matches_variant(inner: ItemInner)
    ensures
        spec_item_kind(inner) == Some(ItemKind::Module) <==> inner is Module,
        spec_item_kind(inner) == Some(ItemKind::Struct) <==> inner is Struct,
        spec_item_kind(inner) == Some(ItemKind::Enum) <==> inner is Enum,
        spec_item_kind(inner) == Some(ItemKind::Union) <==> inner is Union,
        spec_item_kind(inner) == Some(ItemKind::Trait) <==> inner is Trait,
        spec_item_kind(inner) == Some(ItemKind::TraitAlias) <==> inner is TraitAlias,
        spec_item_kind(inner) == Some(ItemKind::Function) <==> inner is Function,
        spec_item_kind(inner) == Some(ItemKind::TypeAlias) <==> inner is TypeAlias,
        spec_item_kind(inner) == Some(ItemKind::AssocType) <==> inner is AssocType,
        spec_item_kind(inner) == Some(ItemKind::AssocConst) <==> inner is AssocConst,
        spec_item_kind(inner) == Some(ItemKind::Constant) <==> inner is Constant,
        spec_item_kind(inner) == Some(ItemKind::Static) <==> inner is Static,
        spec_item_kind(inner) == Some(ItemKind::Macro) <==> inner is Macro,
        spec_item_kind(inner) == Some(ItemKind::ProcMacro) <==> inner is ProcMacro,
        spec_item_kind(inner) == Some(ItemKind::Variant) <==> inner is Variant,
        spec_item_kind(inner) == Some(ItemKind::Field) <==> inner is StructField,
        spec_item_kind(inner) == Some(ItemKind::ForeignType) <==> inner is ExternType,
        spec_item_kind(inner) == Some(ItemKind::Primitive) <==> inner is Primitive,
        spec_item_kind(inner) is None <==> (inner is Impl || inner is Use || inner is ExternCrate),
{
}

/// Kinds tell variants apart: two items given the same kind are of the same
/// rustdoc variant.
pub proof fn lemma_item_kind_injective(a: ItemInner, b: ItemInner)
    requires
        spec_item_kind(a) is Some,
        spec_item_kind(a) == spec_item_kind(b),
    ensures
        (a is Module <==> b is Module) && (a is Struct <==> b is Struct) && (a is Enum <==> b is Enum)
            && (a is Union <==> b is Union) && (a is Trait <==> b is Trait) && (a is Function
            <==> b is Function) && (a is Variant <==> b is Variant) && (a is StructField
            <==> b is StructField),
{
    lemma_item_kind_matches_variant(a);
    lemma_item_kind_matches_variant(b);
}

/// The index kind of an item.
pub fn convert_item_kind(inner: &ItemInner) -> (r: Option<ItemKind>)
    ensures
        r == spec_item_kind(*inner),
{
    match inner {
        ItemInner::Module(_) => Some(ItemKind::Module),
        ItemInner::Struct { .. } => Some(ItemKind::Struct),
        ItemInner::Enum { .. } => Some(ItemKind::Enum),
        ItemInner::Union { .. } => Some(ItemKind::Union),
        ItemInner::Trait { .. } => Some(ItemKind::Trait),
        ItemInner::TraitAlias => Some(ItemKind::TraitAlias),
        ItemInner::Function { .. } => Some(ItemKind::Function),
        ItemInner::TypeAlias => Some(ItemKind::TypeAlias),
        ItemInner::AssocType => Some(ItemKind::AssocType),
        ItemInner::AssocConst => Some(ItemKind::AssocConst),
        ItemInner::Constant => Some(ItemKind::Constant),
        ItemInner::Static => Some(ItemKind::Static),
        ItemInner::Macro => Some(ItemKind::Macro),
        ItemInner::ProcMacro => Some(ItemKind::ProcMacro),
        ItemInner::Variant => Some(ItemKind::Variant),
        ItemInner::StructField => Some(ItemKind::Field),
        ItemInner::ExternType => Some(ItemKind::ForeignType),
        ItemInner::Primitive => Some(ItemKind::Primitive),
        ItemInner::Impl(_) | ItemInner::Use(_) | ItemInner::ExternCrate => None,
    }
}

/// The index kind of a path summary's kind; `None` for kinds that are not
/// indexed (extern crates, `use`, impl blocks, keywords, attributes).
pub open spec fn spec_summary_item_kind(k: SummaryKind) -> Option<ItemKind> {
    match k {
        SummaryKind::Module => Some(ItemKind::Module),
        SummaryKind::Struct => Some(ItemKind::Struct),
        SummaryKind::Enum => Some(ItemKind::Enum),
        SummaryKind::Union => Some(ItemKind::Union),
        SummaryKind::Trait => Some(ItemKind::Trait),
        SummaryKind::TraitAlias => Some(ItemKind::TraitAlias),
        SummaryKind::Function => Some(ItemKind::Function),
        SummaryKind::TypeAlias => Some(ItemKind::TypeAlias),
        SummaryKind::AssocType => Some(ItemKind::AssocType),
        SummaryKind::AssocConst => Some(ItemKind::AssocConst),
        SummaryKind::Constant => Some(ItemKind::Constant),
        SummaryKind::Static => Some(ItemKind::Static),
        SummaryKind::Macro => Some(ItemKind::Macro),
        SummaryKind::ProcAttribute | SummaryKind::ProcDerive => Some(ItemKind::ProcMacro),
        SummaryKind::Variant => Some(ItemKind::Variant),
        SummaryKind::StructField => Some(ItemKind::Field),
        SummaryKind::ExternType => Some(ItemKind::ForeignType),
        SummaryKind::Primitive => Some(ItemKind::Primitive),
        SummaryKind::ExternCrate | SummaryKind::Use | SummaryKind::Impl | SummaryKind::Keyword
        | SummaryKind::Attribute => None,
    }
}

/// The index kind of a path summary's kind.
pub fn convert_item_summary_kind(k: SummaryKind) -> (r: Option<ItemKind>)
    ensures
        r == spec_summary_item_kind(k),
{
    match k {
        SummaryKind::Module => Some(ItemKind::Module),
        SummaryKind::Struct => Some(ItemKind::Struct),
        SummaryKind::Enum => Some(ItemKind::Enum),
        SummaryKind::Union => Some(ItemKind::Union),
        SummaryKind::Trait => Some(ItemKind::Trait),
        SummaryKind::TraitAlias => Some(ItemKind::TraitAlias),
        SummaryKind::Function => Some(ItemKind::Function),
        SummaryKind::TypeAlias => Some(ItemKind::TypeAlias),
        SummaryKind::AssocType => Some(ItemKind::AssocType),
        SummaryKind::AssocConst => Some(ItemKind::AssocConst),
        SummaryKind::Constant => Some(ItemKind::Constant),
        SummaryKind::Static => Some(ItemKind::Static),
        SummaryKind::Macro => Some(ItemKind::Macro),
        SummaryKind::ProcAttribute | SummaryKind::ProcDerive => Some(ItemKind::ProcMacro),
        SummaryKind::Variant => Some(ItemKind::Variant),
        SummaryKind::StructField => Some(ItemKind::Field),
        SummaryKind::ExternType => Some(ItemKind::ForeignType),
        SummaryKind::Primitive => Some(ItemKind::Primitive),
        SummaryKind::ExternCrate | SummaryKind::Use | SummaryKind::Impl | SummaryKind::Keyword
        | SummaryKind::Attribute => None,
    }
}

/// Whether an item counts as public: `pub`, or default visibility on an
/// enum variant, a function (trait methods) or a struct field.
pub open spec fn spec_is_visible(vis: ItemVisibility, inner: ItemInner) -> bool {
    match vis {
        ItemVisibility::Public => true,
        ItemVisibility::Default => match inner {
            ItemInner::Variant | ItemInner::Function { .. } | ItemInner::StructField => true,
            _ => false,
        },
        _ => false,
    }
}

/// Whether an item counts as public.
pub fn check_visibility(item: &CrateItem) -> (r: bool)
    ensures
        r == spec_is_visible(item.visibility, item.inner),
{
    match item.visibility {
        ItemVisibility::Public => true,
        ItemVisibility::Default => match &item.inner {
            ItemInner::Variant | ItemInner::Function { .. } | ItemInner::StructField => true,
            _ => false,
        },
        _ => false,
    }
}

// ---------------------------------------------------------------------------
// Contained ids
// ---------------------------------------------------------------------------

/// The ids of tuple fields that were not stripped, in order.
pub open spec fn present_ids(s: Seq<Option<u32>>) -> Seq<u32>
    decreases s.len(),
{
    if s.len() == 0 {
        seq![]
    } else {
        present_ids(s.drop_last()) + match s.last() {
            Some(x) => seq![x],
            None => seq![],
        }
    }
}

/// The field ids of a struct.
pub open spec fn spec_field_ids(f: FieldIds) -> Seq<u32> {
    match f {
        FieldIds::Plain(v) => v@,
        FieldIds::Tuple(v) => present_ids(v@),
        FieldIds::Unit => seq![],
    }
}

/// The field ids of a struct.
pub fn struct_field_ids(f: &FieldIds) -> (r: Vec<u32>)
    ensures
        r@ == spec_field_ids(*f),
{
    match f {
        FieldIds::Plain(v) => v.clone(),
        FieldIds::Tuple(v) => {
            let mut r: Vec<u32> = Vec::new();
            let mut i: usize = 0;
            while i < v.len()
                invariant
                    i <= v@.len(),
                    r@ == present_ids(v@.take(i as int)),
                decreases v.len() - i,
            {
                assert(v@.take(i + 1).drop_last() =~= v@.take(i as int));
                if let Some(x) = v[i] {
                    r.push(x);
                }
                i = i + 1;
            }
            assert(v@.take(v@.len() as int) =~= v@);
            r
        },
        FieldIds::Unit => Vec::new(),
    }
}

/// The associated items an impl block (by id) contributes: all of them, or
/// with `inherent_only` only those of an inherent impl.
pub open spec fn impl_block_items(s: Seq<CrateItem>, id: u32, inherent_only: bool) -> Seq<u32> {
    match item_of(s, id) {
        Some(it) => match it.inner {
            ItemInner::Impl(b) => if !inherent_only || b.trait_path is None {
                b.items@
            } else {
                seq![]
            },
            _ => seq![],
        },
        None => seq![],
    }
}

/// The associated items of a list of impl blocks, in order.
pub open spec fn impls_items(s: Seq<CrateItem>, impls: Seq<u32>, inherent_only: bool) -> Seq<u32>
    decreases impls.len(),
{
    if impls.len() == 0 {
        seq![]
    } else {
        impls_items(s, impls.drop_last(), inherent_only) + impl_block_items(
            s,
            impls.last(),
            inherent_only,
        )
    }
}

/// Appends the associated items of the impl blocks `impls`.
fn extend_with_impl_items(c: &CrateModel, out: &mut Vec<u32>, impls: &Vec<u32>, inherent_only: bool)
    requires
        items_sorted(c.items@),
    ensures
        final(out)@ == old(out)@ + impls_items(c.items@, impls@, inherent_only),
{
    let ghost o = old(out)@;
    let mut i: usize = 0;
    while i < impls.len()
        invariant
            i <= impls@.len(),
            items_sorted(c.items@),
            out@ == o + impls_items(c.items@, impls@.take(i as int), inherent_only),
        decreases impls.len() - i,
    {
        assert(impls@.take(i + 1).drop_last() =~= impls@.take(i as int));
        assert(impls@.take(i + 1).last() == impls@[i as int]);
        if let Some(p) = c.find(impls[i]) {
            match &c.items[p].inner {
                ItemInner::Impl(b) => {
                    if !inherent_only || b.trait_path.is_none() {
                        let mut k: usize = 0;
                        let ghost before = out@;
                        while k < b.items.len()
                            invariant
                                k <= b.items@.len(),
                                out@ == before + b.items@.take(k as int),
                            decreases b.items.len() - k,
                        {
                            out.push(b.items[k]);
                            k = k + 1;
                            assert(out@ =~= before + b.items@.take(k as int));
                        }
                        assert(b.items@.take(b.items@.len() as int) =~= b.items@);
                    }
                },
                _ => {},
            }
        }
        i = i + 1;
        assert(out@ =~= o + impls_items(c.items@, impls@.take(i as int), inherent_only));
    }
    assert(impls@.take(impls@.len() as int) =~= impls@);
}

/// The ids an item directly contains, as the parent map sees them: module
/// members, fields and variants with the items of all impl blocks, trait
/// items, and impl block items.
pub open spec fn contained_ids(s: Seq<CrateItem>, it: CrateItem) -> Seq<u32> {
    match it.inner {
        ItemInner::Module(m) => m@,
        ItemInner::Struct { fields, impls } => spec_field_ids(fields) + impls_items(s, impls@, false),
        ItemInner::Enum { variants, impls } => variants@ + impls_items(s, impls@, false),
        ItemInner::Union { impls } => impls_items(s, impls@, false),
        ItemInner::Trait { items } => items@,
        ItemInner::Impl(b) => b.items@,
        _ => seq![],
    }
}

/// The ids an item directly contains.
fn collect_child_ids_for_parent(c: &CrateModel, it: &CrateItem) -> (r: Vec<u32>)
    requires
        items_sorted(c.items@),
    ensures
        r@ == contained_ids(c.items@, *it),
{
    match &it.inner {
        ItemInner::Module(m) => m.clone(),
        ItemInner::Struct { fields, impls } => {
            let mut ids = struct_field_ids(fields);
            extend_with_impl_items(c, &mut ids, impls, false);
            ids
        },
        ItemInner::Enum { variants, impls } => {
            let mut ids = variants.clone();
            extend_with_impl_items(c, &mut ids, impls, false);
            ids
        },
        ItemInner::Union { impls } => {
            let mut ids: Vec<u32> = Vec::new();
            extend_with_impl_items(c, &mut ids, impls, false);
            assert(ids@ =~= impls_items(c.items@, impls@, false));
            ids
        },
        ItemInner::Trait { items } => items.clone(),
        ItemInner::Impl(b) => b.items.clone(),
        _ => Vec::new(),
    }
}

// ---------------------------------------------------------------------------
// Pass 1: the parent of every contained id
// ---------------------------------------------------------------------------

/// `m` with every key of `keys` mapped to `v`, in order.
pub open spec fn insert_all<V>(m: Map<u32, V>, keys: Seq<u32>, v: V) -> Map<u32, V>
    decreases keys.len(),
{
    if keys.len() == 0 {
        m
    } else {
        insert_all(m, keys.drop_last(), v).insert(keys.last(), v)
    }
}

/// The parent map after the first `k` items: each id contained in an item
/// maps to that item's id, later items overriding earlier ones.
pub open spec fn parent_map(s: Seq<CrateItem>, k: int) -> Map<u32, u32>
    decreases k,
{
    if k <= 0 {
        Map::empty()
    } else {
        insert_all(parent_map(s, k - 1), contained_ids(s, s[k - 1]), s[k - 1].id)
    }
}

/// Pass 1: the parent of every contained id.
fn build_parent_map(c: &CrateModel) -> (r: HashMapWithView<u32, u32>)
    requires
        items_sorted(c.items@),
    ensures
        r@ == parent_map(c.items@, c.items@.len() as int),
{
    let mut m: HashMapWithView<u32, u32> = HashMapWithView::new();
    let mut i: usize = 0;
    while i < c.items.len()
        invariant
            i <= c.items@.len(),
            items_sorted(c.items@),
            m@ == parent_map(c.items@, i as int),
        decreases c.items.len() - i,
    {
        let it = &c.items[i];
        let ids = collect_child_ids_for_parent(c, it);
        let ghost m0 = m@;
        let mut k: usize = 0;
        while k < ids.len()
            invariant
                k <= ids@.len(),
                m@ == insert_all(m0, ids@.take(k as int), it.id),
            decreases ids.len() - k,
        {
            assert(ids@.take(k + 1).drop_last() =~= ids@.take(k as int));
            m.insert(ids[k], it.id);
            k = k + 1;
        }
        assert(ids@.take(ids@.len() as int) =~= ids@);
        i = i + 1;
    }
    m
}


// ---------------------------------------------------------------------------
// Sorting ids
// ---------------------------------------------------------------------------

/// Ids in ascending order.
pub open spec fn ids_sorted(s: Seq<u32>) -> bool {
    forall|i: int, j: int| 0 <= i < j < s.len() ==> s[i] <= s[j]
}

/// The ids of `s` in ascending order.
pub open spec fn sorted_ids(s: Seq<u32>) -> Seq<u32> {
    choose|r: Seq<u32>| ids_sorted(r) && r.to_multiset() == s.to_multiset()
}

/// Two ascending sequences holding the same ids, each as often, are equal.
pub proof fn lemma_sorted_ids_unique(a: Seq<u32>, b: Seq<u32>)
    requires
        ids_sorted(a),
        ids_sorted(b),
        a.to_multiset() == b.to_multiset(),
    ensures
        a == b,
    decreases a.len(),
{
    broadcast use vstd::seq_lib::group_to_multiset_ensures;
    broadcast use vstd::multiset::group_multiset_axioms;
    assert(a.to_multiset().len() == a.len());
    assert(b.to_multiset().len() == b.len());
    if a.len() == 0 {
        assert(a =~= b);
    } else {
        assert(a.to_multiset().count(a[0]) > 0);
        assert(b.contains(a[0]));
        let k = choose|k: int| 0 <= k < b.len() && b[k] == a[0];
        assert(b[0] <= b[k]);
        assert(b.to_multiset().count(b[0]) > 0);
        assert(a.contains(b[0]));
        let m = choose|m: int| 0 <= m < a.len() && a[m] == b[0];
        assert(a[0] <= a[m]);
        assert(a[0] == b[0]);
        let a1 = a.drop_first();
        let b1 = b.drop_first();
        assert(a.remove(0) =~= a1);
        assert(b.remove(0) =~= b1);
        assert(a1.to_multiset() == a.to_multiset().remove(a[0]));
        assert(b1.to_multiset() == b.to_multiset().remove(b[0]));
        assert forall|i: int, j: int| 0 <= i < j < a1.len() implies a1[i] <= a1[j] by {
            assert(a1[j] == a[j + 1] && a1[i] == a[i + 1]);
        }
        assert forall|i: int, j: int| 0 <= i < j < b1.len() implies b1[i] <= b1[j] by {
            assert(b1[j] == b[j + 1] && b1[i] == b[i + 1]);
        }
        lemma_sorted_ids_unique(a1, b1);
        assert forall|i: int| 0 <= i < a.len() implies a[i] == b[i] by {
            if i > 0 {
                assert(a[i] == a1[i - 1] && b[i] == b1[i - 1]);
            }
        }
        assert(a =~= b);
    }
}

/// Sorts ids in place with `slice::sort_unstable`, which orders the slice
/// ascending and keeps its elements.
#[verifier::external_body]
fn sort_ids_in_place(v: &mut Vec<u32>)
    ensures
        ids_sorted(final(v)@),
        final(v)@.to_multiset() == old(v)@.to_multiset(),
{
    v.sort_unstable();
}

/// The ids of `v` in ascending order.
pub fn sorted_copy(v: &Vec<u32>) -> (r: Vec<u32>)
    ensures
        r@ == sorted_ids(v@),
{
    let mut r = v.clone();
    assert(r@ =~= v@);
    sort_ids_in_place(&mut r);
    proof {
        let w = sorted_ids(v@);
        assert(ids_sorted(r@) && r@.to_multiset() == v@.to_multiset());
        lemma_sorted_ids_unique(r@, w);
    }
    r
}

// ---------------------------------------------------------------------------
// Pass 2: a path for every id
// ---------------------------------------------------------------------------

/// A map of paths, as character sequences.
pub open spec fn pview(m: Map<u32, String>) -> Map<u32, Seq<char>> {
    Map::new(|k: u32| m.dom().contains(k), |k: u32| m[k]@)
}

proof fn lemma_pview_insert(m: Map<u32, String>, k: u32, v: String)
    ensures
        pview(m.insert(k, v)) == pview(m).insert(k, v@),
{
    assert(pview(m.insert(k, v)) =~= pview(m).insert(k, v@));
}

/// Path pairs, as character sequences.
pub open spec fn pairs_view(v: Seq<(u32, String)>) -> Seq<(u32, Seq<char>)> {
    v.map_values(|p: (u32, String)| (p.0, p.1@))
}

/// `parent::name`.
pub open spec fn child_path(parent: Seq<char>, name: Seq<char>) -> Seq<char> {
    parent + path_sep() + name
}

fn child_path_string(parent: &str, name: &str) -> (r: String)
    ensures
        r@ == child_path(parent@, name@),
{
    let mut v = chars_of(parent);
    let sep = path_sep_exec();
    append(&mut v, sep.as_slice());
    append_str(&mut v, name);
    string_of(v.as_slice())
}

/// The paths from rustdoc's summaries, the first `k` of them: segments joined with `::`.
pub open spec fn seed_paths(p: Seq<PathEntry>, k: int) -> Map<u32, Seq<char>>
    decreases k,
{
    if k <= 0 {
        Map::empty()
    } else {
        seed_paths(p, k - 1).insert(
            p[k - 1].id,
            join(p[k - 1].path@.map_values(|x: String| x@), path_sep()),
        )
    }
}

/// `m` updated with each pair in order.
pub open spec fn apply_overrides(m: Map<u32, Seq<char>>, o: Seq<(u32, Seq<char>)>) -> Map<u32, Seq<char>>
    decreases o.len(),
{
    if o.len() == 0 {
        m
    } else {
        apply_overrides(m, o.drop_last()).insert(o.last().0, o.last().1)
    }
}

/// `m` updated with each pair in order, where its id has no path yet.
pub open spec fn apply_missing(m: Map<u32, Seq<char>>, o: Seq<(u32, Seq<char>)>) -> Map<u32, Seq<char>>
    decreases o.len(),
{
    if o.len() == 0 {
        m
    } else {
        let m1 = apply_missing(m, o.drop_last());
        if m1.contains_key(o.last().0) {
            m1
        } else {
            m1.insert(o.last().0, o.last().1)
        }
    }
}

/// Paths under `parent` for the named items among `ids` that `placed` has no path for.
pub open spec fn members_at(
    s: Seq<CrateItem>,
    placed: Map<u32, Seq<char>>,
    parent: Seq<char>,
    ids: Seq<u32>,
) -> Seq<(u32, Seq<char>)>
    decreases ids.len(),
{
    if ids.len() == 0 {
        seq![]
    } else {
        let x = ids.last();
        members_at(s, placed, parent, ids.drop_last()) + if placed.contains_key(x) {
            seq![]
        } else {
            match item_of(s, x) {
                Some(it) => match it.name {
                    Some(nm) => seq![(x, child_path(parent, nm@))],
                    None => seq![],
                },
                None => seq![],
            }
        }
    }
}

/// What a module member contributes when it is a glob `use` of a module:
/// the named members of that module, by id, placed under `parent`.
pub open spec fn glob_overrides(s: Seq<CrateItem>, parent: Seq<char>, child: u32) -> Seq<(u32, Seq<char>)> {
    match item_of(s, child) {
        Some(ci) => match ci.inner {
            ItemInner::Use(u) => if u.is_glob {
                match u.target {
                    Some(t) => match item_of(s, t) {
                        Some(ti) => match ti.inner {
                            ItemInner::Module(tm) => members_at(s, Map::empty(), parent, sorted_ids(tm@)),
                            _ => seq![],
                        },
                        None => seq![],
                    },
                    None => seq![],
                }
            } else {
                seq![]
            },
            _ => seq![],
        },
        None => seq![],
    }
}

/// The glob overrides of module members `ids`, in order.
pub open spec fn members_overrides(s: Seq<CrateItem>, parent: Seq<char>, ids: Seq<u32>) -> Seq<(u32, Seq<char>)>
    decreases ids.len(),
{
    if ids.len() == 0 {
        seq![]
    } else {
        members_overrides(s, parent, ids.drop_last()) + glob_overrides(s, parent, ids.last())
    }
}

/// The glob overrides of a module that has a path: its members by id.
pub open spec fn module_overrides(s: Seq<CrateItem>, m: Map<u32, Seq<char>>, it: CrateItem) -> Seq<(u32, Seq<char>)> {
    match it.inner {
        ItemInner::Module(ch) => if m.contains_key(it.id) {
            members_overrides(s, m[it.id], sorted_ids(ch@))
        } else {
            seq![]
        },
        _ => seq![],
    }
}

/// The glob overrides of the first `k` items.
pub open spec fn hoist_overrides(s: Seq<CrateItem>, m: Map<u32, Seq<char>>, k: int) -> Seq<(u32, Seq<char>)>
    decreases k,
{
    if k <= 0 {
        seq![]
    } else {
        hoist_overrides(s, m, k - 1) + module_overrides(s, m, s[k - 1])
    }
}

/// The path of the type an impl block is for: its known path, else the
/// path text rustdoc gives; `None` when the type is not a resolved path.
pub open spec fn impl_for_path(m: Map<u32, Seq<char>>, b: ImplBlock) -> Option<Seq<char>> {
    match b.for_path {
        Some(fp) => Some(
            if m.contains_key(fp.0) {
                m[fp.0]
            } else {
                fp.1@
            },
        ),
        None => None,
    }
}

/// Paths for the unplaced items of an impl block, under its type's path.
pub open spec fn impl_item_paths(s: Seq<CrateItem>, m: Map<u32, Seq<char>>, it: CrateItem) -> Seq<(u32, Seq<char>)> {
    match it.inner {
        ItemInner::Impl(b) => match impl_for_path(m, b) {
            Some(pp) => members_at(s, m, pp, b.items@),
            None => seq![],
        },
        _ => seq![],
    }
}

/// Impl item paths of the first `k` items.
pub open spec fn impl_paths(s: Seq<CrateItem>, m: Map<u32, Seq<char>>, k: int) -> Seq<(u32, Seq<char>)>
    decreases k,
{
    if k <= 0 {
        seq![]
    } else {
        impl_paths(s, m, k - 1) + impl_item_paths(s, m, s[k - 1])
    }
}

/// Paths for the unplaced items of a trait that has a path, under it.
pub open spec fn trait_item_paths(s: Seq<CrateItem>, m: Map<u32, Seq<char>>, it: CrateItem) -> Seq<(u32, Seq<char>)> {
    match it.inner {
        ItemInner::Trait { items } => if m.contains_key(it.id) {
            members_at(s, m, m[it.id], items@)
        } else {
            seq![]
        },
        _ => seq![],
    }
}

/// Trait item paths of the first `k` items.
pub open spec fn trait_paths(s: Seq<CrateItem>, m: Map<u32, Seq<char>>, k: int) -> Seq<(u32, Seq<char>)>
    decreases k,
{
    if k <= 0 {
        seq![]
    } else {
        trait_paths(s, m, k - 1) + trait_item_paths(s, m, s[k - 1])
    }
}

/// The path rebuilt by walking up from `cur` with the segments `segs`
/// collected so far, at most `fuel` more steps: it stops at a parent that
/// has a path (and prefixes it), or where the chain ends, or at a nameless
/// parent, or when the steps run out.
pub open spec fn walk_up(
    s: Seq<CrateItem>,
    parents: Map<u32, u32>,
    m: Map<u32, Seq<char>>,
    cur: u32,
    segs: Seq<Seq<char>>,
    fuel: nat,
) -> Seq<char>
    decreases fuel,
{
    if fuel == 0 || !parents.contains_key(cur) {
        join(segs, path_sep())
    } else {
        let p = parents[cur];
        match item_of(s, p) {
            None => join(segs, path_sep()),
            Some(pi) => if m.contains_key(p) {
                m[p] + path_sep() + join(segs, path_sep())
            } else {
                match pi.name {
                    None => join(segs, path_sep()),
                    Some(pn) => walk_up(s, parents, m, p, seq![pn@] + segs, (fuel - 1) as nat),
                }
            },
        }
    }
}

/// Levels the parent walk climbs at most.
pub const MAX_PATH_DEPTH: u32 = 20;

/// The path rebuilt for a named item through its parents.
pub open spec fn rebuilt_path(s: Seq<CrateItem>, parents: Map<u32, u32>, m: Map<u32, Seq<char>>, it: CrateItem) -> Option<Seq<char>> {
    match it.name {
        Some(n) => Some(walk_up(s, parents, m, it.id, seq![n@], MAX_PATH_DEPTH as nat)),
        None => None,
    }
}

/// Rebuilt paths for the first `k` items that have none.
pub open spec fn fallback_paths(s: Seq<CrateItem>, parents: Map<u32, u32>, m: Map<u32, Seq<char>>, k: int) -> Seq<(u32, Seq<char>)>
    decreases k,
{
    if k <= 0 {
        seq![]
    } else {
        fallback_paths(s, parents, m, k - 1) + if m.contains_key(s[k - 1].id) {
            seq![]
        } else {
            match rebuilt_path(s, parents, m, s[k - 1]) {
                Some(p) => seq![(s[k - 1].id, p)],
                None => seq![],
            }
        }
    }
}

/// Every id's path: the summaries, then glob hoisting, then impl items,
/// then trait items, then the parent chain for what is left.
pub open spec fn all_paths(c: CrateModel) -> Map<u32, Seq<char>> {
    let s = c.items@;
    let n = s.len() as int;
    let m1 = seed_paths(c.paths@, c.paths@.len() as int);
    let m2 = apply_overrides(m1, hoist_overrides(s, m1, n));
    let m3 = apply_missing(m2, impl_paths(s, m2, n));
    let m4 = apply_missing(m3, trait_paths(s, m3, n));
    apply_missing(m4, fallback_paths(s, parent_map(s, n), m4, n))
}


/// The segments of a path joined with `::`.
fn join_segments(path: &Vec<String>) -> (r: String)
    ensures
        r@ == join(path@.map_values(|x: String| x@), path_sep()),
{
    let mut parts: Vec<Vec<char>> = Vec::new();
    let mut i: usize = 0;
    while i < path.len()
        invariant
            i <= path@.len(),
            parts@.len() == i,
            forall|j: int| 0 <= j < i ==> #[trigger] parts@[j]@ == path@[j]@,
        decreases path.len() - i,
    {
        let cs = chars_of(path[i].as_str());
        parts.push(cs);
        i = i + 1;
    }
    assert(parts@.map_values(|v: Vec<char>| v@) =~= path@.map_values(|x: String| x@));
    let sep = path_sep_exec();
    let joined = join_exec(parts.as_slice(), sep.as_slice());
    string_of(joined.as_slice())
}

/// Paths from rustdoc's summaries.
fn seed_path_map(c: &CrateModel) -> (r: HashMapWithView<u32, String>)
    ensures
        pview(r@) == seed_paths(c.paths@, c.paths@.len() as int),
{
    let mut m: HashMapWithView<u32, String> = HashMapWithView::new();
    assert(pview(m@) =~= Map::<u32, Seq<char>>::empty());
    let mut i: usize = 0;
    while i < c.paths.len()
        invariant
            i <= c.paths@.len(),
            pview(m@) == seed_paths(c.paths@, i as int),
        decreases c.paths.len() - i,
    {
        let joined = join_segments(&c.paths[i].path);
        proof {
            lemma_pview_insert(m@, c.paths@[i as int].id, joined);
        }
        m.insert(c.paths[i].id, joined);
        i = i + 1;
    }
    m
}

/// Appends the paths under `parent` of the named items among `ids` that
/// `placed` has no path for.
fn push_members_at(
    c: &CrateModel,
    placed: &HashMapWithView<u32, String>,
    parent: &String,
    ids: &Vec<u32>,
    out: &mut Vec<(u32, String)>,
)
    requires
        items_sorted(c.items@),
    ensures
        pairs_view(final(out)@) == pairs_view(old(out)@) + members_at(c.items@, pview(placed@), parent@, ids@),
{
    let ghost o = pairs_view(old(out)@);
    let ghost pm = pview(placed@);
    let mut i: usize = 0;
    while i < ids.len()
        invariant
            i <= ids@.len(),
            items_sorted(c.items@),
            pm == pview(placed@),
            pairs_view(out@) == o + members_at(c.items@, pm, parent@, ids@.take(i as int)),
        decreases ids.len() - i,
    {
        let x = ids[i];
        assert(ids@.take(i + 1).drop_last() =~= ids@.take(i as int));
        assert(ids@.take(i + 1).last() == x);
        let ghost before = out@;
        if !placed.contains_key(&x) {
            if let Some(p) = c.find(x) {
                if let Some(nm) = &c.items[p].name {
                    let path = child_path_string(parent.as_str(), nm.as_str());
                    out.push((x, path));
                    assert(pairs_view(out@) =~= pairs_view(before).push((x, path@)));
                }
            }
        }
        i = i + 1;
        assert(pairs_view(out@) =~= o + members_at(c.items@, pm, parent@, ids@.take(i as int)));
    }
    assert(ids@.take(ids@.len() as int) =~= ids@);
}

/// Appends the glob overrides of one module member.
fn push_glob_overrides(c: &CrateModel, parent: &String, child: u32, out: &mut Vec<(u32, String)>)
    requires
        items_sorted(c.items@),
    ensures
        pairs_view(final(out)@) == pairs_view(old(out)@) + glob_overrides(c.items@, parent@, child),
{
    let ghost o = pairs_view(old(out)@);
    assert(o + seq![] =~= o);
    if let Some(p) = c.find(child) {
        if let ItemInner::Use(u) = &c.items[p].inner {
            if u.is_glob {
                if let Some(t) = u.target {
                    if let Some(q) = c.find(t) {
                        if let ItemInner::Module(tm) = &c.items[q].inner {
                            let sorted = sorted_copy(tm);
                            let none: HashMapWithView<u32, String> = HashMapWithView::new();
                            assert(pview(none@) =~= Map::<u32, Seq<char>>::empty());
                            push_members_at(c, &none, parent, &sorted, out);
                        }
                    }
                }
            }
        }
    }
}

/// Pass 2.2: members of modules re-exported by glob get the re-exporting
/// module's path; collected first, then applied in order.
fn hoist_glob_reexport_paths(c: &CrateModel, m: &mut HashMapWithView<u32, String>)
    requires
        items_sorted(c.items@),
    ensures
        pview(final(m)@) == apply_overrides(
            pview(old(m)@),
            hoist_overrides(c.items@, pview(old(m)@), c.items@.len() as int),
        ),
{
    let ghost m0 = pview(m@);
    let mut out: Vec<(u32, String)> = Vec::new();
    let mut i: usize = 0;
    assert(pairs_view(out@) =~= Seq::<(u32, Seq<char>)>::empty());
    while i < c.items.len()
        invariant
            i <= c.items@.len(),
            items_sorted(c.items@),
            m0 == pview(m@),
            pairs_view(out@) == hoist_overrides(c.items@, m0, i as int),
        decreases c.items.len() - i,
    {
        let ghost before = pairs_view(out@);
        if let ItemInner::Module(ch) = &c.items[i].inner {
            if let Some(pp) = m.get(&c.items[i].id) {
                let sorted = sorted_copy(ch);
                let mut k: usize = 0;
                while k < sorted.len()
                    invariant
                        k <= sorted@.len(),
                        items_sorted(c.items@),
                        pairs_view(out@) == before + members_overrides(c.items@, pp@, sorted@.take(k as int)),
                    decreases sorted.len() - k,
                {
                    assert(sorted@.take(k + 1).drop_last() =~= sorted@.take(k as int));
                    push_glob_overrides(c, pp, sorted[k], &mut out);
                    k = k + 1;
                    assert(pairs_view(out@) =~= before + members_overrides(c.items@, pp@, sorted@.take(k as int)));
                }
                assert(sorted@.take(sorted@.len() as int) =~= sorted@);
            } else {
                assert(pairs_view(out@) =~= before + seq![]);
            }
        } else {
            assert(pairs_view(out@) =~= before + seq![]);
        }
        i = i + 1;
    }
    apply_pairs(m, &out, false);
}

/// Applies path pairs in order: every pair, or (with `only_missing`) those
/// whose id has no path yet.
fn apply_pairs(m: &mut HashMapWithView<u32, String>, pairs: &Vec<(u32, String)>, only_missing: bool)
    ensures
        pview(final(m)@) == if only_missing {
            apply_missing(pview(old(m)@), pairs_view(pairs@))
        } else {
            apply_overrides(pview(old(m)@), pairs_view(pairs@))
        },
{
    let ghost m0 = pview(m@);
    let mut i: usize = 0;
    while i < pairs.len()
        invariant
            i <= pairs@.len(),
            pview(m@) == if only_missing {
                apply_missing(m0, pairs_view(pairs@.take(i as int)))
            } else {
                apply_overrides(m0, pairs_view(pairs@.take(i as int)))
            },
        decreases pairs.len() - i,
    {
        let ghost pv = pairs_view(pairs@.take(i + 1));
        assert(pv.drop_last() =~= pairs_view(pairs@.take(i as int)));
        assert(pv.last() == (pairs@[i as int].0, pairs@[i as int].1@));
        let id = pairs[i].0;
        if !only_missing || !m.contains_key(&id) {
            let v = pairs[i].1.clone();
            proof {
                lemma_pview_insert(m@, id, v);
            }
            m.insert(id, v);
        }
        i = i + 1;
    }
    assert(pairs@.take(pairs@.len() as int) =~= pairs@);
}


/// Pass 2.3: items of impl blocks get paths under the implementing type.
fn compute_impl_paths(c: &CrateModel, m: &mut HashMapWithView<u32, String>)
    requires
        items_sorted(c.items@),
    ensures
        pview(final(m)@) == apply_missing(
            pview(old(m)@),
            impl_paths(c.items@, pview(old(m)@), c.items@.len() as int),
        ),
{
    let ghost m0 = pview(m@);
    let mut out: Vec<(u32, String)> = Vec::new();
    assert(pairs_view(out@) =~= Seq::<(u32, Seq<char>)>::empty());
    let mut i: usize = 0;
    while i < c.items.len()
        invariant
            i <= c.items@.len(),
            items_sorted(c.items@),
            m0 == pview(m@),
            pairs_view(out@) == impl_paths(c.items@, m0, i as int),
        decreases c.items.len() - i,
    {
        let ghost before = pairs_view(out@);
        if let ItemInner::Impl(b) = &c.items[i].inner {
            let parent: Option<String> = match &b.for_path {
                Some(fp) => match m.get(&fp.0) {
                    Some(known) => Some(known.clone()),
                    None => Some(fp.1.clone()),
                },
                None => None,
            };
            assert(parent matches Some(pp) ==> impl_for_path(m0, *b) == Some(pp@));
            assert(parent is None ==> impl_for_path(m0, *b) is None);
            if let Some(pp) = parent {
                push_members_at(c, m, &pp, &b.items, &mut out);
            } else {
                assert(pairs_view(out@) =~= before + seq![]);
            }
        } else {
            assert(pairs_view(out@) =~= before + seq![]);
        }
        i = i + 1;
    }
    apply_pairs(m, &out, true);
}

/// Pass 2.4: items of traits that have a path get paths under the trait.
fn compute_trait_item_paths(c: &CrateModel, m: &mut HashMapWithView<u32, String>)
    requires
        items_sorted(c.items@),
    ensures
        pview(final(m)@) == apply_missing(
            pview(old(m)@),
            trait_paths(c.items@, pview(old(m)@), c.items@.len() as int),
        ),
{
    let ghost m0 = pview(m@);
    let mut out: Vec<(u32, String)> = Vec::new();
    assert(pairs_view(out@) =~= Seq::<(u32, Seq<char>)>::empty());
    let mut i: usize = 0;
    while i < c.items.len()
        invariant
            i <= c.items@.len(),
            items_sorted(c.items@),
            m0 == pview(m@),
            pairs_view(out@) == trait_paths(c.items@, m0, i as int),
        decreases c.items.len() - i,
    {
        let ghost before = pairs_view(out@);
        if let ItemInner::Trait { items } = &c.items[i].inner {
            if let Some(tp) = m.get(&c.items[i].id) {
                let tp = tp.clone();
                push_members_at(c, m, &tp, items, &mut out);
            } else {
                assert(pairs_view(out@) =~= before + seq![]);
            }
        } else {
            assert(pairs_view(out@) =~= before + seq![]);
        }
        i = i + 1;
    }
    apply_pairs(m, &out, true);
}

/// The path of an item rebuilt through its parents.
fn reconstruct_path(
    c: &CrateModel,
    parents: &HashMapWithView<u32, u32>,
    m: &HashMapWithView<u32, String>,
    it: &CrateItem,
) -> (r: Option<String>)
    requires
        items_sorted(c.items@),
    ensures
        match r {
            Some(p) => rebuilt_path(c.items@, parents@, pview(m@), *it) == Some(p@),
            None => rebuilt_path(c.items@, parents@, pview(m@), *it) is None,
        },
{
    let name = match &it.name {
        Some(n) => n,
        None => return None,
    };
    let ghost pm = pview(m@);
    let mut segs: Vec<Vec<char>> = Vec::new();
    segs.push(chars_of(name.as_str()));
    let mut cur: u32 = it.id;
    let mut fuel: u32 = MAX_PATH_DEPTH;
    let sep = path_sep_exec();
    let ghost goal = walk_up(c.items@, parents@, pm, it.id, seq![name@], MAX_PATH_DEPTH as nat);
    assert(segs@.map_values(|v: Vec<char>| v@) =~= seq![name@]);
    loop
        invariant
            items_sorted(c.items@),
            pm == pview(m@),
            sep@ == path_sep(),
            goal == walk_up(c.items@, parents@, pm, cur, segs@.map_values(|v: Vec<char>| v@), fuel as nat),
            rebuilt_path(c.items@, parents@, pm, *it) == Some(goal),
        decreases fuel,
    {
        let ghost sv = segs@.map_values(|v: Vec<char>| v@);
        if fuel == 0 {
            let j = join_exec(segs.as_slice(), sep.as_slice());
            assert(j@ == join(sv, path_sep()));
            assert(goal == join(sv, path_sep()));
            return Some(string_of(j.as_slice()));
        }
        let p = match parents.get(&cur) {
            Some(p) => *p,
            None => {
                let j = join_exec(segs.as_slice(), sep.as_slice());
                assert(j@ == join(sv, path_sep()));
                assert(goal == join(sv, path_sep()));
                return Some(string_of(j.as_slice()));
            },
        };
        assert(parents@.contains_key(cur) && parents@[cur] == p);
        let q = match c.find(p) {
            Some(q) => q,
            None => {
                let j = join_exec(segs.as_slice(), sep.as_slice());
                assert(j@ == join(sv, path_sep()));
                assert(goal == join(sv, path_sep()));
                return Some(string_of(j.as_slice()));
            },
        };
        assert(item_of(c.items@, p) == Some(c.items@[q as int]));
        if let Some(pp) = m.get(&p) {
            let j = join_exec(segs.as_slice(), sep.as_slice());
            let mut v = chars_of(pp.as_str());
            append(&mut v, sep.as_slice());
            append(&mut v, j.as_slice());
            assert(pm.contains_key(p) && pm[p] == pp@);
            assert(goal == pm[p] + path_sep() + join(sv, path_sep()));
            return Some(string_of(v.as_slice()));
        }
        assert(!pm.contains_key(p));
        match &c.items[q].name {
            None => {
                let j = join_exec(segs.as_slice(), sep.as_slice());
                assert(j@ == join(sv, path_sep()));
                assert(goal == join(sv, path_sep()));
                return Some(string_of(j.as_slice()));
            },
            Some(pn) => {
                segs.insert(0, chars_of(pn.as_str()));
                assert(segs@.map_values(|v: Vec<char>| v@) =~= seq![pn@] + sv);
                cur = p;
                fuel = fuel - 1;
            },
        }
    }
}

/// Pass 2.5: named items still without a path get one through their parents.
fn fill_missing_paths(c: &CrateModel, parents: &HashMapWithView<u32, u32>, m: &mut HashMapWithView<u32, String>)
    requires
        items_sorted(c.items@),
    ensures
        pview(final(m)@) == apply_missing(
            pview(old(m)@),
            fallback_paths(c.items@, parents@, pview(old(m)@), c.items@.len() as int),
        ),
{
    let ghost m0 = pview(m@);
    let mut out: Vec<(u32, String)> = Vec::new();
    assert(pairs_view(out@) =~= Seq::<(u32, Seq<char>)>::empty());
    let mut i: usize = 0;
    while i < c.items.len()
        invariant
            i <= c.items@.len(),
            items_sorted(c.items@),
            m0 == pview(m@),
            pairs_view(out@) == fallback_paths(c.items@, parents@, m0, i as int),
        decreases c.items.len() - i,
    {
        let ghost before = pairs_view(out@);
        let it = &c.items[i];
        if !m.contains_key(&it.id) {
            match reconstruct_path(c, parents, m, it) {
                Some(p) => {
                    out.push((it.id, p));
                    assert(pairs_view(out@) =~= before + seq![(it.id, p@)]);
                },
                None => {
                    assert(pairs_view(out@) =~= before + seq![]);
                },
            }
        } else {
            assert(pairs_view(out@) =~= before + seq![]);
        }
        i = i + 1;
    }
    apply_pairs(m, &out, true);
}

/// Pass 2: every id's path.
fn compute_paths(c: &CrateModel, parents: &HashMapWithView<u32, u32>) -> (r: HashMapWithView<u32, String>)
    requires
        items_sorted(c.items@),
        parents@ == parent_map(c.items@, c.items@.len() as int),
    ensures
        pview(r@) == all_paths(*c),
{
    let mut m = seed_path_map(c);
    hoist_glob_reexport_paths(c, &mut m);
    compute_impl_paths(c, &mut m);
    compute_trait_item_paths(c, &mut m);
    fill_missing_paths(c, parents, &mut m);
    m
}


// ---------------------------------------------------------------------------
// Pass 3: converting items
// ---------------------------------------------------------------------------

/// The fields of an indexed item other than its children, as plain values.
pub struct ItemFacts {
    pub path: Seq<char>,
    pub name: Seq<char>,
    pub kind: ItemKind,
    pub signature: Seq<char>,
    pub docs: Seq<char>,
    /// The first sentence of the docs; `None` where that has no result
    /// (a 100-byte cut inside a character).
    pub summary: Option<Seq<char>>,
    pub span: SourceSpan,
    pub is_public: bool,
    pub has_body: bool,
    pub feature_gate: Option<Seq<char>>,
    pub reexport_source: Option<Seq<char>>,
}

/// The facts of an indexed item.
pub open spec fn facts_of(ii: IndexItem) -> ItemFacts {
    ItemFacts {
        path: ii.path@,
        name: ii.name@,
        kind: ii.kind,
        signature: ii.signature@,
        docs: ii.docs@,
        summary: Some(ii.summary@),
        span: ii.span,
        is_public: ii.is_public,
        has_body: ii.has_body,
        feature_gate: opt_string(ii.feature_gate),
        reexport_source: opt_string(ii.reexport_source),
    }
}

/// Doc text, empty when absent.
pub open spec fn docs_text(d: Option<String>) -> Seq<char> {
    match d {
        Some(x) => x@,
        None => seq![],
    }
}

/// A name, empty when absent.
pub open spec fn name_text(n: Option<String>) -> Seq<char> {
    match n {
        Some(x) => x@,
        None => seq![],
    }
}

/// Whether a function has a body; false for other items.
pub open spec fn spec_has_body(inner: ItemInner) -> bool {
    match inner {
        ItemInner::Function { has_body } => has_body,
        _ => false,
    }
}

/// An item's rendered signature, or the fallback from its visibility, the
/// given kind and name.
pub open spec fn signature_or_fallback(it: CrateItem, kind: ItemKind, name: Seq<char>) -> Seq<char> {
    let is_pub = it.visibility == ItemVisibility::Public;
    match spec_render_signature(is_pub, name_text(it.name), it.sig) {
        Some(x) => x,
        None => spec_fallback_signature(is_pub, kind, name),
    }
}

/// What an ordinary item (not a `use`) becomes: `None` without a path, a
/// name or an index kind.
pub open spec fn regular_facts(paths: Map<u32, Seq<char>>, it: CrateItem) -> Option<ItemFacts> {
    if !paths.contains_key(it.id) || it.name is None || spec_item_kind(it.inner) is None {
        None
    } else {
        let name = name_text(it.name);
        let kind = spec_item_kind(it.inner)->0;
        let docs = docs_text(it.docs);
        Some(ItemFacts {
            path: paths[it.id],
            name,
            kind,
            signature: signature_or_fallback(it, kind, name),
            docs,
            summary: spec_extract_summary(docs),
            span: it.span,
            is_public: spec_is_visible(it.visibility, it.inner),
            has_body: spec_has_body(it.inner),
            feature_gate: spec_feature_gate(string_views(it.attrs@)),
            reexport_source: None,
        })
    }
}

/// The kind a `use` gets: that of the imported item, else that of its path
/// summary, else struct.
pub open spec fn use_kind(c: CrateModel, u: UseDecl) -> ItemKind {
    match u.target {
        Some(r) => {
            let from_item = match item_of(c.items@, r) {
                Some(ri) => spec_item_kind(ri.inner),
                None => None,
            };
            match from_item {
                Some(k) => k,
                None => match path_summary_of(c.paths@, r) {
                    Some(pe) => match spec_summary_item_kind(pe.kind) {
                        Some(k) => k,
                        None => ItemKind::Struct,
                    },
                    None => ItemKind::Struct,
                },
            }
        },
        None => ItemKind::Struct,
    }
}

/// The stub signature of a re-export from another crate.
pub open spec fn use_stub(source: Seq<char>, name: Seq<char>) -> Seq<char> {
    seq!['p', 'u', 'b', ' ', 'u', 's', 'e', ' '] + source + seq![' ', 'a', 's', ' '] + name
}

/// Whether a `use` repeats the path its target already has.
pub open spec fn use_is_duplicate(paths: Map<u32, Seq<char>>, it: CrateItem, u: UseDecl) -> bool {
    match u.target {
        Some(r) => paths.contains_key(r) && paths.contains_key(it.id) && paths[it.id] == paths[r],
        None => false,
    }
}

/// The path of a `use`: its own, else under its parent module, else under
/// the crate root.
pub open spec fn use_path(c: CrateModel, paths: Map<u32, Seq<char>>, parents: Map<u32, u32>, it: CrateItem, name: Seq<char>) -> Seq<char> {
    if paths.contains_key(it.id) {
        paths[it.id]
    } else if parents.contains_key(it.id) && paths.contains_key(parents[it.id]) {
        child_path(paths[parents[it.id]], name)
    } else {
        child_path(if paths.contains_key(c.root) { paths[c.root] } else { seq![] }, name)
    }
}

/// What a `use` re-exports from: the target's path, else the source text.
pub open spec fn use_source(paths: Map<u32, Seq<char>>, u: UseDecl) -> Seq<char> {
    match u.target {
        Some(r) => if paths.contains_key(r) {
            paths[r]
        } else {
            u.source@
        },
        None => u.source@,
    }
}

/// What a public, named, non-glob `use` becomes: an item at its path with
/// the target's signature (and its docs unless it has its own) when the
/// target is in the crate, else a `pub use` stub; `None` for other `use`s
/// and for one that repeats its target's path.
pub open spec fn use_facts(
    c: CrateModel,
    paths: Map<u32, Seq<char>>,
    parents: Map<u32, u32>,
    it: CrateItem,
    u: UseDecl,
) -> Option<ItemFacts> {
    if u.is_glob || it.visibility != ItemVisibility::Public || u.name@.len() == 0 || use_is_duplicate(paths, it, u) {
        None
    } else {
        let name = u.name@;
        let kind = use_kind(c, u);
        let source = use_source(paths, u);
        let target = match u.target {
            Some(r) => item_of(c.items@, r),
            None => None,
        };
        let signature = match target {
            Some(ri) => signature_or_fallback(ri, kind, name),
            None => use_stub(source, name),
        };
        let docs = match target {
            Some(ri) => if it.docs is Some { docs_text(it.docs) } else { docs_text(ri.docs) },
            None => docs_text(it.docs),
        };
        let has_body = match target {
            Some(ri) => spec_has_body(ri.inner),
            None => false,
        };
        Some(ItemFacts {
            path: use_path(c, paths, parents, it, name),
            name,
            kind,
            signature,
            docs,
            summary: spec_extract_summary(docs),
            span: it.span,
            is_public: true,
            has_body,
            feature_gate: spec_feature_gate(string_views(it.attrs@)),
            reexport_source: Some(source),
        })
    }
}

/// What an item becomes in the index, if anything.
pub open spec fn item_facts(c: CrateModel, paths: Map<u32, Seq<char>>, parents: Map<u32, u32>, it: CrateItem) -> Option<ItemFacts> {
    match it.inner {
        ItemInner::Use(u) => use_facts(c, paths, parents, it, u),
        _ => regular_facts(paths, it),
    }
}

/// The items of trait impls that are blanket or compiler-generated.
pub open spec fn blanket_items_of(it: CrateItem) -> Seq<u32> {
    match it.inner {
        ItemInner::Impl(b) => if b.trait_path is Some && (b.is_blanket || b.is_synthetic) {
            b.items@
        } else {
            seq![]
        },
        _ => seq![],
    }
}

/// The items of blanket and synthetic impls among the first `k` items.
pub open spec fn blanket_set(s: Seq<CrateItem>, k: int) -> Map<u32, bool>
    decreases k,
{
    if k <= 0 {
        Map::empty()
    } else {
        insert_all(blanket_set(s, k - 1), blanket_items_of(s[k - 1]), true)
    }
}

/// The converted items among the first `k`, with their ids, in id order;
/// items of blanket and synthetic impls are left out.
pub open spec fn converted(
    c: CrateModel,
    paths: Map<u32, Seq<char>>,
    parents: Map<u32, u32>,
    blanket: Map<u32, bool>,
    k: int,
) -> Seq<(u32, ItemFacts)>
    decreases k,
{
    if k <= 0 {
        seq![]
    } else {
        let it = c.items@[k - 1];
        converted(c, paths, parents, blanket, k - 1) + if blanket.contains_key(it.id) {
            seq![]
        } else {
            match item_facts(c, paths, parents, it) {
                Some(f) => seq![(it.id, f)],
                None => seq![],
            }
        }
    }
}

/// Positions of the converted items by id.
pub open spec fn position_map(conv: Seq<(u32, ItemFacts)>) -> Map<u32, usize>
    decreases conv.len(),
{
    if conv.len() == 0 {
        Map::empty()
    } else {
        position_map(conv.drop_last()).insert(conv.last().0, (conv.len() - 1) as usize)
    }
}

/// The converted items of a crate.
pub open spec fn crate_conversion(c: CrateModel) -> Seq<(u32, ItemFacts)> {
    let s = c.items@;
    let n = s.len() as int;
    converted(c, all_paths(c), parent_map(s, n), blanket_set(s, n), n)
}

/// Every converted item has a summary.
pub open spec fn summaries_defined(conv: Seq<(u32, ItemFacts)>) -> bool {
    forall|p: int| 0 <= p < conv.len() ==> (#[trigger] conv[p].1).summary is Some
}


/// An item's rendered signature, or its fallback.
fn signature_text(it: &CrateItem, kind: ItemKind, name: &str) -> (r: String)
    ensures
        r@ == signature_or_fallback(*it, kind, name@),
{
    let is_pub = it.visibility == ItemVisibility::Public;
    let own_name = match &it.name {
        Some(n) => n.clone(),
        None => String::new(),
    };
    assert(own_name@ == name_text(it.name));
    match render_signature(is_pub, own_name.as_str(), &it.sig) {
        Some(x) => x,
        None => fallback_signature(is_pub, kind, name),
    }
}

fn copy_span(sp: &SourceSpan) -> (r: SourceSpan)
    ensures
        r == *sp,
{
    SourceSpan { file: sp.file.clone(), line_start: sp.line_start, line_end: sp.line_end }
}

fn docs_string(d: &Option<String>) -> (r: String)
    ensures
        r@ == docs_text(*d),
{
    match d {
        Some(x) => x.clone(),
        None => String::new(),
    }
}

fn has_body_of(inner: &ItemInner) -> (r: bool)
    ensures
        r == spec_has_body(*inner),
{
    match inner {
        ItemInner::Function { has_body } => *has_body,
        _ => false,
    }
}

/// The outcome of converting one item.
pub enum Conversion {
    /// The item is not indexed.
    Skipped,
    /// The indexed item.
    Item(IndexItem),
    /// The item would be indexed, but its summary has no result.
    NoSummary,
}

/// The outcome matches what the item becomes.
pub open spec fn conversion_matches(r: Conversion, f: Option<ItemFacts>) -> bool {
    match r {
        Conversion::Skipped => f is None,
        Conversion::Item(ii) => f == Some(facts_of(ii)) && ii.children@.len() == 0,
        Conversion::NoSummary => f matches Some(x) && x.summary is None,
    }
}

/// Converts an ordinary item.
fn convert_regular_item(m: &HashMapWithView<u32, String>, it: &CrateItem) -> (r: Conversion)
    ensures
        conversion_matches(r, regular_facts(pview(m@), *it)),
{
    let path = match m.get(&it.id) {
        Some(p) => p.clone(),
        None => return Conversion::Skipped,
    };
    let name = match &it.name {
        Some(n) => n.clone(),
        None => return Conversion::Skipped,
    };
    let kind = match convert_item_kind(&it.inner) {
        Some(k) => k,
        None => return Conversion::Skipped,
    };
    let signature = signature_text(it, kind, name.as_str());
    let docs = docs_string(&it.docs);
    let summary = match summary_of(docs.as_str()) {
        Some(x) => x,
        None => return Conversion::NoSummary,
    };
    let ii = IndexItem {
        path,
        name,
        kind,
        signature,
        docs,
        summary,
        span: copy_span(&it.span),
        children: Vec::new(),
        is_public: check_visibility(it),
        has_body: has_body_of(&it.inner),
        feature_gate: extract_feature_gate(&it.attrs),
        reexport_source: None,
    };
    assert(facts_of(ii).feature_gate == spec_feature_gate(string_views(it.attrs@)));
    Conversion::Item(ii)
}

/// The kind a `use` gets.
fn resolve_use_kind(c: &CrateModel, u: &UseDecl) -> (r: ItemKind)
    requires
        c.wf(),
    ensures
        r == use_kind(*c, *u),
{
    if let Some(t) = u.target {
        if let Some(q) = c.find(t) {
            if let Some(k) = convert_item_kind(&c.items[q].inner) {
                return k;
            }
        }
        if let Some(q) = c.find_summary(t) {
            if let Some(k) = convert_item_summary_kind(c.paths[q].kind) {
                return k;
            }
        }
    }
    ItemKind::Struct
}

fn use_stub_string(source: &str, name: &str) -> (r: String)
    ensures
        r@ == use_stub(source@, name@),
{
    let mut v: Vec<char> = vec!['p', 'u', 'b', ' ', 'u', 's', 'e', ' '];
    append_str(&mut v, source);
    v.push(' ');
    v.push('a');
    v.push('s');
    v.push(' ');
    append_str(&mut v, name);
    assert(v@ =~= use_stub(source@, name@));
    string_of(v.as_slice())
}

/// Converts a `use` declaration.
fn convert_use_item(
    c: &CrateModel,
    m: &HashMapWithView<u32, String>,
    parents: &HashMapWithView<u32, u32>,
    it: &CrateItem,
    u: &UseDecl,
) -> (r: Conversion)
    requires
        c.wf(),
        it.inner == ItemInner::Use(*u),
    ensures
        conversion_matches(r, use_facts(*c, pview(m@), parents@, *it, *u)),
{
    let ghost pm = pview(m@);
    if u.is_glob {
        return Conversion::Skipped;
    }
    if it.visibility != ItemVisibility::Public {
        return Conversion::Skipped;
    }
    if chars_of(u.name.as_str()).len() == 0 {
        return Conversion::Skipped;
    }
    if let Some(r) = u.target {
        if let Some(existing) = m.get(&r) {
            if let Some(this) = m.get(&it.id) {
                if *this == *existing {
                    return Conversion::Skipped;
                }
            }
        }
    }
    assert(!use_is_duplicate(pm, *it, *u));
    let name = u.name.clone();
    let path = match m.get(&it.id) {
        Some(p) => p.clone(),
        None => {
            let under_parent = match parents.get(&it.id) {
                Some(pid) => match m.get(pid) {
                    Some(pp) => Some(child_path_string(pp.as_str(), name.as_str())),
                    None => None,
                },
                None => None,
            };
            match under_parent {
                Some(p) => p,
                None => {
                    let root = match m.get(&c.root) {
                        Some(rp) => rp.clone(),
                        None => String::new(),
                    };
                    child_path_string(root.as_str(), name.as_str())
                },
            }
        },
    };
    assert(path@ == use_path(*c, pm, parents@, *it, name@));
    let kind = resolve_use_kind(c, u);
    let source = match u.target {
        Some(r) => match m.get(&r) {
            Some(p) => p.clone(),
            None => u.source.clone(),
        },
        None => u.source.clone(),
    };
    assert(source@ == use_source(pm, *u));
    let target: Option<usize> = match u.target {
        Some(r) => c.find(r),
        None => None,
    };
    let signature;
    let docs;
    let has_body;
    match target {
        Some(q) => {
            let ri = &c.items[q];
            signature = signature_text(ri, kind, name.as_str());
            docs = if it.docs.is_some() { docs_string(&it.docs) } else { docs_string(&ri.docs) };
            has_body = has_body_of(&ri.inner);
        },
        None => {
            signature = use_stub_string(source.as_str(), name.as_str());
            docs = docs_string(&it.docs);
            has_body = false;
        },
    }
    let summary = match summary_of(docs.as_str()) {
        Some(x) => x,
        None => return Conversion::NoSummary,
    };
    let ii = IndexItem {
        path,
        name,
        kind,
        signature,
        docs,
        summary,
        span: copy_span(&it.span),
        children: Vec::new(),
        is_public: true,
        has_body,
        feature_gate: extract_feature_gate(&it.attrs),
        reexport_source: Some(source),
    };
    assert(facts_of(ii).feature_gate == spec_feature_gate(string_views(it.attrs@)));
    Conversion::Item(ii)
}

/// The items of blanket and synthetic impls.
fn collect_blanket_impl_items(c: &CrateModel) -> (r: HashMapWithView<u32, bool>)
    ensures
        r@ == blanket_set(c.items@, c.items@.len() as int),
{
    let mut m: HashMapWithView<u32, bool> = HashMapWithView::new();
    let mut i: usize = 0;
    while i < c.items.len()
        invariant
            i <= c.items@.len(),
            m@ == blanket_set(c.items@, i as int),
        decreases c.items.len() - i,
    {
        let it = &c.items[i];
        let ghost m0 = m@;
        if let ItemInner::Impl(b) = &it.inner {
            if b.trait_path.is_some() && (b.is_blanket || b.is_synthetic) {
                let mut k: usize = 0;
                while k < b.items.len()
                    invariant
                        k <= b.items@.len(),
                        m@ == insert_all(m0, b.items@.take(k as int), true),
                    decreases b.items.len() - k,
                {
                    assert(b.items@.take(k + 1).drop_last() =~= b.items@.take(k as int));
                    m.insert(b.items[k], true);
                    k = k + 1;
                }
                assert(b.items@.take(b.items@.len() as int) =~= b.items@);
            }
        }
        i = i + 1;
    }
    m
}


/// The conversion of a prefix of the items is a prefix of the conversion of
/// a longer one.
proof fn lemma_converted_prefix(
    c: CrateModel,
    paths: Map<u32, Seq<char>>,
    parents: Map<u32, u32>,
    blanket: Map<u32, bool>,
    k1: int,
    k2: int,
)
    requires
        0 <= k1 <= k2,
    ensures
        converted(c, paths, parents, blanket, k1).len() <= converted(c, paths, parents, blanket, k2).len(),
        forall|p: int|
            0 <= p < converted(c, paths, parents, blanket, k1).len() ==> converted(c, paths, parents, blanket, k2)[p]
                == converted(c, paths, parents, blanket, k1)[p],
    decreases k2 - k1,
{
    if k1 < k2 {
        lemma_converted_prefix(c, paths, parents, blanket, k1, k2 - 1);
    }
}

/// Positions recorded for converted items are positions of the conversion.
proof fn lemma_position_map_bound(conv: Seq<(u32, ItemFacts)>)
    ensures
        forall|k: u32| #[trigger] position_map(conv).contains_key(k) ==> position_map(conv)[k] < conv.len(),
    decreases conv.len(),
{
    if conv.len() > 0 {
        let prev = conv.drop_last();
        lemma_position_map_bound(prev);
        assert(position_map(conv) == position_map(prev).insert(conv.last().0, (conv.len() - 1) as usize));
        assert forall|k: u32| #[trigger] position_map(conv).contains_key(k) implies position_map(conv)[k] < conv.len() by {
            if k != conv.last().0 {
                assert(position_map(prev).contains_key(k));
            }
        }
    }
}

/// Pass 3: converts the items in id order, leaving out the items of blanket
/// and synthetic impls; gives the converted items, their ids, and their
/// positions by id; nothing when a converted item has no summary.
fn convert_items(
    c: &CrateModel,
    m: &HashMapWithView<u32, String>,
    parents: &HashMapWithView<u32, u32>,
    blanket: &HashMapWithView<u32, bool>,
) -> (r: Option<(Vec<IndexItem>, Vec<u32>, HashMapWithView<u32, usize>)>)
    requires
        c.wf(),
    ensures
        ({
            let conv = converted(*c, pview(m@), parents@, blanket@, c.items@.len() as int);
            match r {
                None => !summaries_defined(conv),
                Some(t) => {
                    &&& t.0@.len() == conv.len()
                    &&& t.1@.len() == conv.len()
                    &&& forall|p: int| 0 <= p < conv.len() ==> facts_of(#[trigger] t.0@[p]) == conv[p].1
                        && t.0@[p].children@.len() == 0 && t.1@[p] == conv[p].0
                    &&& t.2@ == position_map(conv)
                },
            }
        }),
{
    let ghost pm = pview(m@);
    let ghost n = c.items@.len() as int;
    let mut items: Vec<IndexItem> = Vec::new();
    let mut ids: Vec<u32> = Vec::new();
    let mut pos: HashMapWithView<u32, usize> = HashMapWithView::new();
    let mut i: usize = 0;
    while i < c.items.len()
        invariant
            i <= c.items@.len(),
            c.wf(),
            pm == pview(m@),
            n == c.items@.len(),
            items@.len() == converted(*c, pm, parents@, blanket@, i as int).len(),
            ids@.len() == items@.len(),
            items@.len() <= i,
            forall|p: int|
                0 <= p < items@.len() ==> facts_of(#[trigger] items@[p]) == converted(
                    *c,
                    pm,
                    parents@,
                    blanket@,
                    i as int,
                )[p].1 && items@[p].children@.len() == 0 && ids@[p] == converted(
                    *c,
                    pm,
                    parents@,
                    blanket@,
                    i as int,
                )[p].0,
            pos@ == position_map(converted(*c, pm, parents@, blanket@, i as int)),
        decreases c.items.len() - i,
    {
        let ghost conv0 = converted(*c, pm, parents@, blanket@, i as int);
        let it = &c.items[i];
        if !blanket.contains_key(&it.id) {
            let outcome = match &it.inner {
                ItemInner::Use(u) => convert_use_item(c, m, parents, it, u),
                _ => convert_regular_item(m, it),
            };
            match outcome {
                Conversion::Item(ii) => {
                    let k = items.len();
                    pos.insert(it.id, k);
                    items.push(ii);
                    ids.push(it.id);
                    proof {
                        let conv1 = converted(*c, pm, parents@, blanket@, i + 1);
                        assert(conv1 == conv0.push((it.id, facts_of(ii))));
                        assert(conv1.drop_last() =~= conv0);
                    }
                },
                Conversion::NoSummary => {
                    proof {
                        let conv1 = converted(*c, pm, parents@, blanket@, i + 1);
                        assert(conv1.len() == conv0.len() + 1);
                        assert(conv1[conv0.len() as int].1.summary is None);
                        lemma_converted_prefix(*c, pm, parents@, blanket@, i + 1, n);
                        let full = converted(*c, pm, parents@, blanket@, n);
                        assert(full[conv0.len() as int] == conv1[conv0.len() as int]);
                        assert(!summaries_defined(full));
                    }
                    return None;
                },
                Conversion::Skipped => {
                    assert(converted(*c, pm, parents@, blanket@, i + 1) =~= conv0);
                },
            }
        } else {
            assert(converted(*c, pm, parents@, blanket@, i + 1) =~= conv0);
        }
        i = i + 1;
    }
    Some((items, ids, pos))
}

// ---------------------------------------------------------------------------
// Pass 4: children and trait implementations
// ---------------------------------------------------------------------------

/// The members of the module a glob `use` imports.
pub open spec fn glob_target_members(s: Seq<CrateItem>, u: UseDecl) -> Seq<u32> {
    match u.target {
        Some(t) => match item_of(s, t) {
            Some(ti) => match ti.inner {
                ItemInner::Module(tm) => tm@,
                _ => seq![],
            },
            None => seq![],
        },
        None => seq![],
    }
}

/// Module members as children: glob `use`s are replaced by the members of
/// the module they import; unknown ids are dropped.
pub open spec fn module_member_ids(s: Seq<CrateItem>, ids: Seq<u32>) -> Seq<u32>
    decreases ids.len(),
{
    if ids.len() == 0 {
        seq![]
    } else {
        let x = ids.last();
        module_member_ids(s, ids.drop_last()) + match item_of(s, x) {
            None => seq![],
            Some(ci) => match ci.inner {
                ItemInner::Use(u) => if u.is_glob {
                    glob_target_members(s, u)
                } else {
                    seq![x]
                },
                _ => seq![x],
            },
        }
    }
}

/// The ids an item's children come from: module members, fields or
/// variants with inherent impl items, union inherent impl items, trait items.
pub open spec fn member_ids(s: Seq<CrateItem>, it: CrateItem) -> Seq<u32> {
    match it.inner {
        ItemInner::Module(ch) => module_member_ids(s, ch@),
        ItemInner::Struct { fields, impls } => spec_field_ids(fields) + impls_items(s, impls@, true),
        ItemInner::Enum { variants, impls } => variants@ + impls_items(s, impls@, true),
        ItemInner::Union { impls } => impls_items(s, impls@, true),
        ItemInner::Trait { items } => items@,
        _ => seq![],
    }
}

/// The item a `use` imports, when it is in the crate.
pub open spec fn use_target_item(s: Seq<CrateItem>, u: UseDecl) -> Option<CrateItem> {
    match u.target {
        Some(r) => item_of(s, r),
        None => None,
    }
}

/// The ids a converted item's children come from; a `use` takes those of
/// the type or trait it imports (not a module's members).
pub open spec fn linked_ids(s: Seq<CrateItem>, it: CrateItem) -> Seq<u32> {
    match it.inner {
        ItemInner::Use(u) => match use_target_item(s, u) {
            Some(ri) => match ri.inner {
                ItemInner::Module(_) => seq![],
                _ => member_ids(s, ri),
            },
            None => seq![],
        },
        _ => member_ids(s, it),
    }
}

/// Child references for ids that were converted, in order.
pub open spec fn child_refs(conv: Seq<(u32, ItemFacts)>, pos: Map<u32, usize>, ids: Seq<u32>) -> Seq<(usize, ItemKind, Seq<char>)>
    decreases ids.len(),
{
    if ids.len() == 0 {
        seq![]
    } else {
        let x = ids.last();
        child_refs(conv, pos, ids.drop_last()) + if pos.contains_key(x) {
            let q = pos[x];
            seq![(q, conv[q as int].1.kind, conv[q as int].1.name)]
        } else {
            seq![]
        }
    }
}

/// Child references as plain values.
pub open spec fn child_views(v: Seq<ChildRef>) -> Seq<(usize, ItemKind, Seq<char>)> {
    v.map_values(|r: ChildRef| (r.index, r.kind, r.name@))
}

/// The impl blocks of a struct, enum or union.
pub open spec fn impl_list_of(it: CrateItem) -> Seq<u32> {
    match it.inner {
        ItemInner::Struct { impls, .. } => impls@,
        ItemInner::Enum { impls, .. } => impls@,
        ItemInner::Union { impls } => impls@,
        _ => seq![],
    }
}

/// The trait implementations among impl blocks, blanket impls left out:
/// trait path and whether it is synthetic.
pub open spec fn trait_impls_from(s: Seq<CrateItem>, impls: Seq<u32>) -> Seq<(Seq<char>, bool)>
    decreases impls.len(),
{
    if impls.len() == 0 {
        seq![]
    } else {
        trait_impls_from(s, impls.drop_last()) + match item_of(s, impls.last()) {
            Some(ii) => match ii.inner {
                ItemInner::Impl(b) => match b.trait_path {
                    Some(tp) => if b.is_blanket {
                        seq![]
                    } else {
                        seq![(tp@, b.is_synthetic)]
                    },
                    None => seq![],
                },
                _ => seq![],
            },
            None => seq![],
        }
    }
}

/// The trait implementations a converted item lists; a `use` takes those
/// of the item it imports.
pub open spec fn linked_impls(s: Seq<CrateItem>, it: CrateItem) -> Seq<(Seq<char>, bool)> {
    match it.inner {
        ItemInner::Use(u) => match use_target_item(s, u) {
            Some(ri) => trait_impls_from(s, impl_list_of(ri)),
            None => seq![],
        },
        _ => trait_impls_from(s, impl_list_of(it)),
    }
}

/// Trait implementations as plain values.
pub open spec fn impl_views(v: Seq<TraitImplInfo>) -> Seq<(Seq<char>, bool)> {
    v.map_values(|t: TraitImplInfo| (t.trait_path@, t.is_synthetic))
}

/// The children of the converted item at position `p`.
pub open spec fn final_children(s: Seq<CrateItem>, conv: Seq<(u32, ItemFacts)>, p: int) -> Seq<(usize, ItemKind, Seq<char>)> {
    match item_of(s, conv[p].0) {
        Some(it) => child_refs(conv, position_map(conv), linked_ids(s, it)),
        None => seq![],
    }
}

/// The trait implementations of the converted item at position `p`.
pub open spec fn final_impls(s: Seq<CrateItem>, conv: Seq<(u32, ItemFacts)>, p: int) -> Seq<(Seq<char>, bool)> {
    match item_of(s, conv[p].0) {
        Some(it) => linked_impls(s, it),
        None => seq![],
    }
}

/// A stored trait implementation list agrees with the expected one: stored
/// only when it is not empty.
pub open spec fn impls_stored(got: Option<Seq<TraitImplInfo>>, want: Seq<(Seq<char>, bool)>) -> bool {
    if want.len() == 0 {
        got is None
    } else {
        got matches Some(g) && impl_views(g) == want
    }
}


fn push_ids(out: &mut Vec<u32>, ids: &Vec<u32>)
    ensures
        final(out)@ == old(out)@ + ids@,
{
    let ghost o = old(out)@;
    let mut k: usize = 0;
    while k < ids.len()
        invariant
            k <= ids@.len(),
            out@ == o + ids@.take(k as int),
        decreases ids.len() - k,
    {
        out.push(ids[k]);
        k = k + 1;
        assert(out@ =~= o + ids@.take(k as int));
    }
    assert(ids@.take(ids@.len() as int) =~= ids@);
}

/// Module members as children.
fn resolve_module_children(c: &CrateModel, ids: &Vec<u32>) -> (r: Vec<u32>)
    requires
        items_sorted(c.items@),
    ensures
        r@ == module_member_ids(c.items@, ids@),
{
    let mut out: Vec<u32> = Vec::new();
    let mut i: usize = 0;
    while i < ids.len()
        invariant
            i <= ids@.len(),
            items_sorted(c.items@),
            out@ == module_member_ids(c.items@, ids@.take(i as int)),
        decreases ids.len() - i,
    {
        let x = ids[i];
        assert(ids@.take(i + 1).drop_last() =~= ids@.take(i as int));
        assert(ids@.take(i + 1).last() == x);
        let ghost before = out@;
        if let Some(q) = c.find(x) {
            match &c.items[q].inner {
                ItemInner::Use(u) => {
                    if u.is_glob {
                        if let Some(t) = u.target {
                            if let Some(tq) = c.find(t) {
                                if let ItemInner::Module(tm) = &c.items[tq].inner {
                                    push_ids(&mut out, tm);
                                } else {
                                    assert(out@ =~= before + seq![]);
                                }
                            } else {
                                assert(out@ =~= before + seq![]);
                            }
                        } else {
                            assert(out@ =~= before + seq![]);
                        }
                    } else {
                        out.push(x);
                    }
                },
                _ => {
                    out.push(x);
                },
            }
        } else {
            assert(out@ =~= before + seq![]);
        }
        i = i + 1;
    }
    assert(ids@.take(ids@.len() as int) =~= ids@);
    out
}

/// The ids an item's children come from.
fn member_ids_of(c: &CrateModel, it: &CrateItem) -> (r: Vec<u32>)
    requires
        items_sorted(c.items@),
    ensures
        r@ == member_ids(c.items@, *it),
{
    match &it.inner {
        ItemInner::Module(ch) => resolve_module_children(c, ch),
        ItemInner::Struct { fields, impls } => {
            let mut ids = struct_field_ids(fields);
            extend_with_impl_items(c, &mut ids, impls, true);
            ids
        },
        ItemInner::Enum { variants, impls } => {
            let mut ids = variants.clone();
            extend_with_impl_items(c, &mut ids, impls, true);
            ids
        },
        ItemInner::Union { impls } => {
            let mut ids: Vec<u32> = Vec::new();
            extend_with_impl_items(c, &mut ids, impls, true);
            assert(ids@ =~= impls_items(c.items@, impls@, true));
            ids
        },
        ItemInner::Trait { items } => items.clone(),
        _ => Vec::new(),
    }
}

/// The ids a converted item's children come from.
fn linked_ids_of(c: &CrateModel, it: &CrateItem) -> (r: Vec<u32>)
    requires
        items_sorted(c.items@),
    ensures
        r@ == linked_ids(c.items@, *it),
{
    match &it.inner {
        ItemInner::Use(u) => match u.target {
            Some(t) => match c.find(t) {
                Some(q) => match &c.items[q].inner {
                    ItemInner::Module(_) => Vec::new(),
                    _ => member_ids_of(c, &c.items[q]),
                },
                None => Vec::new(),
            },
            None => Vec::new(),
        },
        _ => member_ids_of(c, it),
    }
}

/// Child references for the converted ids among `ids`.
fn child_refs_for(
    items: &Vec<IndexItem>,
    pos: &HashMapWithView<u32, usize>,
    ids: &Vec<u32>,
    Ghost(conv): Ghost<Seq<(u32, ItemFacts)>>,
) -> (r: Vec<ChildRef>)
    requires
        items@.len() == conv.len(),
        forall|q: int| 0 <= q < conv.len() ==> facts_of(#[trigger] items@[q]) == conv[q].1,
        forall|k: u32| #[trigger] pos@.contains_key(k) ==> pos@[k] < conv.len(),
    ensures
        child_views(r@) == child_refs(conv, pos@, ids@),
        forall|j: int| 0 <= j < r@.len() ==> (#[trigger] r@[j]).index < conv.len(),
{
    let mut out: Vec<ChildRef> = Vec::new();
    let mut i: usize = 0;
    while i < ids.len()
        invariant
            i <= ids@.len(),
            items@.len() == conv.len(),
            forall|q: int| 0 <= q < conv.len() ==> facts_of(#[trigger] items@[q]) == conv[q].1,
            forall|k: u32| #[trigger] pos@.contains_key(k) ==> pos@[k] < conv.len(),
            child_views(out@) == child_refs(conv, pos@, ids@.take(i as int)),
            forall|j: int| 0 <= j < out@.len() ==> (#[trigger] out@[j]).index < conv.len(),
        decreases ids.len() - i,
    {
        let x = ids[i];
        assert(ids@.take(i + 1).drop_last() =~= ids@.take(i as int));
        assert(ids@.take(i + 1).last() == x);
        let ghost before = out@;
        if let Some(q) = pos.get(&x) {
            let q = *q;
            assert(facts_of(items@[q as int]) == conv[q as int].1);
            let r = ChildRef { index: q, kind: items[q].kind, name: items[q].name.clone() };
            out.push(r);
            assert(child_views(out@) =~= child_views(before) + seq![(q, conv[q as int].1.kind, conv[q as int].1.name)]);
        } else {
            assert(child_views(out@) =~= child_views(before) + seq![]);
        }
        i = i + 1;
    }
    assert(ids@.take(ids@.len() as int) =~= ids@);
    out
}

/// The trait implementations among impl blocks, blanket impls left out.
fn trait_impls_of(c: &CrateModel, impls: &Vec<u32>) -> (r: Vec<TraitImplInfo>)
    requires
        items_sorted(c.items@),
    ensures
        impl_views(r@) == trait_impls_from(c.items@, impls@),
{
    let mut out: Vec<TraitImplInfo> = Vec::new();
    let mut i: usize = 0;
    while i < impls.len()
        invariant
            i <= impls@.len(),
            items_sorted(c.items@),
            impl_views(out@) == trait_impls_from(c.items@, impls@.take(i as int)),
        decreases impls.len() - i,
    {
        assert(impls@.take(i + 1).drop_last() =~= impls@.take(i as int));
        assert(impls@.take(i + 1).last() == impls@[i as int]);
        let ghost before = out@;
        let mut added = false;
        if let Some(q) = c.find(impls[i]) {
            if let ItemInner::Impl(b) = &c.items[q].inner {
                if let Some(tp) = &b.trait_path {
                    if !b.is_blanket {
                        out.push(TraitImplInfo { trait_path: tp.clone(), is_synthetic: b.is_synthetic });
                        added = true;
                        assert(impl_views(out@) =~= impl_views(before) + seq![(tp@, b.is_synthetic)]);
                    }
                }
            }
        }
        if !added {
            assert(impl_views(out@) =~= impl_views(before) + seq![]);
        }
        i = i + 1;
    }
    assert(impls@.take(impls@.len() as int) =~= impls@);
    out
}

fn impl_list(it: &CrateItem) -> (r: Vec<u32>)
    ensures
        r@ == impl_list_of(*it),
{
    match &it.inner {
        ItemInner::Struct { impls, .. } => impls.clone(),
        ItemInner::Enum { impls, .. } => impls.clone(),
        ItemInner::Union { impls } => impls.clone(),
        _ => Vec::new(),
    }
}

/// The trait implementations a converted item lists.
fn linked_impls_of(c: &CrateModel, it: &CrateItem) -> (r: Vec<TraitImplInfo>)
    requires
        items_sorted(c.items@),
    ensures
        impl_views(r@) == linked_impls(c.items@, *it),
{
    match &it.inner {
        ItemInner::Use(u) => match u.target {
            Some(t) => match c.find(t) {
                Some(q) => trait_impls_of(c, &impl_list(&c.items[q])),
                None => {
                    let r: Vec<TraitImplInfo> = Vec::new();
                    assert(impl_views(r@) =~= Seq::<(Seq<char>, bool)>::empty());
                    r
                },
            },
            None => {
                let r: Vec<TraitImplInfo> = Vec::new();
                assert(impl_views(r@) =~= Seq::<(Seq<char>, bool)>::empty());
                r
            },
        },
        _ => trait_impls_of(c, &impl_list(it)),
    }
}

/// Pass 4: the children of every converted item, and the trait
/// implementations stored by position.
fn link_relationships(
    c: &CrateModel,
    items: &Vec<IndexItem>,
    ids: &Vec<u32>,
    pos: &HashMapWithView<u32, usize>,
    Ghost(conv): Ghost<Seq<(u32, ItemFacts)>>,
) -> (r: (Vec<Vec<ChildRef>>, ImplMap))
    requires
        items_sorted(c.items@),
        items@.len() == conv.len(),
        ids@.len() == conv.len(),
        forall|q: int| 0 <= q < conv.len() ==> facts_of(#[trigger] items@[q]) == conv[q].1 && ids@[q] == conv[q].0,
        pos@ == position_map(conv),
    ensures
        r.0@.len() == conv.len(),
        forall|p: int| 0 <= p < conv.len() ==> child_views((#[trigger] r.0@[p])@) == final_children(c.items@, conv, p),
        forall|p: int, j: int| 0 <= p < conv.len() && 0 <= j < r.0@[p]@.len() ==> (#[trigger] r.0@[p]@[j]).index < conv.len(),
        forall|p: usize| #![trigger r.1.spec_get(p)] (p < conv.len() ==> impls_stored(r.1.spec_get(p), final_impls(c.items@, conv, p as int))) && (p >= conv.len() ==> r.1.spec_get(p) is None),
{
    proof {
        lemma_position_map_bound(conv);
    }
    let mut children: Vec<Vec<ChildRef>> = Vec::new();
    let mut impls = ImplMap::new();
    let mut p: usize = 0;
    while p < ids.len()
        invariant
            p <= ids@.len(),
            items_sorted(c.items@),
            items@.len() == conv.len(),
            ids@.len() == conv.len(),
            forall|q: int| 0 <= q < conv.len() ==> facts_of(#[trigger] items@[q]) == conv[q].1 && ids@[q] == conv[q].0,
            pos@ == position_map(conv),
            forall|k: u32| #[trigger] pos@.contains_key(k) ==> pos@[k] < conv.len(),
            children@.len() == p,
            forall|q: int| 0 <= q < p ==> child_views((#[trigger] children@[q])@) == final_children(c.items@, conv, q),
            forall|q: int, j: int| 0 <= q < p && 0 <= j < children@[q]@.len() ==> (#[trigger] children@[q]@[j]).index < conv.len(),
            forall|q: usize| #![trigger impls.spec_get(q)] (q < p ==> impls_stored(impls.spec_get(q), final_impls(c.items@, conv, q as int))) && (q >= p ==> impls.spec_get(q) is None),
        decreases ids.len() - p,
    {
        assert(facts_of(items@[p as int]) == conv[p as int].1);
        assert(ids@[p as int] == conv[p as int].0);
        match c.find(ids[p]) {
            Some(q) => {
                let it = &c.items[q];
                let linked = linked_ids_of(c, it);
                let refs = child_refs_for(items, pos, &linked, Ghost(conv));
                children.push(refs);
                let list = linked_impls_of(c, it);
                if list.len() > 0 {
                    impls.insert(p, list);
                } else {
                    assert(impl_views(list@).len() == 0);
                }
            },
            None => {
                let refs: Vec<ChildRef> = Vec::new();
                assert(child_views(refs@) =~= Seq::<(usize, ItemKind, Seq<char>)>::empty());
                children.push(refs);
            },
        }
        p = p + 1;
    }
    (children, impls)
}


// ---------------------------------------------------------------------------
// The index
// ---------------------------------------------------------------------------

/// The path lookup entries after adding the converted items in order.
pub open spec fn path_entries(conv: Seq<(u32, ItemFacts)>) -> Entries
    decreases conv.len(),
{
    if conv.len() == 0 {
        seq![]
    } else {
        assoc_push(path_entries(conv.drop_last()), conv.last().1.path, (conv.len() - 1) as usize)
    }
}

/// The name lookup entries (lowercased names) after adding the converted items.
pub open spec fn name_entries(conv: Seq<(u32, ItemFacts)>) -> Entries
    decreases conv.len(),
{
    if conv.len() == 0 {
        seq![]
    } else {
        assoc_push(name_entries(conv.drop_last()), lower(conv.last().1.name), (conv.len() - 1) as usize)
    }
}

/// The suffix lookup entries after adding the converted items.
pub open spec fn suffix_entries(conv: Seq<(u32, ItemFacts)>) -> Entries
    decreases conv.len(),
{
    if conv.len() == 0 {
        seq![]
    } else {
        assoc_push_all(
            suffix_entries(conv.drop_last()),
            suffix_keys(conv.last().1.path),
            (conv.len() - 1) as usize,
        )
    }
}

/// The index of a crate, as [`build_index`] builds it: the converted items
/// in id order with their facts, children and trait implementations, and
/// the lookup maps filled as each item was added.
pub open spec fn index_matches(r: DocIndex, c: CrateModel, crate_name: String, crate_version: String) -> bool {
    let conv = crate_conversion(c);
    let s = c.items@;
    &&& r.items@.len() == conv.len()
    &&& forall|p: int| 0 <= p < conv.len() ==> facts_of(#[trigger] r.items@[p]) == conv[p].1
    &&& forall|p: int| 0 <= p < conv.len() ==> child_views((#[trigger] r.items@[p]).children@) == final_children(s, conv, p)
    &&& forall|p: usize| #![trigger r.trait_impls.spec_get(p)] (p < conv.len() ==> impls_stored(r.trait_impls.spec_get(p), final_impls(s, conv, p as int)))
        && (p >= conv.len() ==> r.trait_impls.spec_get(p) is None)
    &&& r.path_map.entries() == path_entries(conv)
    &&& r.name_map.entries() == name_entries(conv)
    &&& r.suffix_map.entries() == suffix_entries(conv)
    &&& r.glob_uses@.len() == 0
    &&& r.crate_name == crate_name
    &&& r.crate_version == crate_version
}

/// Builds the documentation index of a crate in four passes: parents,
/// paths, item conversion, relationships. Gives nothing when a converted
/// item's doc summary has no result (a first line cut at 100 bytes inside a
/// character).
pub fn build_index(c: &CrateModel, crate_name: String, crate_version: String) -> (r: Option<DocIndex>)
    requires
        c.wf(),
    ensures
        r is None <==> !summaries_defined(crate_conversion(*c)),
        r matches Some(idx) ==> index_matches(idx, *c, crate_name, crate_version),
        r matches Some(idx) ==> idx.positions_in_bounds() && idx.children_in_bounds(),
{
    let ghost s = c.items@;
    let ghost n = s.len() as int;
    let parents = build_parent_map(c);
    let paths = compute_paths(c, &parents);
    let blanket = collect_blanket_impl_items(c);
    let converted_items = convert_items(c, &paths, &parents, &blanket);
    let ghost conv = converted(*c, pview(paths@), parents@, blanket@, n);
    assert(conv == crate_conversion(*c));
    let (items, ids, pos) = match converted_items {
        Some(t) => t,
        None => return None,
    };
    let (children, impls) = link_relationships(c, &items, &ids, &pos, Ghost(conv));
    // Take the items out from the back, then add them front to back.
    let mut items = items;
    let mut children = children;
    let mut rev: Vec<(IndexItem, Vec<ChildRef>)> = Vec::new();
    let ghost items0 = items@;
    let ghost children0 = children@;
    let total = items.len();
    while items.len() > 0
        invariant
            items@.len() == children@.len(),
            items@.len() + rev@.len() == total,
            total == items0.len(),
            items0.len() == children0.len(),
            items@ == items0.take(items@.len() as int),
            children@ == children0.take(children@.len() as int),
            forall|j: int| 0 <= j < rev@.len() ==> (#[trigger] rev@[j]).0 == items0[total - 1 - j] && rev@[j].1 == children0[total - 1 - j],
        decreases items.len(),
    {
        let it = items.pop().unwrap();
        let ch = children.pop().unwrap();
        rev.push((it, ch));
        assert(items@ =~= items0.take(items@.len() as int));
        assert(children@ =~= children0.take(children@.len() as int));
    }
    let mut index = DocIndex::new(crate_name, crate_version);
    assert(index.path_map.entries() =~= path_entries(conv.take(0)));
    assert(index.name_map.entries() =~= name_entries(conv.take(0)));
    assert(index.suffix_map.entries() =~= suffix_entries(conv.take(0)));
    let mut p: usize = 0;
    while rev.len() > 0
        invariant
            p + rev@.len() == total,
            total == conv.len(),
            total == items0.len(),
            total == children0.len(),
            forall|j: int| 0 <= j < rev@.len() ==> (#[trigger] rev@[j]).0 == items0[total - 1 - j] && rev@[j].1 == children0[total - 1 - j],
            index.items@.len() == p,
            forall|q: int| 0 <= q < p ==> (#[trigger] index.items@[q]).children == children0[q] && facts_of(index.items@[q]) == facts_of(items0[q]),
            forall|q: int| 0 <= q < total ==> facts_of(#[trigger] items0[q]) == conv[q].1,
            index.path_map.entries() == path_entries(conv.take(p as int)),
            index.name_map.entries() == name_entries(conv.take(p as int)),
            index.suffix_map.entries() == suffix_entries(conv.take(p as int)),
            index.positions_in_bounds(),
            index.glob_uses@.len() == 0,
            index.crate_name == crate_name,
            index.crate_version == crate_version,
        decreases rev.len(),
    {
        let (it, ch) = rev.pop().unwrap();
        assert(it == items0[p as int] && ch == children0[p as int]);
        let mut it = it;
        it.children = ch;
        assert(facts_of(it) == facts_of(items0[p as int]));
        proof {
            let t1 = conv.take(p + 1);
            assert(t1.drop_last() =~= conv.take(p as int));
            assert(t1.last().1 == conv[p as int].1);
        }
        index.add_item(it);
        p = p + 1;
    }
    assert(conv.take(total as int) =~= conv);
    index.trait_impls = impls;
    proof {
        assert forall|q: int| 0 <= q < conv.len() implies (#[trigger] conv[q].1).summary is Some by {
            assert(facts_of(items0[q]) == conv[q].1);
        }
        assert forall|q: int, j: int|
            0 <= q < index.items@.len() && 0 <= j < index.items@[q].children@.len()
            implies #[trigger] index.items@[q].children@[j].index < index.items@.len() by {
            assert(index.items@[q].children == children0[q]);
            assert(children0[q]@[j].index < conv.len());
        }
    }
    Some(index)
}

} // verus!
