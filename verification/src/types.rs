//! Core data types: item kinds, index items and the queryable index.
use vstd::prelude::*;
use crate::keyed::{
    assoc_push, assoc_push_all, entries_below, lemma_below_mono, lemma_push_all_below,
    lemma_push_below, KeyedIndices,
};
use crate::text::{
    chars_of, join, join_from, lower, lower_chars, path_sep, path_sep_exec, segments,
    segments_exec,
};

verus! {

/// The standard library crate names.
pub open spec fn spec_is_stdlib_crate(name: Seq<char>) -> bool {
    name == "std"@ || name == "core"@ || name == "alloc"@
}

/// Returns whether the given name is a recognized stdlib crate (`std`, `core`, `alloc`).
pub fn is_stdlib_crate(name: &str) -> (r: bool)
    ensures
        r == spec_is_stdlib_crate(name@),
{
    let c = chars_of(name);
    let std_c = chars_of("std");
    let core_c = chars_of("core");
    let alloc_c = chars_of("alloc");
    crate::text::chars_eq(c.as_slice(), std_c.as_slice()) || crate::text::chars_eq(
        c.as_slice(),
        core_c.as_slice(),
    ) || crate::text::chars_eq(c.as_slice(), alloc_c.as_slice())
}

/// The kind of a documented Rust item.
#[derive(Debug, Clone, Copy, PartialEq, Eq, Structural, Hash, PartialOrd, Ord)]
pub enum ItemKind {
    Module,
    Struct,
    Enum,
    Union,
    Trait,
    TraitAlias,
    Function,
    TypeAlias,
    AssocType,
    ForeignType,
    Constant,
    AssocConst,
    Static,
    Macro,
    ProcMacro,
    Variant,
    Field,
    Primitive,
}

/// Display grouping of item kinds; the variant order is the display order.
#[derive(Debug, Clone, Copy, PartialEq, Eq, Structural, Hash, PartialOrd, Ord)]
pub enum KindCategory {
    Modules,
    Structs,
    Enums,
    Unions,
    Traits,
    Functions,
    TypeAliases,
    Constants,
    Statics,
    Macros,
    Variants,
    Fields,
    Primitives,
}

/// Metadata of a kind: short name, category, primary flag and filter group.
#[derive(Clone, Copy)]
pub struct KindMeta {
    /// User-facing short name: "fn", "struct", "mod", ...
    pub short_name: &'static str,
    /// Display grouping category.
    pub category: KindCategory,
    /// Whether the kind is "primary" for crate-root auto-selection.
    pub is_primary: bool,
    /// Canonical kind of the `--kind` filter group this kind belongs to.
    pub filter_canonical: ItemKind,
}

/// The metadata table of every kind.
pub open spec fn spec_meta(k: ItemKind) -> KindMeta {
    match k {
        ItemKind::Module => KindMeta { short_name: "mod", category: KindCategory::Modules, is_primary: false, filter_canonical: ItemKind::Module },
        ItemKind::Struct => KindMeta { short_name: "struct", category: KindCategory::Structs, is_primary: true, filter_canonical: ItemKind::Struct },
        ItemKind::Enum => KindMeta { short_name: "enum", category: KindCategory::Enums, is_primary: true, filter_canonical: ItemKind::Enum },
        ItemKind::Union => KindMeta { short_name: "union", category: KindCategory::Unions, is_primary: true, filter_canonical: ItemKind::Union },
        ItemKind::Trait => KindMeta { short_name: "trait", category: KindCategory::Traits, is_primary: true, filter_canonical: ItemKind::Trait },
        ItemKind::TraitAlias => KindMeta { short_name: "trait alias", category: KindCategory::Traits, is_primary: true, filter_canonical: ItemKind::Trait },
        ItemKind::Function => KindMeta { short_name: "fn", category: KindCategory::Functions, is_primary: false, filter_canonical: ItemKind::Function },
        ItemKind::TypeAlias => KindMeta { short_name: "type", category: KindCategory::TypeAliases, is_primary: true, filter_canonical: ItemKind::TypeAlias },
        ItemKind::AssocType => KindMeta { short_name: "type", category: KindCategory::TypeAliases, is_primary: false, filter_canonical: ItemKind::TypeAlias },
        ItemKind::ForeignType => KindMeta { short_name: "type", category: KindCategory::TypeAliases, is_primary: false, filter_canonical: ItemKind::TypeAlias },
        ItemKind::Constant => KindMeta { short_name: "const", category: KindCategory::Constants, is_primary: false, filter_canonical: ItemKind::Constant },
        ItemKind::AssocConst => KindMeta { short_name: "const", category: KindCategory::Constants, is_primary: false, filter_canonical: ItemKind::Constant },
        ItemKind::Static => KindMeta { short_name: "static", category: KindCategory::Statics, is_primary: false, filter_canonical: ItemKind::Static },
        ItemKind::Macro => KindMeta { short_name: "macro", category: KindCategory::Macros, is_primary: false, filter_canonical: ItemKind::Macro },
        ItemKind::ProcMacro => KindMeta { short_name: "proc macro", category: KindCategory::Macros, is_primary: false, filter_canonical: ItemKind::Macro },
        ItemKind::Variant => KindMeta { short_name: "variant", category: KindCategory::Variants, is_primary: false, filter_canonical: ItemKind::Variant },
        ItemKind::Field => KindMeta { short_name: "field", category: KindCategory::Fields, is_primary: false, filter_canonical: ItemKind::Field },
        ItemKind::Primitive => KindMeta { short_name: "primitive", category: KindCategory::Primitives, is_primary: false, filter_canonical: ItemKind::Primitive },
    }
}

/// The short name of a kind, as characters.
pub open spec fn spec_short_name(k: ItemKind) -> Seq<char> {
    spec_meta(k).short_name@
}

/// `k` matches the `--kind` filter `f`: both belong to the same filter group.
pub open spec fn spec_matches_filter(k: ItemKind, f: ItemKind) -> bool {
    spec_meta(k).filter_canonical == spec_meta(f).filter_canonical
}

impl ItemKind {
    /// Returns the consolidated metadata for this kind.
    pub fn meta(self) -> (r: KindMeta)
        ensures
            r == spec_meta(self),
    {
        match self {
            ItemKind::Module => KindMeta { short_name: "mod", category: KindCategory::Modules, is_primary: false, filter_canonical: ItemKind::Module },
            ItemKind::Struct => KindMeta { short_name: "struct", category: KindCategory::Structs, is_primary: true, filter_canonical: ItemKind::Struct },
            ItemKind::Enum => KindMeta { short_name: "enum", category: KindCategory::Enums, is_primary: true, filter_canonical: ItemKind::Enum },
            ItemKind::Union => KindMeta { short_name: "union", category: KindCategory::Unions, is_primary: true, filter_canonical: ItemKind::Union },
            ItemKind::Trait => KindMeta { short_name: "trait", category: KindCategory::Traits, is_primary: true, filter_canonical: ItemKind::Trait },
            ItemKind::TraitAlias => KindMeta { short_name: "trait alias", category: KindCategory::Traits, is_primary: true, filter_canonical: ItemKind::Trait },
            ItemKind::Function => KindMeta { short_name: "fn", category: KindCategory::Functions, is_primary: false, filter_canonical: ItemKind::Function },
            ItemKind::TypeAlias => KindMeta { short_name: "type", category: KindCategory::TypeAliases, is_primary: true, filter_canonical: ItemKind::TypeAlias },
            ItemKind::AssocType => KindMeta { short_name: "type", category: KindCategory::TypeAliases, is_primary: false, filter_canonical: ItemKind::TypeAlias },
            ItemKind::ForeignType => KindMeta { short_name: "type", category: KindCategory::TypeAliases, is_primary: false, filter_canonical: ItemKind::TypeAlias },
            ItemKind::Constant => KindMeta { short_name: "const", category: KindCategory::Constants, is_primary: false, filter_canonical: ItemKind::Constant },
            ItemKind::AssocConst => KindMeta { short_name: "const", category: KindCategory::Constants, is_primary: false, filter_canonical: ItemKind::Constant },
            ItemKind::Static => KindMeta { short_name: "static", category: KindCategory::Statics, is_primary: false, filter_canonical: ItemKind::Static },
            ItemKind::Macro => KindMeta { short_name: "macro", category: KindCategory::Macros, is_primary: false, filter_canonical: ItemKind::Macro },
            ItemKind::ProcMacro => KindMeta { short_name: "proc macro", category: KindCategory::Macros, is_primary: false, filter_canonical: ItemKind::Macro },
            ItemKind::Variant => KindMeta { short_name: "variant", category: KindCategory::Variants, is_primary: false, filter_canonical: ItemKind::Variant },
            ItemKind::Field => KindMeta { short_name: "field", category: KindCategory::Fields, is_primary: false, filter_canonical: ItemKind::Field },
            ItemKind::Primitive => KindMeta { short_name: "primitive", category: KindCategory::Primitives, is_primary: false, filter_canonical: ItemKind::Primitive },
        }
    }

    /// Returns the user-facing short name: "fn", "struct", "mod", etc.
    pub fn short_name(self) -> (r: &'static str)
        ensures
            r == spec_meta(self).short_name,
    {
        self.meta().short_name
    }

    /// Returns whether this kind matches a CLI `--kind` filter value: kinds in the
    /// same filter group match (e.g. `TraitAlias` matches `trait`).
    pub fn matches_filter(self, filter: ItemKind) -> (r: bool)
        ensures
            r == spec_matches_filter(self, filter),
    {
        self.meta().filter_canonical == filter.meta().filter_canonical
    }

    /// Maps this kind to its display category.
    pub fn category(self) -> (r: KindCategory)
        ensures
            r == spec_meta(self).category,
    {
        self.meta().category
    }

    /// Whether this is a "primary" kind for crate-root auto-selection.
    pub fn is_primary(self) -> (r: bool)
        ensures
            r == spec_meta(self).is_primary,
    {
        self.meta().is_primary
    }
}

/// The display position of a category (its variant order).
pub open spec fn spec_category_rank(c: KindCategory) -> nat {
    match c {
        KindCategory::Modules => 0,
        KindCategory::Structs => 1,
        KindCategory::Enums => 2,
        KindCategory::Unions => 3,
        KindCategory::Traits => 4,
        KindCategory::Functions => 5,
        KindCategory::TypeAliases => 6,
        KindCategory::Constants => 7,
        KindCategory::Statics => 8,
        KindCategory::Macros => 9,
        KindCategory::Variants => 10,
        KindCategory::Fields => 11,
        KindCategory::Primitives => 12,
    }
}

/// The section header of a category.
pub open spec fn spec_header(c: KindCategory) -> &'static str {
    match c {
        KindCategory::Modules => "modules:",
        KindCategory::Structs => "structs:",
        KindCategory::Enums => "enums:",
        KindCategory::Unions => "unions:",
        KindCategory::Traits => "traits:",
        KindCategory::Functions => "functions:",
        KindCategory::TypeAliases => "type aliases:",
        KindCategory::Constants => "constants:",
        KindCategory::Statics => "statics:",
        KindCategory::Macros => "macros:",
        KindCategory::Variants => "variants:",
        KindCategory::Fields => "fields:",
        KindCategory::Primitives => "primitives:",
    }
}

/// Categories whose items are shown with signature + summary.
pub open spec fn spec_uses_signature_display(c: KindCategory) -> bool {
    c == KindCategory::Functions || c == KindCategory::TypeAliases || c == KindCategory::Constants
        || c == KindCategory::Statics
}

impl KindCategory {
    /// The display position of this category (its variant order).
    pub fn rank(self) -> (r: u8)
        ensures
            r == spec_category_rank(self),
    {
        match self {
            KindCategory::Modules => 0,
            KindCategory::Structs => 1,
            KindCategory::Enums => 2,
            KindCategory::Unions => 3,
            KindCategory::Traits => 4,
            KindCategory::Functions => 5,
            KindCategory::TypeAliases => 6,
            KindCategory::Constants => 7,
            KindCategory::Statics => 8,
            KindCategory::Macros => 9,
            KindCategory::Variants => 10,
            KindCategory::Fields => 11,
            KindCategory::Primitives => 12,
        }
    }

    /// Returns the section header text: "modules:", "structs:", etc.
    pub fn header(self) -> (r: &'static str)
        ensures
            r == spec_header(self),
    {
        match self {
            KindCategory::Modules => "modules:",
            KindCategory::Structs => "structs:",
            KindCategory::Enums => "enums:",
            KindCategory::Unions => "unions:",
            KindCategory::Traits => "traits:",
            KindCategory::Functions => "functions:",
            KindCategory::TypeAliases => "type aliases:",
            KindCategory::Constants => "constants:",
            KindCategory::Statics => "statics:",
            KindCategory::Macros => "macros:",
            KindCategory::Variants => "variants:",
            KindCategory::Fields => "fields:",
            KindCategory::Primitives => "primitives:",
        }
    }

    /// Whether items in this group show signature+summary (true) vs name+summary (false).
    pub fn uses_signature_display(self) -> (r: bool)
        ensures
            r == spec_uses_signature_display(self),
    {
        match self {
            KindCategory::Functions | KindCategory::TypeAliases | KindCategory::Constants
            | KindCategory::Statics => true,
            _ => false,
        }
    }
}

/// Source file location for an item.
#[derive(Debug, Clone, PartialEq, Eq)]
pub struct SourceSpan {
    /// Relative path, e.g. "src/lib.rs". Empty if unavailable.
    pub file: String,
    /// 1-based start line. 0 if unavailable.
    pub line_start: u32,
    /// 1-based end line, inclusive. 0 if unavailable.
    pub line_end: u32,
}

/// References a child item within a [`DocIndex`].
#[derive(Debug, Clone, PartialEq, Eq)]
pub struct ChildRef {
    /// Position in `DocIndex.items`.
    pub index: usize,
    /// The kind of the child item.
    pub kind: ItemKind,
    /// The simple name of the child.
    pub name: String,
}

/// One entry per documented item.
#[derive(Debug, Clone, PartialEq, Eq)]
pub struct IndexItem {
    /// Full path, e.g. `tokio::sync::Mutex`.
    pub path: String,
    /// Simple name, e.g. "Mutex".
    pub name: String,
    /// The kind of item.
    pub kind: ItemKind,
    /// Rendered signature.
    pub signature: String,
    /// Full doc comment, raw text.
    pub docs: String,
    /// First sentence of docs.
    pub summary: String,
    /// Source file location.
    pub span: SourceSpan,
    /// Children (methods, variants, fields, etc.).
    pub children: Vec<ChildRef>,
    /// Whether the item is publicly visible.
    pub is_public: bool,
    /// For trait methods: true = provided, false = required.
    pub has_body: bool,
    /// Feature gate, e.g. "fs" from `#[cfg(feature = "fs")]`.
    pub feature_gate: Option<String>,
    /// Original source path for re-exported items, e.g. `inner::Helper`.
    pub reexport_source: Option<String>,
}

/// Describes a trait implementation on a type.
#[derive(Debug, Clone, PartialEq, Eq)]
pub struct TraitImplInfo {
    /// Trait path, e.g. "Clone".
    pub trait_path: String,
    /// Whether this is a synthetic auto-trait (Send, Sync, etc.).
    pub is_synthetic: bool,
}

/// A wildcard re-export (`pub use other::*`) recorded in a module.
#[derive(Debug, Clone, PartialEq, Eq)]
pub struct GlobUse {
    /// Path of the module holding the `use`.
    pub parent_path: String,
    /// The glob's source path, without the trailing `::*`.
    pub source_path: String,
}

/// Trait implementations keyed by the position of the implementing type.
#[derive(Debug)]
pub struct ImplMap {
    ents: Vec<(usize, Vec<TraitImplInfo>)>,
}

/// The value stored under `k` in an association list of trait implementations.
pub open spec fn impl_get(e: Seq<(usize, Seq<TraitImplInfo>)>, k: usize) -> Option<
    Seq<TraitImplInfo>,
>
    decreases e.len(),
{
    if e.len() == 0 {
        None
    } else if e[0].0 == k {
        Some(e[0].1)
    } else {
        impl_get(e.drop_first(), k)
    }
}

impl ImplMap {
    /// The stored entries.
    pub closed spec fn entries(&self) -> Seq<(usize, Seq<TraitImplInfo>)> {
        Seq::new(self.ents@.len(), |i: int| (self.ents@[i].0, self.ents@[i].1@))
    }

    /// The implementations stored for `k`.
    pub open spec fn spec_get(&self, k: usize) -> Option<Seq<TraitImplInfo>> {
        impl_get(self.entries(), k)
    }

    /// An empty map.
    pub fn new() -> (r: Self)
        ensures
            forall|k: usize| r.spec_get(k) is None,
    {
        let r = ImplMap { ents: Vec::new() };
        assert(r.entries().len() == 0);
        r
    }

    /// Stores `v` under `k`, replacing any earlier value.
    pub fn insert(&mut self, k: usize, v: Vec<TraitImplInfo>)
        ensures
            forall|q: usize|
                #![trigger final(self).spec_get(q)]
                final(self).spec_get(q) == if q == k {
                    Some(v@)
                } else {
                    old(self).spec_get(q)
                },
    {
        let ghost v_view = v@;
        let ghost old_e = self.entries();
        let mut i: usize = 0;
        while i < self.ents.len()
            invariant
                i <= self.ents@.len(),
                old_e == self.entries(),
                old_e == old(self).entries(),
                v_view == v@,
                forall|j: int| 0 <= j < i ==> old_e[j].0 != k,
            decreases self.ents.len() - i,
        {
            if self.ents[i].0 == k {
                self.ents[i] = (k, v);

                proof {
                    assert forall|q: usize| #![trigger self.spec_get(q)]
                        self.spec_get(q) == if q == k { Some(v_view) } else { impl_get(old_e, q) } by {
                        lemma_impl_replace(old_e, k, v_view, i as int, q);
                        assert(self.entries() =~= old_e.update(i as int, (k, v_view)));
                    }
                }
                return;
            }
            i = i + 1;
        }
        self.ents.push((k, v));
        proof {
            assert forall|q: usize| #![trigger self.spec_get(q)]
                self.spec_get(q) == if q == k { Some(v_view) } else { impl_get(old_e, q) } by {
                lemma_impl_append(old_e, k, v_view, q);
                assert(self.entries() =~= old_e.push((k, v_view)));
            }
        }
    }

    /// The implementations stored for `k`.
    pub fn get(&self, k: usize) -> (r: Option<&Vec<TraitImplInfo>>)
        ensures
            r matches Some(v) ==> self.spec_get(k) == Some(v@),
            r is None ==> self.spec_get(k) is None,
    {
        let ghost e = self.entries();
        let mut i: usize = 0;
        while i < self.ents.len()
            invariant
                i <= self.ents@.len(),
                e == self.entries(),
                forall|j: int| 0 <= j < i ==> e[j].0 != k,
            decreases self.ents.len() - i,
        {
            if self.ents[i].0 == k {
                proof {
                    lemma_impl_get_at(e, k, i as int);
                }
                return Some(&self.ents[i].1);
            }
            i = i + 1;
        }
        proof {
            lemma_impl_get_at(e, k, e.len() as int);
        }
        None
    }
}

/// The first entry with key `k` (at `i`, or none when `i == e.len()`) decides the lookup.
pub proof fn lemma_impl_get_at(e: Seq<(usize, Seq<TraitImplInfo>)>, k: usize, i: int)
    requires
        0 <= i <= e.len(),
        i < e.len() ==> e[i].0 == k,
        forall|j: int| 0 <= j < i ==> e[j].0 != k,
    ensures
        impl_get(e, k) == if i < e.len() {
            Some(e[i].1)
        } else {
            None
        },
    decreases i,
{
    if i > 0 {
        let t = e.drop_first();
        assert forall|j: int| 0 <= j < i - 1 implies t[j].0 != k by {
            assert(t[j] == e[j + 1]);
        }
        if i - 1 < t.len() {
            assert(t[i - 1] == e[i]);
        }
        lemma_impl_get_at(t, k, i - 1);
    }
}

/// Replacing the first entry for `k` changes only lookups of `k`.
pub proof fn lemma_impl_replace(
    e: Seq<(usize, Seq<TraitImplInfo>)>,
    k: usize,
    v: Seq<TraitImplInfo>,
    i: int,
    q: usize,
)
    requires
        0 <= i < e.len(),
        e[i].0 == k,
        forall|j: int| 0 <= j < i ==> e[j].0 != k,
    ensures
        impl_get(e.update(i, (k, v)), q) == if q == k {
            Some(v)
        } else {
            impl_get(e, q)
        },
    decreases i,
{
    let u = e.update(i, (k, v));
    if i == 0 {
        assert(u.drop_first() =~= e.drop_first());
    } else {
        let t = e.drop_first();
        assert forall|j: int| 0 <= j < i - 1 implies t[j].0 != k by {
            assert(t[j] == e[j + 1]);
        }
        lemma_impl_replace(t, k, v, i - 1, q);
        assert(u.drop_first() =~= t.update(i - 1, (k, v)));
        assert(u[0] == e[0]);
    }
}

/// Appending an entry for an absent key `k` changes only lookups of `k`.
pub proof fn lemma_impl_append(
    e: Seq<(usize, Seq<TraitImplInfo>)>,
    k: usize,
    v: Seq<TraitImplInfo>,
    q: usize,
)
    requires
        forall|j: int| 0 <= j < e.len() ==> e[j].0 != k,
    ensures
        impl_get(e.push((k, v)), q) == if q == k {
            Some(v)
        } else {
            impl_get(e, q)
        },
    decreases e.len(),
{
    let p = e.push((k, v));
    if e.len() == 0 {
        assert(p[0] == (k, v));
        assert(p.drop_first().len() == 0);
        assert(impl_get(p.drop_first(), q) is None);
    } else {
        let t = e.drop_first();
        assert forall|j: int| 0 <= j < t.len() implies t[j].0 != k by {
            assert(t[j] == e[j + 1]);
        }
        lemma_impl_append(t, k, v, q);
        assert(p.drop_first() =~= t.push((k, v)));
        assert(p[0] == e[0]);
        if q == e[0].0 {
            assert(impl_get(p, q) == Some(e[0].1));
        } else {
            assert(impl_get(p, q) == impl_get(p.drop_first(), q));
            assert(impl_get(e, q) == impl_get(t, q));
        }
    }
}

/// The queryable index for one crate.
#[derive(Debug)]
pub struct DocIndex {
    /// All items in the index.
    pub items: Vec<IndexItem>,
    /// Full path -> item positions. Original case.
    pub path_map: KeyedIndices,
    /// Lowercased simple name -> item positions.
    pub name_map: KeyedIndices,
    /// Lowercased path suffix -> item positions.
    pub suffix_map: KeyedIndices,
    /// Trait implementations keyed by the parent type's position.
    pub trait_impls: ImplMap,
    /// Wildcard re-exports recorded when the index was built.
    pub glob_uses: Vec<GlobUse>,
    /// Normalized crate name (hyphens -> underscores).
    pub crate_name: String,
    /// Crate version, e.g. "1.0.210". Empty if unknown.
    pub crate_version: String,
}

/// The suffix-map keys of a path: every lowercased `::`-suffix, longest first.
pub open spec fn suffix_keys(path: Seq<char>) -> Seq<Seq<char>> {
    Seq::new(segments(path).len(), |j: int| lower(join(segments(path).skip(j), path_sep())))
}

/// Pushing under one more key extends a multi-key push.
pub proof fn lemma_push_all_snoc(
    e: crate::keyed::Entries,
    keys: Seq<Seq<char>>,
    k: Seq<char>,
    n: usize,
)
    ensures
        assoc_push_all(e, keys.push(k), n) == assoc_push(assoc_push_all(e, keys, n), k, n),
    decreases keys.len(),
{
    if keys.len() > 0 {
        assert(keys.push(k)[0] == keys[0]);
        assert(keys.push(k).drop_first() =~= keys.drop_first().push(k));
        lemma_push_all_snoc(assoc_push(e, keys[0], n), keys.drop_first(), k, n);
        assert(assoc_push_all(e, keys.push(k), n) == assoc_push_all(
            assoc_push(e, keys[0], n),
            keys.drop_first().push(k),
            n,
        ));
        assert(assoc_push_all(e, keys, n) == assoc_push_all(
            assoc_push(e, keys[0], n),
            keys.drop_first(),
            n,
        ));
    } else {
        assert(assoc_push_all(e, keys, n) == e);
        assert(keys.push(k)[0] == k);
        assert(keys.push(k).drop_first() =~= Seq::<Seq<char>>::empty());
        assert(assoc_push_all(assoc_push(e, k, n), Seq::<Seq<char>>::empty(), n) == assoc_push(
            e,
            k,
            n,
        ));
    }
}

impl DocIndex {
    /// All positions stored in the lookup maps point at items.
    pub open spec fn positions_in_bounds(&self) -> bool {
        &&& entries_below(self.path_map.entries(), self.items@.len() as int)
        &&& entries_below(self.name_map.entries(), self.items@.len() as int)
        &&& entries_below(self.suffix_map.entries(), self.items@.len() as int)
    }

    /// Every child reference names an item of the index.
    pub open spec fn children_in_bounds(&self) -> bool {
        forall|i: int, j: int|
            #![trigger self.items@[i].children@[j]]
            0 <= i < self.items@.len() && 0 <= j < self.items@[i].children@.len()
                ==> self.items@[i].children@[j].index < self.items@.len()
    }

    /// Whether the index is well formed: every position in the lookup maps
    /// and every child reference names an item.
    pub fn check_well_formed(&self) -> (r: bool)
        ensures
            r == (self.positions_in_bounds() && self.children_in_bounds()),
    {
        let n = self.items.len();
        if !(self.path_map.all_below(n) && self.name_map.all_below(n) && self.suffix_map.all_below(n)) {
            return false;
        }
        let mut i: usize = 0;
        while i < self.items.len()
            invariant
                i <= self.items@.len(),
                n == self.items@.len(),
                forall|a: int, b: int|
                    #![trigger self.items@[a].children@[b]]
                    0 <= a < i && 0 <= b < self.items@[a].children@.len() ==> self.items@[a].children@[b].index < n,
            decreases self.items.len() - i,
        {
            let cs = &self.items[i].children;
            let mut j: usize = 0;
            while j < cs.len()
                invariant
                    i < self.items@.len(),
                    n == self.items@.len(),
                    j <= cs@.len(),
                    *cs == self.items@[i as int].children,
                    forall|a: int, b: int|
                        #![trigger self.items@[a].children@[b]]
                        0 <= a < i && 0 <= b < self.items@[a].children@.len() ==> self.items@[a].children@[b].index < n,
                    forall|b: int| 0 <= b < j ==> (#[trigger] cs@[b]).index < n,
                decreases cs.len() - j,
            {
                if cs[j].index >= n {
                    assert(self.items@[i as int].children@[j as int].index >= n);
                    return false;
                }
                j = j + 1;
            }
            assert forall|b: int| 0 <= b < self.items@[i as int].children@.len() implies #[trigger] self.items@[i as int].children@[b].index < n by {
                assert(self.items@[i as int].children@[b] == cs@[b]);
            }
            i = i + 1;
        }
        true
    }

    /// Creates a new empty index for the given crate.
    pub fn new(crate_name: String, crate_version: String) -> (r: Self)
        ensures
            r.items@.len() == 0,
            r.path_map.entries().len() == 0,
            r.name_map.entries().len() == 0,
            r.suffix_map.entries().len() == 0,
            forall|k: usize| r.trait_impls.spec_get(k) is None,
            r.glob_uses@.len() == 0,
            r.crate_name == crate_name,
            r.crate_version == crate_version,
            r.positions_in_bounds(),
            r.children_in_bounds(),
    {
        DocIndex {
            items: Vec::new(),
            path_map: KeyedIndices::new(),
            name_map: KeyedIndices::new(),
            suffix_map: KeyedIndices::new(),
            trait_impls: ImplMap::new(),
            glob_uses: Vec::new(),
            crate_name,
            crate_version,
        }
    }

    /// Adds an item and records its position under its path (original case),
    /// its lowercased name, and every lowercased `::`-suffix of its path.
    pub fn add_item(&mut self, item: IndexItem)
        requires
            old(self).items@.len() < usize::MAX,
        ensures
            final(self).items@ == old(self).items@.push(item),
            final(self).path_map.entries() == assoc_push(
                old(self).path_map.entries(),
                item.path@,
                old(self).items@.len() as usize,
            ),
            final(self).name_map.entries() == assoc_push(
                old(self).name_map.entries(),
                lower(item.name@),
                old(self).items@.len() as usize,
            ),
            final(self).suffix_map.entries() == assoc_push_all(
                old(self).suffix_map.entries(),
                suffix_keys(item.path@),
                old(self).items@.len() as usize,
            ),
            final(self).trait_impls == old(self).trait_impls,
            final(self).glob_uses == old(self).glob_uses,
            final(self).crate_name == old(self).crate_name,
            final(self).crate_version == old(self).crate_version,
            old(self).positions_in_bounds() ==> final(self).positions_in_bounds(),
            old(self).children_in_bounds() && (forall|j: int|
                0 <= j < item.children@.len() ==> #[trigger] item.children@[j].index
                    <= old(self).items@.len()) ==> final(self).children_in_bounds(),
    {
        let n = self.items.len();
        let path_chars = chars_of(item.path.as_str());
        let name_chars = chars_of(item.name.as_str());
        self.path_map.push_index(crate::text::copy_chars(path_chars.as_slice()), n);
        self.name_map.push_index(lower_chars(name_chars.as_slice()), n);
        let segs = segments_exec(path_chars.as_slice());
        let sep = path_sep_exec();
        let ghost keys = suffix_keys(item.path@);
        let ghost e0 = self.suffix_map.entries();
        let ghost pm = self.path_map.entries();
        let ghost nm = self.name_map.entries();
        let mut i: usize = 0;
        assert(keys.take(0) =~= Seq::<Seq<char>>::empty());
        while i < segs.len()
            invariant
                i <= segs@.len(),
                segs@.map_values(|v: Vec<char>| v@) == segments(item.path@),
                sep@ == path_sep(),
                keys == suffix_keys(item.path@),
                self.suffix_map.entries() == assoc_push_all(e0, keys.take(i as int), n),
                self.path_map.entries() == pm,
                self.name_map.entries() == nm,
                self.items@ == old(self).items@,
                n == old(self).items@.len(),
                self.trait_impls == old(self).trait_impls,
                self.glob_uses == old(self).glob_uses,
                self.crate_name == old(self).crate_name,
                self.crate_version == old(self).crate_version,
            decreases segs.len() - i,
        {
            let joined = join_from(segs.as_slice(), i, sep.as_slice());
            let key = lower_chars(joined.as_slice());
            proof {
                lemma_push_all_snoc(e0, keys.take(i as int), key@, n);
                assert(keys.take(i as int).push(key@) =~= keys.take(i + 1));
            }
            self.suffix_map.push_index(key, n);
            i = i + 1;
        }
        assert(keys.take(segs@.len() as int) =~= keys);
        proof {
            let b = n as int;
            if old(self).positions_in_bounds() {
                lemma_below_mono(old(self).path_map.entries(), b, b + 1);
                lemma_below_mono(old(self).name_map.entries(), b, b + 1);
                lemma_below_mono(e0, b, b + 1);
                lemma_push_below(old(self).path_map.entries(), item.path@, n, b + 1);
                lemma_push_below(old(self).name_map.entries(), lower(item.name@), n, b + 1);
                lemma_push_all_below(e0, keys, n, b + 1);
            }
        }
        self.items.push(item);
        proof {
            if old(self).children_in_bounds() && (forall|j: int|
                0 <= j < item.children@.len() ==> #[trigger] item.children@[j].index
                    <= old(self).items@.len()) {
                assert forall|i: int, j: int|
                    0 <= i < self.items@.len() && 0 <= j < self.items@[i].children@.len()
                    implies #[trigger] self.items@[i].children@[j].index < self.items@.len() by {
                    if i < n {
                        assert(old(self).items@[i].children@[j].index < n);
                    } else {
                        assert(item.children@[j].index <= n);
                    }
                }
            }
        }
    }

    /// Returns a reference to the item at the given position.
    pub fn get(&self, index: usize) -> (r: &IndexItem)
        requires
            index < self.items@.len(),
        ensures
            *r == self.items@[index as int],
    {
        &self.items[index]
    }

    /// Returns trait implementations recorded for the given position (empty when none).
    pub fn item_trait_impls(&self, index: usize) -> (r: Vec<TraitImplInfo>)
        ensures
            r@ == match self.trait_impls.spec_get(index) {
                Some(v) => v,
                None => Seq::empty(),
            },
    {
        match self.trait_impls.get(index) {
            Some(v) => clone_impls(v),
            None => Vec::new(),
        }
    }

    /// Returns item positions recorded under the exact path.
    pub fn lookup_by_path(&self, path: &str) -> (r: Vec<usize>)
        ensures
            r@ == self.path_map.get_or_empty(path@),
    {
        match self.path_map.get(path) {
            Some(v) => clone_positions(v),
            None => Vec::new(),
        }
    }

    /// Returns item positions recorded under the lowercased item name.
    pub fn lookup_by_name(&self, name: &str) -> (r: Vec<usize>)
        ensures
            r@ == self.name_map.get_or_empty(name@),
    {
        match self.name_map.get(name) {
            Some(v) => clone_positions(v),
            None => Vec::new(),
        }
    }

    /// Returns item positions recorded under the lowercased path suffix.
    pub fn lookup_by_suffix(&self, suffix: &str) -> (r: Vec<usize>)
        ensures
            r@ == self.suffix_map.get_or_empty(suffix@),
    {
        match self.suffix_map.get(suffix) {
            Some(v) => clone_positions(v),
            None => Vec::new(),
        }
    }

    /// Returns the number of items in the index.
    pub fn len(&self) -> (r: usize)
        ensures
            r == self.items@.len(),
    {
        self.items.len()
    }
}

/// Copies a list of positions.
pub fn clone_positions(v: &Vec<usize>) -> (r: Vec<usize>)
    ensures
        r@ == v@,
{
    let mut r: Vec<usize> = Vec::new();
    let mut i: usize = 0;
    while i < v.len()
        invariant
            i <= v@.len(),
            r@ == v@.take(i as int),
        decreases v.len() - i,
    {
        r.push(v[i]);
        i = i + 1;
        assert(r@ =~= v@.take(i as int));
    }
    assert(v@.take(v@.len() as int) =~= v@);
    r
}

/// Copies a trait implementation record.
pub fn clone_impl(t: &TraitImplInfo) -> (r: TraitImplInfo)
    ensures
        r == *t,
{
    TraitImplInfo { trait_path: t.trait_path.clone(), is_synthetic: t.is_synthetic }
}

/// Copies a list of trait implementation records.
pub fn clone_impls(v: &Vec<TraitImplInfo>) -> (r: Vec<TraitImplInfo>)
    ensures
        r@ == v@,
{
    let mut r: Vec<TraitImplInfo> = Vec::new();
    let mut i: usize = 0;
    while i < v.len()
        invariant
            i <= v@.len(),
            r@ == v@.take(i as int),
        decreases v.len() - i,
    {
        r.push(clone_impl(&v[i]));
        i = i + 1;
        assert(r@ =~= v@.take(i as int));
    }
    assert(v@.take(v@.len() as int) =~= v@);
    r
}

/// Output of the query engine's lookup pipeline.
#[derive(Debug)]
pub enum QueryResult {
    /// Exactly one item matched.
    Found {
        /// Position in `DocIndex.items`.
        index: usize,
    },
    /// Multiple items matched.
    Ambiguous {
        /// Item positions ordered by priority.
        indices: Vec<usize>,
        /// The original query string.
        query: String,
    },
    /// Nothing matched.
    NotFound {
        /// The original query string.
        query: String,
        /// Near-match suggestions.
        suggestions: Vec<String>,
    },
}

/// A search hit.
#[derive(Debug, Clone, Copy, PartialEq, Eq)]
pub struct SearchResult {
    /// Position in `DocIndex.items`.
    pub index: usize,
    /// Score: higher is better.
    pub score: u32,
}

/// Controls truncation limits for display output.
#[derive(Debug, Clone, Copy, PartialEq, Eq)]
pub struct DisplayLimits {
    /// Maximum doc text length in bytes. Default: 1500.
    pub max_doc_length: usize,
    /// Whether to expand all output (no truncation). Default: false, so
    /// rendered docs are cut to about 1500 bytes.
    pub expand_all: bool,
}

impl Default for DisplayLimits {
    fn default() -> (r: Self)
        ensures
            r.max_doc_length == 1500,
            !r.expand_all,
    {
        DisplayLimits { max_doc_length: 1500, expand_all: false }
    }
}

/// The category of a given display position.
pub open spec fn category_at(r: nat) -> KindCategory {
    if r == 0 { KindCategory::Modules } else if r == 1 { KindCategory::Structs }
    else if r == 2 { KindCategory::Enums } else if r == 3 { KindCategory::Unions }
    else if r == 4 { KindCategory::Traits } else if r == 5 { KindCategory::Functions }
    else if r == 6 { KindCategory::TypeAliases } else if r == 7 { KindCategory::Constants }
    else if r == 8 { KindCategory::Statics } else if r == 9 { KindCategory::Macros }
    else if r == 10 { KindCategory::Variants } else if r == 11 { KindCategory::Fields }
    else { KindCategory::Primitives }
}

fn category_at_exec(r: u8) -> (c: KindCategory)
    ensures
        c == category_at(r as nat),
{
    if r == 0 { KindCategory::Modules } else if r == 1 { KindCategory::Structs }
    else if r == 2 { KindCategory::Enums } else if r == 3 { KindCategory::Unions }
    else if r == 4 { KindCategory::Traits } else if r == 5 { KindCategory::Functions }
    else if r == 6 { KindCategory::TypeAliases } else if r == 7 { KindCategory::Constants }
    else if r == 8 { KindCategory::Statics } else if r == 9 { KindCategory::Macros }
    else if r == 10 { KindCategory::Variants } else if r == 11 { KindCategory::Fields }
    else { KindCategory::Primitives }
}

/// One display group: a category and item positions sorted by name.
#[derive(Debug)]
pub struct Group {
    /// The category of every item in the group.
    pub category: KindCategory,
    /// Positions of the items, sorted by name.
    pub items: Vec<usize>,
}

/// Items grouped by category, in category display order; empty groups are absent.
#[derive(Debug)]
pub struct GroupedItems {
    /// The non-empty groups, in category order.
    pub groups: Vec<Group>,
}

/// The entries `(0, name, position)` of the positions whose item is in category `c`.
pub open spec fn category_entries(items: Seq<IndexItem>, pos: Seq<usize>, c: KindCategory) -> Seq<
    crate::sort::EntryView,
> {
    pos.filter(|p: usize| p < items.len() && spec_meta(items[p as int].kind).category == c).map_values(
        |p: usize| (0u64, items[p as int].name@, p),
    )
}

/// The positions of category `c`, sorted by name (stable).
pub open spec fn category_group(items: Seq<IndexItem>, pos: Seq<usize>, c: KindCategory) -> Seq<
    usize,
> {
    crate::sort::payloads(crate::sort::stable_sort(category_entries(items, pos, c)))
}

/// The non-empty groups among the first `r` categories, in category order.
pub open spec fn groups_upto(items: Seq<IndexItem>, pos: Seq<usize>, r: nat) -> Seq<
    (KindCategory, Seq<usize>),
>
    decreases r,
{
    if r == 0 {
        seq![]
    } else {
        let prev = groups_upto(items, pos, (r - 1) as nat);
        let g = category_group(items, pos, category_at((r - 1) as nat));
        if g.len() == 0 {
            prev
        } else {
            prev.push((category_at((r - 1) as nat), g))
        }
    }
}

/// The view of grouped items.
pub open spec fn grouped_view(g: GroupedItems) -> Seq<(KindCategory, Seq<usize>)> {
    g.groups@.map_values(|x: Group| (x.category, x.items@))
}

/// Sorting never changes the number of entries.
pub proof fn lemma_stable_sort_len(s: Seq<crate::sort::EntryView>)
    ensures
        crate::sort::stable_sort(s).len() == s.len(),
    decreases s.len(),
{
    if s.len() > 0 {
        lemma_stable_sort_len(s.drop_last());
        lemma_insert_sorted_len(crate::sort::stable_sort(s.drop_last()), s.last());
    }
}

proof fn lemma_insert_sorted_len(s: Seq<crate::sort::EntryView>, x: crate::sort::EntryView)
    ensures
        crate::sort::insert_sorted(s, x).len() == s.len() + 1,
    decreases s.len(),
{
    if s.len() > 0 {
        lemma_insert_sorted_len(s.drop_last(), x);
    }
}

impl GroupedItems {
    /// Number of non-empty groups.
    pub fn len(&self) -> (r: usize)
        ensures
            r == self.groups@.len(),
    {
        self.groups.len()
    }

    /// The positions grouped under `c`, if that group is present.
    pub fn get(&self, c: KindCategory) -> (r: Option<&Vec<usize>>)
        ensures
            r matches Some(v) ==> exists|i: int|
                0 <= i < self.groups@.len() && self.groups@[i].category == c && self.groups@[i].items@
                    == v@,
            r is None ==> forall|i: int| 0 <= i < self.groups@.len() ==> self.groups@[i].category != c,
    {
        let mut i: usize = 0;
        while i < self.groups.len()
            invariant
                i <= self.groups@.len(),
                forall|j: int| 0 <= j < i ==> self.groups@[j].category != c,
            decreases self.groups.len() - i,
        {
            if self.groups[i].category == c {
                return Some(&self.groups[i].items);
            }
            i = i + 1;
        }
        None
    }

    /// Whether a group for `c` is present.
    pub fn contains_key(&self, c: KindCategory) -> (r: bool)
        ensures
            r == exists|i: int| 0 <= i < self.groups@.len() && self.groups@[i].category == c,
    {
        self.get(c).is_some()
    }
}

/// Groups the given item positions by category (in display order) and sorts
/// each group by name (stable). Empty categories are absent.
pub fn group_items(items: &[IndexItem], positions: &[usize]) -> (r: GroupedItems)
    requires
        forall|j: int| 0 <= j < positions@.len() ==> positions@[j] < items@.len(),
    ensures
        grouped_view(r) == groups_upto(items@, positions@, 13),
{
    let mut groups: Vec<Group> = Vec::new();
    let mut rank: u8 = 0;
    while rank < 13
        invariant
            rank <= 13,
            forall|j: int| 0 <= j < positions@.len() ==> positions@[j] < items@.len(),
            groups@.map_values(|x: Group| (x.category, x.items@)) == groups_upto(
                items@,
                positions@,
                rank as nat,
            ),
        decreases 13 - rank,
    {
        let c = category_at_exec(rank);
        let mut entries: Vec<crate::sort::SortEntry> = Vec::new();
        let mut i: usize = 0;
        let ghost pred = |p: usize| p < items@.len() && spec_meta(items@[p as int].kind).category == c;
        let ghost mapf = |p: usize| (0u64, items@[p as int].name@, p);
        assert(positions@.take(0).filter(pred) =~= Seq::<usize>::empty());
        while i < positions.len()
            invariant
                i <= positions@.len(),
                forall|j: int| 0 <= j < positions@.len() ==> positions@[j] < items@.len(),
                crate::sort::entry_views(entries@) == positions@.take(i as int).filter(pred).map_values(
                    mapf,
                ),
                pred == (|p: usize| p < items@.len() && spec_meta(items@[p as int].kind).category == c),
                mapf == (|p: usize| (0u64, items@[p as int].name@, p)),
            decreases positions.len() - i,
        {
            let p = positions[i];
            let ghost old_e = crate::sort::entry_views(entries@);
            proof {
                reveal_with_fuel(Seq::<_>::filter, 1);
            }
            assert(positions@.take(i + 1).drop_last() =~= positions@.take(i as int));
            if items[p].kind.category() == c {
                let name = chars_of(items[p].name.as_str());
                entries.push(crate::sort::SortEntry { major: 0, minor: name, item: p });
                assert(crate::sort::entry_views(entries@) =~= old_e.push(mapf(p)));
            }
            i = i + 1;
        }
        assert(positions@.take(positions@.len() as int) =~= positions@);
        let sorted = crate::sort::sort_entries(entries);
        let sorted_pos = crate::sort::entry_payloads(&sorted);
        proof {
            lemma_stable_sort_len(category_entries(items@, positions@, c));
        }
        let ghost old_g = groups@.map_values(|x: Group| (x.category, x.items@));
        if sorted_pos.len() > 0 {
            groups.push(Group { category: c, items: sorted_pos });
            assert(groups@.map_values(|x: Group| (x.category, x.items@)) =~= old_g.push(
                (c, category_group(items@, positions@, c)),
            ));
        }
        rank = rank + 1;
    }
    GroupedItems { groups }
}

} // verus!
