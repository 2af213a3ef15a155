//! The parts of a rustdoc JSON crate that the index is built from, as plain
//! values: items keyed by numeric id, what each kind of item contains, and
//! the path summaries rustdoc records for every id it knows.
use vstd::prelude::*;
use crate::signature::SigItem;
use crate::types::{ItemKind, SourceSpan};

verus! {

/// Who can see an item.
#[derive(Debug, Clone, Copy, PartialEq, Eq, Structural)]
pub enum ItemVisibility {
    /// `pub`.
    Public,
    /// No modifier (trait items and enum variants inherit their parent's).
    Default,
    /// `pub(crate)`.
    Crate,
    /// `pub(in path)`.
    Restricted,
}

/// The fields of a struct, by id.
pub enum FieldIds {
    /// Named fields.
    Plain(Vec<u32>),
    /// Tuple fields; stripped fields have no id.
    Tuple(Vec<Option<u32>>),
    /// No fields.
    Unit,
}

/// An `impl` block.
pub struct ImplBlock {
    /// The associated items of the block.
    pub items: Vec<u32>,
    /// The implemented trait's path; `None` for an inherent impl.
    pub trait_path: Option<String>,
    /// Whether this is a blanket impl (`impl<T: Bound> Trait for T`).
    pub is_blanket: bool,
    /// Whether the compiler generated it (auto traits).
    pub is_synthetic: bool,
    /// The implementing type when it is a resolved path: its id and path text.
    pub for_path: Option<(u32, String)>,
}

/// A `use` declaration.
pub struct UseDecl {
    /// The full path imported.
    pub source: String,
    /// The name it is imported as.
    pub name: String,
    /// The imported item, when rustdoc knows it.
    pub target: Option<u32>,
    /// Whether it is `use source::*`.
    pub is_glob: bool,
}

/// What kind of item an id denotes, with the ids it contains.
pub enum ItemInner {
    Module(Vec<u32>),
    ExternCrate,
    Use(UseDecl),
    Union { impls: Vec<u32> },
    Struct { fields: FieldIds, impls: Vec<u32> },
    StructField,
    Enum { variants: Vec<u32>, impls: Vec<u32> },
    Variant,
    Function { has_body: bool },
    Trait { items: Vec<u32> },
    TraitAlias,
    Impl(ImplBlock),
    TypeAlias,
    Constant,
    Static,
    ExternType,
    Macro,
    ProcMacro,
    Primitive,
    AssocConst,
    AssocType,
}

/// One item of the crate.
pub struct CrateItem {
    /// Its id.
    pub id: u32,
    /// Its name, when it has one.
    pub name: Option<String>,
    /// Its visibility.
    pub visibility: ItemVisibility,
    /// What it is.
    pub inner: ItemInner,
    /// Its doc comment.
    pub docs: Option<String>,
    /// Its attributes other than the ones rustdoc parses itself.
    pub attrs: Vec<String>,
    /// Where it is defined.
    pub span: SourceSpan,
    /// What its signature is rendered from.
    pub sig: SigItem,
}

/// The kind rustdoc records in a path summary.
#[derive(Debug, Clone, Copy, PartialEq, Eq, Structural)]
pub enum SummaryKind {
    Module,
    ExternCrate,
    Use,
    Struct,
    StructField,
    Union,
    Enum,
    Variant,
    Function,
    TypeAlias,
    Constant,
    Trait,
    TraitAlias,
    Impl,
    Static,
    ExternType,
    Macro,
    ProcAttribute,
    ProcDerive,
    AssocConst,
    AssocType,
    Primitive,
    Keyword,
    Attribute,
}

/// A path summary: the full path of an id, local or from another crate.
pub struct PathEntry {
    /// The id.
    pub id: u32,
    /// The path's segments.
    pub path: Vec<String>,
    /// The kind of the item.
    pub kind: SummaryKind,
}

/// A crate as rustdoc describes it: items and path summaries, each sorted
/// by id with no id twice (they come from maps keyed by id).
pub struct CrateModel {
    /// The id of the crate's root module.
    pub root: u32,
    /// The items, by increasing id.
    pub items: Vec<CrateItem>,
    /// The path summaries, by increasing id.
    pub paths: Vec<PathEntry>,
}

/// Item ids strictly increase.
pub open spec fn items_sorted(s: Seq<CrateItem>) -> bool {
    forall|i: int, j: int| 0 <= i < j < s.len() ==> s[i].id < s[j].id
}

/// Summary ids strictly increase.
pub open spec fn paths_sorted(s: Seq<PathEntry>) -> bool {
    forall|i: int, j: int| 0 <= i < j < s.len() ==> s[i].id < s[j].id
}

impl CrateModel {
    /// Items and summaries are sorted by id, with no id twice.
    pub open spec fn wf(&self) -> bool {
        items_sorted(self.items@) && paths_sorted(self.paths@)
    }
}

/// The item with id `id`, if any.
pub open spec fn item_of(s: Seq<CrateItem>, id: u32) -> Option<CrateItem> {
    if exists|i: int| 0 <= i < s.len() && s[i].id == id {
        Some(s[choose|i: int| 0 <= i < s.len() && s[i].id == id])
    } else {
        None
    }
}

/// The summary for id `id`, if any.
pub open spec fn path_summary_of(s: Seq<PathEntry>, id: u32) -> Option<PathEntry> {
    if exists|i: int| 0 <= i < s.len() && s[i].id == id {
        Some(s[choose|i: int| 0 <= i < s.len() && s[i].id == id])
    } else {
        None
    }
}

/// In a sorted item list, the item at a position is the item of its id.
pub proof fn lemma_item_at(s: Seq<CrateItem>, p: int)
    requires
        items_sorted(s),
        0 <= p < s.len(),
    ensures
        item_of(s, s[p].id) == Some(s[p]),
{
    let id = s[p].id;
    assert(s[p].id == id);
    let q = choose|i: int| 0 <= i < s.len() && s[i].id == id;
    assert(q == p);
}

/// In a sorted summary list, the summary at a position is the summary of its id.
pub proof fn lemma_summary_at(s: Seq<PathEntry>, p: int)
    requires
        paths_sorted(s),
        0 <= p < s.len(),
    ensures
        path_summary_of(s, s[p].id) == Some(s[p]),
{
    let id = s[p].id;
    assert(s[p].id == id);
    let q = choose|i: int| 0 <= i < s.len() && s[i].id == id;
    assert(q == p);
}

impl CrateModel {
    /// Whether items and summaries are sorted by id with no id twice.
    pub fn check_wf(&self) -> (r: bool)
        ensures
            r == self.wf(),
    {
        let mut i: usize = 1;
        while i < self.items.len()
            invariant
                1 <= i,
                forall|a: int, b: int| 0 <= a < b < i && b < self.items@.len() ==> self.items@[a].id < self.items@[b].id,
            decreases self.items.len() - i,
        {
            if self.items[i - 1].id >= self.items[i].id {
                return false;
            }
            assert forall|a: int, b: int| 0 <= a < b < i + 1 && b < self.items@.len() implies self.items@[a].id < self.items@[b].id by {
                if b == i && a < i - 1 {
                    assert(self.items@[a].id < self.items@[i - 1].id);
                }
            }
            i = i + 1;
        }
        let mut j: usize = 1;
        while j < self.paths.len()
            invariant
                1 <= j,
                items_sorted(self.items@),
                forall|a: int, b: int| 0 <= a < b < j && b < self.paths@.len() ==> self.paths@[a].id < self.paths@[b].id,
            decreases self.paths.len() - j,
        {
            if self.paths[j - 1].id >= self.paths[j].id {
                return false;
            }
            assert forall|a: int, b: int| 0 <= a < b < j + 1 && b < self.paths@.len() implies self.paths@[a].id < self.paths@[b].id by {
                if b == j && a < j - 1 {
                    assert(self.paths@[a].id < self.paths@[j - 1].id);
                }
            }
            j = j + 1;
        }
        true
    }

    /// The position of the item with id `id`.
    pub fn find(&self, id: u32) -> (r: Option<usize>)
        requires
            items_sorted(self.items@),
        ensures
            match r {
                Some(p) => p < self.items@.len() && self.items@[p as int].id == id && item_of(
                    self.items@,
                    id,
                ) == Some(self.items@[p as int]),
                None => item_of(self.items@, id) is None,
            },
    {
        let mut lo: usize = 0;
        let mut hi: usize = self.items.len();
        while lo < hi
            invariant
                lo <= hi <= self.items@.len(),
                items_sorted(self.items@),
                forall|i: int| 0 <= i < lo ==> self.items@[i].id < id,
                forall|i: int| hi <= i < self.items@.len() ==> self.items@[i].id > id,
            decreases hi - lo,
        {
            let mid = lo + (hi - lo) / 2;
            let m = self.items[mid].id;
            if m == id {
                proof {
                    lemma_item_at(self.items@, mid as int);
                }
                return Some(mid);
            } else if m < id {
                lo = mid + 1;
            } else {
                hi = mid;
            }
        }
        assert(!(exists|i: int| 0 <= i < self.items@.len() && self.items@[i].id == id));
        None
    }

    /// The position of the summary for id `id`.
    pub fn find_summary(&self, id: u32) -> (r: Option<usize>)
        requires
            paths_sorted(self.paths@),
        ensures
            match r {
                Some(p) => p < self.paths@.len() && self.paths@[p as int].id == id && path_summary_of(
                    self.paths@,
                    id,
                ) == Some(self.paths@[p as int]),
                None => path_summary_of(self.paths@, id) is None,
            },
    {
        let mut lo: usize = 0;
        let mut hi: usize = self.paths.len();
        while lo < hi
            invariant
                lo <= hi <= self.paths@.len(),
                paths_sorted(self.paths@),
                forall|i: int| 0 <= i < lo ==> self.paths@[i].id < id,
                forall|i: int| hi <= i < self.paths@.len() ==> self.paths@[i].id > id,
            decreases hi - lo,
        {
            let mid = lo + (hi - lo) / 2;
            let m = self.paths[mid].id;
            if m == id {
                proof {
                    lemma_summary_at(self.paths@, mid as int);
                }
                return Some(mid);
            } else if m < id {
                lo = mid + 1;
            } else {
                hi = mid;
            }
        }
        assert(!(exists|i: int| 0 <= i < self.paths@.len() && self.paths@[i].id == id));
        None
    }
}

} // verus!
