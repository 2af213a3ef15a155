//! `--source` mode: which items to show, and the lines of a source file
//! that an item's span covers.
use vstd::prelude::*;
use crate::cli::string_views;
use crate::error::GroxError;
use crate::query::{qr_view, QueryView};
use crate::render::display::child_positions;
use crate::render::markdown::md_lines;
use crate::render::text::all_below;
use crate::stdlib::lines_exec;
use crate::text::{chars_of, join, join_exec, string_of};
use crate::types::{spec_matches_filter, DocIndex, IndexItem, ItemKind, QueryResult};

verus! {

/// What `--source` shows.
pub enum SourcePlan {
    /// The source of one item.
    Single(usize),
    /// The sources of several items, one after the other.
    Several(Vec<usize>),
}

/// The children of a module shown under a kind filter: the public ones of
/// the filtered kind, in child order, among the first `k` children.
pub open spec fn matching_children(idx: &DocIndex, cs: Seq<usize>, f: ItemKind, k: int) -> Seq<usize>
    decreases k,
{
    if k <= 0 {
        seq![]
    } else {
        let prev = matching_children(idx, cs, f, k - 1);
        let c = idx.items@[cs[k - 1] as int];
        if c.is_public && spec_matches_filter(c.kind, f) {
            prev.push(cs[k - 1])
        } else {
            prev
        }
    }
}

/// What [`source_plan`] decides: under a kind filter a module shows the
/// sources of its matching public children (failing when there are none);
/// any other found item shows its own source; ambiguous matches show all
/// their sources.
pub open spec fn spec_source_plan(idx: &DocIndex, v: QueryView, kf: Option<ItemKind>) -> Option<(bool, Seq<usize>)> {
    match v {
        QueryView::Found(i) => {
            let it = idx.items@[i as int];
            if kf is Some && it.kind == ItemKind::Module {
                let cs = child_positions(it);
                let m = matching_children(idx, cs, kf->0, cs.len() as int);
                if m.len() == 0 {
                    None
                } else {
                    Some((false, m))
                }
            } else {
                Some((true, seq![i]))
            }
        },
        QueryView::Ambiguous(s, _) => Some((false, s)),
        QueryView::NotFound(_, _) => None,
    }
}

/// The abstract value of a plan: whether it is a single item, and the
/// items.
pub open spec fn plan_view(p: SourcePlan) -> (bool, Seq<usize>) {
    match p {
        SourcePlan::Single(i) => (true, seq![i]),
        SourcePlan::Several(v) => (false, v@),
    }
}

/// Decides which items `--source` shows.
pub fn source_plan(index: &DocIndex, result: &QueryResult, kind_filter: Option<ItemKind>) -> (r: Result<SourcePlan, GroxError>)
    requires
        index.children_in_bounds(),
        crate::query::found_in_bounds(index, qr_view(*result)),
    ensures
        match spec_source_plan(index, qr_view(*result), kind_filter) {
            Some(p) => r matches Ok(plan) && plan_view(plan) == p,
            None => r matches Err(GroxError::ItemNotFound { query, crate_name, suggestions })
                && (crate_name matches Some(c) && c@ == index.crate_name@) && match qr_view(*result) {
                QueryView::NotFound(q, sugg) => query@ == q && string_views(suggestions@) == sugg,
                QueryView::Found(i) => query@ == index.items@[i as int].path@ && suggestions@.len() == 0,
                _ => false,
            },
        },
{
    let crate_name = string_of(chars_of(index.crate_name.as_str()).as_slice());
    match result {
        QueryResult::Found { index: i } => {
            let it = &index.items[*i];
            match kind_filter {
                Some(f) => {
                    if let ItemKind::Module = it.kind {
                        let ghost cs = child_positions(*it);
                        let mut m: Vec<usize> = Vec::new();
                        let mut k: usize = 0;
                        while k < it.children.len()
                            invariant
                                index.children_in_bounds(),
                                *i < index.items@.len(),
                                *it == index.items@[*i as int],
                                cs == child_positions(*it),
                                k <= it.children@.len(),
                                m@ == matching_children(index, cs, f, k as int),
                            decreases it.children.len() - k,
                        {
                            let c = it.children[k].index;
                            assert(cs[k as int] == c);
                            assert(c < index.items@.len());
                            let ci = &index.items[c];
                            if ci.is_public && ci.kind.matches_filter(f) {
                                m.push(c);
                            }
                            k = k + 1;
                        }
                        if m.len() == 0 {
                            return Err(GroxError::ItemNotFound {
                                query: string_of(chars_of(it.path.as_str()).as_slice()),
                                crate_name: Some(crate_name),
                                suggestions: Vec::new(),
                            });
                        }
                        return Ok(SourcePlan::Several(m));
                    }
                    Ok(SourcePlan::Single(*i))
                },
                None => Ok(SourcePlan::Single(*i)),
            }
        },
        QueryResult::Ambiguous { indices, .. } => Ok(
            SourcePlan::Several(crate::render::dispatch::copy_positions(indices)),
        ),
        QueryResult::NotFound { query, suggestions } => Err(GroxError::ItemNotFound {
            query: string_of(chars_of(query.as_str()).as_slice()),
            crate_name: Some(crate_name),
            suggestions: crate::cli::clone_strings(suggestions),
        }),
    }
}

/// Whether an item's span names a file and lines to read.
pub fn span_readable(item: &IndexItem) -> (r: bool)
    ensures
        r == (item.span.file@.len() > 0 && !(item.span.line_start == 0 && item.span.line_end == 0)),
{
    !item.span.file.as_str().is_empty() && !(item.span.line_start == 0 && item.span.line_end == 0)
}

/// The lines `line_start..=line_end` (1-based) of a file's content, joined
/// by newlines; nothing when the range starts past the end or is empty.
/// Line 0 counts as line 1, and the end is cut at the last line.
pub open spec fn spec_source_excerpt(content: Seq<char>, line_start: u32, line_end: u32) -> Option<Seq<char>> {
    let ls = md_lines(content);
    let start: int = if line_start == 0 { 0 } else { line_start - 1 };
    let end: int = if line_end < ls.len() { line_end as int } else { ls.len() as int };
    if start >= ls.len() || start >= end {
        None
    } else {
        Some(join(ls.subrange(start, end), seq!['\n']))
    }
}

/// Cuts the lines an item's span covers out of its source file.
pub fn source_excerpt(content: &str, line_start: u32, line_end: u32) -> (r: Option<String>)
    ensures
        match r {
            Some(s) => spec_source_excerpt(content@, line_start, line_end) == Some(s@),
            None => spec_source_excerpt(content@, line_start, line_end) is None,
        },
{
    let ls = lines_exec(chars_of(content).as_slice());
    let ghost lv = ls@.map_values(|v: Vec<char>| v@);
    let start: usize = if line_start == 0 { 0 } else { (line_start - 1) as usize };
    let end: usize = if (line_end as usize) < ls.len() { line_end as usize } else { ls.len() };
    if start >= ls.len() || start >= end {
        return None;
    }
    let mut part: Vec<Vec<char>> = Vec::new();
    let mut k: usize = start;
    while k < end
        invariant
            start <= k <= end <= ls@.len(),
            lv == ls@.map_values(|v: Vec<char>| v@),
            part@.map_values(|v: Vec<char>| v@) == lv.subrange(start as int, k as int),
        decreases end - k,
    {
        let ghost before = part@.map_values(|v: Vec<char>| v@);
        part.push(crate::text::copy_chars(ls[k].as_slice()));
        assert(part@.map_values(|v: Vec<char>| v@) =~= before.push(lv[k as int]));
        assert(lv.subrange(start as int, k + 1) =~= lv.subrange(start as int, k as int).push(lv[k as int]));
        k = k + 1;
    }
    let mut nl: Vec<char> = Vec::new();
    nl.push('\n');
    assert(nl@ =~= seq!['\n']);
    Some(string_of(join_exec(part.as_slice(), nl.as_slice()).as_slice()))
}

} // verus!
