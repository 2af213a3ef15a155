//! Chooses what to print for a query result: the view of one item (text,
//! brief, JSON or trait implementations), the list of ambiguous matches, or
//! the not-found error.
use vstd::prelude::*;
use crate::cli::{spec_filter_kind, Cli, OutputMode};
use crate::error::GroxError;
use crate::query::{is_reexport_stub, qr_view, spec_is_reexport_stub, QueryView};
use crate::render::ambiguous::{
    at, paragraphs_ok, render_ambiguous, render_impls_other, render_impls_trait,
    render_impls_type, spec_render_ambiguous, spec_render_impls_other, spec_render_impls_trait,
    spec_render_impls_type, filter_trait_impls, spec_filter_impls,
};
use crate::render::brief::{render_brief, spec_render_brief};
use crate::render::display::{build_display_item, display_view, spec_display, DisplayItem, DisplayView};
use crate::render::text::{all_below, render_text, spec_render_text};
use crate::text::{chars_of, string_of};
use crate::types::{DisplayLimits, DocIndex, ItemKind, QueryResult};

verus! {

/// Bundles the parameters that every renderer needs.
pub struct RenderContext<'a> {
    /// The index being rendered.
    pub index: &'a DocIndex,
    /// Truncation limits for docs.
    pub limits: DisplayLimits,
    /// The output mode.
    pub mode: OutputMode,
    /// The kind filter of the query.
    pub kind_filter: Option<ItemKind>,
    /// Whether private items are shown.
    pub include_private: bool,
    /// The trait that the `--impls` view is narrowed to, if any.
    pub trait_filter: Option<String>,
}

/// The characters of an optional trait filter.
pub open spec fn filter_view(f: Option<String>) -> Option<Seq<char>> {
    match f {
        Some(s) => Some(s@),
        None => None,
    }
}

/// The trait filter that `--impls <TRAIT>` gives: none without the flag or
/// with an empty trait name.
pub open spec fn spec_cli_trait_filter(impls: Option<String>) -> Option<Seq<char>> {
    match impls {
        Some(f) => if f@.len() == 0 {
            None
        } else {
            Some(f@)
        },
        None => None,
    }
}

impl<'a> RenderContext<'a> {
    /// Creates a render context from CLI flags and an index.
    pub fn from_cli(index: &'a DocIndex, cli: &Cli) -> (r: Self)
        ensures
            r.index == index,
            r.limits.max_doc_length == 1500,
            !r.limits.expand_all,
            r.mode == (if cli.json {
                OutputMode::Json
            } else if cli.brief {
                OutputMode::Brief
            } else {
                OutputMode::Text
            }),
            r.kind_filter == match cli.kind {
                Some(k) => Some(spec_filter_kind(k)),
                None => None,
            },
            r.include_private == cli.private,
            filter_view(r.trait_filter) == spec_cli_trait_filter(cli.impls),
    {
        let trait_filter = match &cli.impls {
            Some(f) => {
                let fc = chars_of(f.as_str());
                if fc.len() == 0 {
                    None
                } else {
                    Some(string_of(fc.as_slice()))
                }
            },
            None => None,
        };
        let kind_filter = match cli.kind {
            Some(k) => Some(ItemKind::from(k)),
            None => None,
        };
        RenderContext {
            index,
            limits: DisplayLimits::default(),
            mode: cli.output_mode(),
            kind_filter,
            include_private: cli.private,
            trait_filter,
        }
    }
}

/// What to print for a query result.
pub enum OutputAction {
    /// The item at this position is a cross-crate re-export stub: follow it
    /// into its source crate first, then call [`render_found`] on the item it
    /// leads to (or on the stub, where it leads nowhere).
    FollowReexport(usize),
    /// Print this text.
    Text(String),
    /// Print this display item as JSON.
    Json(DisplayItem),
    /// Print these matches as JSON.
    JsonAmbiguous(Vec<usize>),
    /// List the contents of the item at this position recursively.
    Recursive(usize),
}

/// The abstract value of an output action.
pub enum ActionView {
    FollowReexport(usize),
    Text(Seq<char>),
    Json(DisplayView),
    JsonAmbiguous(Seq<usize>),
    Recursive(usize),
}

/// The abstract value of an action.
pub open spec fn action_view(a: OutputAction) -> ActionView {
    match a {
        OutputAction::FollowReexport(i) => ActionView::FollowReexport(i),
        OutputAction::Text(s) => ActionView::Text(s@),
        OutputAction::Json(d) => ActionView::Json(display_view(d)),
        OutputAction::JsonAmbiguous(v) => ActionView::JsonAmbiguous(v@),
        OutputAction::Recursive(i) => ActionView::Recursive(i),
    }
}

/// The `--impls` view of a display item: the trait implementations of a
/// type (only those of the filter's trait, when there is a filter), the
/// (unknown, so empty) implementors of a trait, or a note that other items
/// have no implementations.
pub open spec fn spec_render_impls(idx: &DocIndex, d: DisplayView, tf: Option<Seq<char>>) -> Seq<char> {
    match d {
        DisplayView::Type(i, _, _, t) => spec_render_impls_type(at(idx, i), spec_filter_impls(t, tf)),
        DisplayView::Trait(i, _, _) => spec_render_impls_trait(at(idx, i), seq![]),
        DisplayView::Crate(i, _) => spec_render_impls_other(at(idx, i)),
        DisplayView::Module(i, _) => spec_render_impls_other(at(idx, i)),
        DisplayView::Leaf(i) => spec_render_impls_other(at(idx, i)),
    }
}

/// Renders the `--impls` view for a display item.
pub fn render_impls(index: &DocIndex, display: &DisplayItem, trait_filter: Option<&str>) -> (r: String)
    requires
        crate::render::text::display_in_bounds(index, display_view(*display)),
    ensures
        r@ == spec_render_impls(
            index,
            display_view(*display),
            match trait_filter {
                Some(f) => Some(f@),
                None => None,
            },
        ),
{
    match display {
        DisplayItem::Type { item, trait_impls, .. } => match trait_filter {
            Some(f) => {
                let shown = filter_trait_impls(trait_impls, f);
                render_impls_type(&index.items[*item], &shown)
            },
            None => render_impls_type(&index.items[*item], trait_impls),
        },
        DisplayItem::Trait { item, .. } => {
            let none: Vec<String> = Vec::new();
            let r = render_impls_trait(&index.items[*item], none.as_slice());
            assert(none@ =~= Seq::<String>::empty());
            r
        },
        DisplayItem::Crate { item, .. } => render_impls_other(&index.items[*item]),
        DisplayItem::Module { item, .. } => render_impls_other(&index.items[*item]),
        DisplayItem::Leaf { item } => render_impls_other(&index.items[*item]),
    }
}

/// What is printed for the item at position `i`: its recursive listing, its
/// `--impls` view, or its display in the output mode.
pub open spec fn spec_found_action(
    idx: &DocIndex,
    i: usize,
    limits: DisplayLimits,
    mode: OutputMode,
    include_private: bool,
    recursive: bool,
    impls: bool,
    tf: Option<Seq<char>>,
) -> ActionView {
    let d = spec_display(idx, i, include_private);
    if recursive {
        ActionView::Recursive(i)
    } else if impls {
        ActionView::Text(spec_render_impls(idx, d, tf))
    } else {
        match mode {
            OutputMode::Json => ActionView::Json(d),
            OutputMode::Brief => ActionView::Text(spec_render_brief(idx, d)),
            OutputMode::Text => ActionView::Text(spec_render_text(idx, d, limits)),
        }
    }
}

/// Renders the item at position `idx` (after any re-export has been
/// followed).
pub fn render_found(ctx: &RenderContext, idx: usize, recursive: bool, impls: bool) -> (r: OutputAction)
    requires
        idx < ctx.index.items@.len(),
        ctx.index.children_in_bounds(),
    ensures
        action_view(r) == spec_found_action(
            ctx.index,
            idx,
            ctx.limits,
            ctx.mode,
            ctx.include_private,
            recursive,
            impls,
            filter_view(ctx.trait_filter),
        ),
{
    if recursive {
        return OutputAction::Recursive(idx);
    }
    let display = build_display_item(ctx.index, idx, ctx.include_private);
    if impls {
        let tf: Option<&str> = match &ctx.trait_filter {
            Some(f) => Some(f.as_str()),
            None => None,
        };
        return OutputAction::Text(render_impls(ctx.index, &display, tf));
    }
    match ctx.mode {
        OutputMode::Json => OutputAction::Json(display),
        OutputMode::Brief => OutputAction::Text(render_brief(ctx.index, &display)),
        OutputMode::Text => OutputAction::Text(render_text(ctx.index, &display, &ctx.limits)),
    }
}

/// A copy of a list of positions.
pub fn copy_positions(v: &Vec<usize>) -> (r: Vec<usize>)
    ensures
        r@ == v@,
{
    let mut r: Vec<usize> = Vec::new();
    let mut i: usize = 0;
    while i < v.len()
        invariant
            i <= v@.len(),
            r@ == v@.take(i as int),
        decreases v.len() - i,
    {
        r.push(v[i]);
        assert(v@.take(i + 1) =~= v@.take(i as int).push(v@[i as int]));
        i = i + 1;
    }
    assert(v@.take(i as int) =~= v@);
    r
}

/// The positions a query result refers to are positions of the index.
pub open spec fn result_in_bounds(idx: &DocIndex, v: QueryView) -> bool {
    match v {
        QueryView::Found(x) => x < idx.items@.len(),
        QueryView::Ambiguous(s, _) => all_below(s, idx.items@.len() as int),
        QueryView::NotFound(_, _) => true,
    }
}

/// What [`handle_output`] does: follow a re-export stub, render the found
/// item, or list the ambiguous matches (as JSON, or as text); nothing for a
/// result that found nothing.
pub open spec fn spec_handle_output(
    idx: &DocIndex,
    v: QueryView,
    limits: DisplayLimits,
    mode: OutputMode,
    include_private: bool,
    recursive: bool,
    impls: bool,
    tf: Option<Seq<char>>,
) -> Option<ActionView> {
    match v {
        QueryView::Found(i) => if spec_is_reexport_stub(at(idx, i)) {
            Some(ActionView::FollowReexport(i))
        } else {
            Some(spec_found_action(idx, i, limits, mode, include_private, recursive, impls, tf))
        },
        QueryView::Ambiguous(s, q) => match mode {
            OutputMode::Json => Some(ActionView::JsonAmbiguous(s)),
            _ => Some(ActionView::Text(spec_render_ambiguous(idx, s, q))),
        },
        QueryView::NotFound(_, _) => None,
    }
}

/// Chooses the output for a query result: default, brief, JSON or `--impls`
/// views of a found item (cross-crate re-export stubs are followed first),
/// the ambiguous-match list, or the not-found error.
pub fn handle_output(result: &QueryResult, ctx: &RenderContext, recursive: bool, impls: bool) -> (r: Result<OutputAction, GroxError>)
    requires
        ctx.index.children_in_bounds(),
        result_in_bounds(ctx.index, qr_view(*result)),
        (result matches QueryResult::Ambiguous { indices, .. } && ctx.mode != OutputMode::Json
            && indices@.len() <= 5) ==> paragraphs_ok(ctx.index, result->indices@),
    ensures
        match qr_view(*result) {
            QueryView::NotFound(q, sugg) => r matches Err(GroxError::ItemNotFound { query, crate_name, suggestions })
                && query@ == q && (crate_name matches Some(c) && c@ == ctx.index.crate_name@)
                && crate::cli::string_views(suggestions@) == sugg,
            _ => r matches Ok(a) && Some(action_view(a)) == spec_handle_output(
                ctx.index,
                qr_view(*result),
                ctx.limits,
                ctx.mode,
                ctx.include_private,
                recursive,
                impls,
                filter_view(ctx.trait_filter),
            ),
        },
{
    match result {
        QueryResult::Found { index } => {
            if is_reexport_stub(&ctx.index.items[*index]) {
                return Ok(OutputAction::FollowReexport(*index));
            }
            Ok(render_found(ctx, *index, recursive, impls))
        },
        QueryResult::Ambiguous { indices, query } => {
            match ctx.mode {
                OutputMode::Json => Ok(OutputAction::JsonAmbiguous(copy_positions(indices))),
                _ => Ok(OutputAction::Text(render_ambiguous(ctx.index, indices.as_slice(), query.as_str()))),
            }
        },
        QueryResult::NotFound { query, suggestions } => Err(GroxError::ItemNotFound {
            query: string_of(chars_of(query.as_str()).as_slice()),
            crate_name: Some(string_of(chars_of(ctx.index.crate_name.as_str()).as_slice())),
            suggestions: crate::cli::clone_strings(suggestions),
        }),
    }
}

/// Whether [`handle_output`] may be called with this result: its positions
/// are items of the index, and, for the text list of at most five ambiguous
/// matches, every first paragraph can be cut.
pub fn output_ready(ctx: &RenderContext, result: &QueryResult) -> (r: bool)
    ensures
        r == (result_in_bounds(ctx.index, qr_view(*result)) && ((result matches QueryResult::Ambiguous {
            indices,
            ..
        } && ctx.mode != OutputMode::Json && indices@.len() <= 5) ==> paragraphs_ok(
            ctx.index,
            result->indices@,
        ))),
{
    match result {
        QueryResult::Found { index } => *index < ctx.index.items.len(),
        QueryResult::Ambiguous { indices, query } => {
            assert(qr_view(*result) == QueryView::Ambiguous(indices@, query@));
            let n = ctx.index.items.len();
            let mut k: usize = 0;
            while k < indices.len()
                invariant
                    k <= indices@.len(),
                    n == ctx.index.items@.len(),
                    qr_view(*result) == QueryView::Ambiguous(indices@, query@),
                    forall|j: int| 0 <= j < k ==> #[trigger] indices@[j] < n,
                decreases indices.len() - k,
            {
                if indices[k] >= n {
                    assert(indices@[k as int] >= n);
                    assert(!all_below(indices@, n as int));
                    assert(!result_in_bounds(ctx.index, qr_view(*result)));
                    return false;
                }
                k = k + 1;
            }
            let json = match ctx.mode {
                OutputMode::Json => true,
                _ => false,
            };
            if json || indices.len() > 5 {
                true
            } else {
                crate::render::ambiguous::ambiguous_renderable(ctx.index, indices.as_slice())
            }
        },
        QueryResult::NotFound { .. } => true,
    }
}

} // verus!
