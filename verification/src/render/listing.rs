//! Recursive listings grouped by module: with full docs, and as a table.
use vstd::prelude::*;
use crate::render::brief::{by_module, kind_word, lemma_by_module_positions, module_order};
use crate::render::markdown::{md_lines, spec_strip_markdown, strip_markdown_chars};
use crate::render::text::gate_of;
use crate::render::truncate::{byte_len, feature_gate_suffix};
use crate::sort::{entry_views, EntryView};
use crate::text::{
    append, append_padded, append_str, chars_of, pad_right, split, split_exec, slice_to_vec,
    string_of, trim_end_char, trim_end_char_exec,
};
use crate::types::IndexItem;

verus! {

/// The doc lines of the docs view: blank lines stay blank, others are
/// indented by four spaces.
pub open spec fn doc_lines(ls: Seq<Seq<char>>) -> Seq<char>
    decreases ls.len(),
{
    if ls.len() == 0 {
        seq![]
    } else {
        doc_lines(ls.drop_last()) + if ls.last().len() == 0 {
            seq!['\n']
        } else {
            seq![' ', ' ', ' ', ' '] + ls.last() + seq!['\n']
        }
    }
}

/// One item of the docs view: `<kind>  <path>`, the signature indented by
/// four spaces, and the stripped docs line by line after a blank line (the
/// default display limits expand everything, so nothing is truncated).
pub open spec fn item_with_docs(it: IndexItem) -> Seq<char> {
    kind_word(it) + seq![' ', ' '] + it.path@ + gate_of(it) + seq!['\n'] + (if it.signature@.len() == 0 {
        seq![]
    } else {
        seq![' ', ' ', ' ', ' '] + it.signature@ + seq!['\n']
    }) + (if it.docs@.len() == 0 {
        seq![]
    } else {
        seq!['\n'] + doc_lines(md_lines(spec_strip_markdown(it.docs@)))
    })
}

/// What comes before an entry of a module-grouped listing: a header when
/// the module changes (after a blank line, except the first), else `sep`.
pub open spec fn module_lead(es: Seq<EntryView>, k: int, header_tail: Seq<char>, sep: Seq<char>) -> Seq<char> {
    if k == 0 {
        es[k].1 + seq![':', '\n'] + header_tail
    } else if es[k - 1].1 != es[k].1 {
        seq!['\n'] + es[k].1 + seq![':', '\n'] + header_tail
    } else {
        sep
    }
}

/// The docs view of the first `k` sorted entries.
pub open spec fn docs_listing(items: Seq<IndexItem>, es: Seq<EntryView>, k: int) -> Seq<char>
    decreases k,
{
    if k <= 0 {
        seq![]
    } else {
        docs_listing(items, es, k - 1) + module_lead(es, k - 1, seq!['\n'], seq!['\n']) + item_with_docs(
            items[es[k - 1].2 as int],
        )
    }
}

/// The recursive docs view: items grouped by parent module, each with its
/// docs, separated by blank lines.
pub open spec fn spec_render_docs_recursive(items: Seq<IndexItem>, root: Seq<char>) -> Seq<char> {
    let es = by_module(items, root);
    trim_end_char(docs_listing(items, es, es.len() as int), '\n')
}

fn append_doc_lines(out: &mut Vec<char>, tc: &[char])
    ensures
        final(out)@ == old(out)@ + doc_lines(md_lines(tc@)),
{
    let nlv: Vec<char> = vec!['\n'];
    assert(nlv@ =~= seq!['\n']);
    let parts = split_exec(tc, nlv.as_slice());
    let ghost pv = parts@.map_values(|v: Vec<char>| v@);
    proof {
        crate::text::lemma_split_nonempty(tc@, seq!['\n']);
    }
    let n = parts.len();
    let cnt = if n > 0 && parts[n - 1].len() == 0 { n - 1 } else { n };
    let ghost ls = md_lines(tc@);
    let ghost start = old(out)@;
    let mut k: usize = 0;
    assert(start + doc_lines(ls.take(0)) =~= start);
    while k < cnt
        invariant
            k <= cnt <= n,
            n == parts@.len(),
            pv == parts@.map_values(|v: Vec<char>| v@),
            pv == split(tc@, seq!['\n']),
            ls == md_lines(tc@),
            ls.len() == cnt,
            out@ == start + doc_lines(ls.take(k as int)),
        decreases cnt - k,
    {
        assert(ls.take(k + 1).drop_last() =~= ls.take(k as int));
        let p = &parts[k];
        let line: Vec<char> = if k + 1 < n && p.len() > 0 && p[p.len() - 1] == '\r' {
            slice_to_vec(p.as_slice(), 0, p.len() - 1)
        } else {
            crate::text::copy_chars(p.as_slice())
        };
        assert(pv[k as int] == p@);
        assert(line@ =~= ls[k as int]);
        assert(ls.take(k + 1).last() == ls[k as int]);
        if line.len() == 0 {
            out.push('\n');
        } else {
            out.push(' ');
            out.push(' ');
            out.push(' ');
            out.push(' ');
            append(out, line.as_slice());
            out.push('\n');
        }
        k = k + 1;
    }
    assert(ls.take(cnt as int) =~= ls);
}

fn append_item_with_docs(out: &mut Vec<char>, it: &IndexItem)
    ensures
        final(out)@ == old(out)@ + item_with_docs(*it),
{
    let ghost o = old(out)@;
    append_str(out, it.kind.short_name());
    out.push(' ');
    out.push(' ');
    append_str(out, it.path.as_str());
    append_str(out, feature_gate_suffix(it.feature_gate.as_ref()).as_str());
    out.push('\n');
    if !it.signature.as_str().is_empty() {
        out.push(' ');
        out.push(' ');
        out.push(' ');
        out.push(' ');
        append_str(out, it.signature.as_str());
        out.push('\n');
    }
    if !it.docs.as_str().is_empty() {
        out.push('\n');
        let stripped = strip_markdown_chars(chars_of(it.docs.as_str()).as_slice());
        append_doc_lines(out, stripped.as_slice());
    }
    assert(out@ =~= o + item_with_docs(*it));
}

/// Renders a recursive listing with full docs per item.
pub fn render_docs_recursive(items: &[IndexItem], root_path: &str) -> (r: String)
    ensures
        r@ == spec_render_docs_recursive(items@, root_path@),
{
    let root = chars_of(root_path);
    let n = items.len();
    let order = module_order(items, root.as_slice());
    let ghost ev = entry_views(order@);
    let mut out: Vec<char> = Vec::new();
    let mut k: usize = 0;
    while k < order.len()
        invariant
            k <= order@.len(),
            ev == entry_views(order@),
            ev == by_module(items@, root@),
            n == items@.len(),
            out@ == docs_listing(items@, ev, k as int),
        decreases order.len() - k,
    {
        proof {
            lemma_by_module_positions(items@, root@, k as int);
        }
        let e = &order[k];
        let ghost before = out@;
        if k == 0 {
            append(&mut out, e.minor.as_slice());
            out.push(':');
            out.push('\n');
            out.push('\n');
        } else if !crate::text::chars_eq(order[k - 1].minor.as_slice(), e.minor.as_slice()) {
            out.push('\n');
            append(&mut out, e.minor.as_slice());
            out.push(':');
            out.push('\n');
            out.push('\n');
        } else {
            out.push('\n');
        }
        assert(out@ =~= before + module_lead(ev, k as int, seq!['\n'], seq!['\n']));
        append_item_with_docs(&mut out, &items[e.item]);
        k = k + 1;
    }
    string_of(trim_end_char_exec(out.as_slice(), '\n').as_slice())
}

// ---------------------------------------------------------------------------
// Table listing
// ---------------------------------------------------------------------------

/// Column widths: the widest kind name (in characters), path and signature
/// (in bytes) over all items.
pub open spec fn column_widths(items: Seq<IndexItem>) -> (nat, nat, nat)
    decreases items.len(),
{
    if items.len() == 0 {
        (0, 0, 0)
    } else {
        let (k, p, s) = column_widths(items.drop_last());
        let it = items.last();
        let k2 = kind_word(it).len();
        let p2 = byte_len(it.path@);
        let s2 = byte_len(it.signature@);
        (if k2 > k { k2 } else { k }, if p2 > p { p2 } else { p }, if s2 > s { s2 } else { s })
    }
}

/// One table row: kind, path, signature and summary columns; a missing
/// signature leaves its column blank when there is a summary.
pub open spec fn table_row(it: IndexItem, w: (nat, nat, nat)) -> Seq<char> {
    let has_sig = it.signature@.len() > 0;
    let summary = it.summary@ + gate_of(it);
    let has_summary = summary.len() > 0;
    seq![' ', ' '] + pad_right(kind_word(it), w.0) + seq![' ', ' '] + pad_right(it.path@, w.1) + (if !has_sig
        && !has_summary {
        seq![]
    } else if !has_sig {
        seq![' ', ' '] + pad_right(seq![], w.2) + seq![' ', ' '] + summary
    } else if !has_summary {
        seq![' ', ' '] + pad_right(it.signature@, w.2)
    } else {
        seq![' ', ' '] + pad_right(it.signature@, w.2) + seq![' ', ' '] + summary
    }) + seq!['\n']
}

/// The table of the first `k` sorted entries.
pub open spec fn table_listing(items: Seq<IndexItem>, es: Seq<EntryView>, k: int, w: (nat, nat, nat)) -> Seq<char>
    decreases k,
{
    if k <= 0 {
        seq![]
    } else {
        table_listing(items, es, k - 1, w) + module_lead(es, k - 1, seq![], seq![]) + table_row(
            items[es[k - 1].2 as int],
            w,
        )
    }
}

/// The recursive table listing: items grouped by parent module, one row
/// each, columns aligned over all items.
pub open spec fn spec_render_list_recursive(items: Seq<IndexItem>, root: Seq<char>) -> Seq<char> {
    let es = by_module(items, root);
    trim_end_char(table_listing(items, es, es.len() as int, column_widths(items)), '\n')
}

fn column_widths_exec(items: &[IndexItem]) -> (r: (usize, usize, usize))
    ensures
        (r.0 as nat, r.1 as nat, r.2 as nat) == column_widths(items@),
{
    let mut k: usize = 0;
    let mut p: usize = 0;
    let mut s: usize = 0;
    let mut i: usize = 0;
    while i < items.len()
        invariant
            i <= items@.len(),
            (k as nat, p as nat, s as nat) == column_widths(items@.take(i as int)),
        decreases items.len() - i,
    {
        assert(items@.take(i + 1).drop_last() =~= items@.take(i as int));
        let it = &items[i];
        let k2 = chars_of(it.kind.short_name()).len();
        let pb = it.path.as_str().as_bytes();
        assert(pb@ == vstd::utf8::encode_utf8(it.path@));
        let sb = it.signature.as_str().as_bytes();
        assert(sb@ == vstd::utf8::encode_utf8(it.signature@));
        let p2 = pb.len();
        let s2 = sb.len();
        if k2 > k {
            k = k2;
        }
        if p2 > p {
            p = p2;
        }
        if s2 > s {
            s = s2;
        }
        i = i + 1;
    }
    assert(items@.take(items@.len() as int) =~= items@);
    (k, p, s)
}

fn append_table_row(out: &mut Vec<char>, it: &IndexItem, w: (usize, usize, usize))
    ensures
        final(out)@ == old(out)@ + table_row(*it, (w.0 as nat, w.1 as nat, w.2 as nat)),
{
    let ghost o = old(out)@;
    let g = feature_gate_suffix(it.feature_gate.as_ref());
    let mut summary = chars_of(it.summary.as_str());
    append_str(&mut summary, g.as_str());
    let has_sig = !it.signature.as_str().is_empty();
    let has_summary = summary.len() > 0;
    out.push(' ');
    out.push(' ');
    append_padded(out, chars_of(it.kind.short_name()).as_slice(), w.0);
    out.push(' ');
    out.push(' ');
    append_padded(out, chars_of(it.path.as_str()).as_slice(), w.1);
    if !has_sig && !has_summary {
    } else if !has_sig {
        out.push(' ');
        out.push(' ');
        let e: Vec<char> = Vec::new();
        append_padded(out, e.as_slice(), w.2);
        out.push(' ');
        out.push(' ');
        append(out, summary.as_slice());
    } else if !has_summary {
        out.push(' ');
        out.push(' ');
        append_padded(out, chars_of(it.signature.as_str()).as_slice(), w.2);
    } else {
        out.push(' ');
        out.push(' ');
        append_padded(out, chars_of(it.signature.as_str()).as_slice(), w.2);
        out.push(' ');
        out.push(' ');
        append(out, summary.as_slice());
    }
    out.push('\n');
    assert(out@ =~= o + table_row(*it, (w.0 as nat, w.1 as nat, w.2 as nat)));
}

/// Renders a recursive table listing of items grouped by parent module.
pub fn render_list_recursive(items: &[IndexItem], root_path: &str) -> (r: String)
    ensures
        r@ == spec_render_list_recursive(items@, root_path@),
{
    let root = chars_of(root_path);
    let n = items.len();
    let w = column_widths_exec(items);
    let ghost wv = (w.0 as nat, w.1 as nat, w.2 as nat);
    let order = module_order(items, root.as_slice());
    let ghost ev = entry_views(order@);
    let mut out: Vec<char> = Vec::new();
    let mut k: usize = 0;
    while k < order.len()
        invariant
            k <= order@.len(),
            ev == entry_views(order@),
            ev == by_module(items@, root@),
            n == items@.len(),
            wv == column_widths(items@),
            wv == (w.0 as nat, w.1 as nat, w.2 as nat),
            out@ == table_listing(items@, ev, k as int, wv),
        decreases order.len() - k,
    {
        proof {
            lemma_by_module_positions(items@, root@, k as int);
        }
        let e = &order[k];
        let ghost before = out@;
        if k == 0 {
            append(&mut out, e.minor.as_slice());
            out.push(':');
            out.push('\n');
        } else if !crate::text::chars_eq(order[k - 1].minor.as_slice(), e.minor.as_slice()) {
            out.push('\n');
            append(&mut out, e.minor.as_slice());
            out.push(':');
            out.push('\n');
        }
        assert(out@ =~= before + module_lead(ev, k as int, seq![], seq![]));
        append_table_row(&mut out, &items[e.item], w);
        k = k + 1;
    }
    string_of(trim_end_char_exec(out.as_slice(), '\n').as_slice())
}

} // verus!
