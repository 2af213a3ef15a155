//! Views of several matches, of trait implementations and of source code.
use vstd::prelude::*;
use crate::render::markdown::{spec_strip_markdown, strip_markdown_chars};
use crate::render::text::{all_below, impl_order, impl_order_exec};
use crate::render::truncate::{
    byte_len, ellipsis, feature_gate_suffix, is_terminator, spec_feature_gate_suffix,
};
use crate::render::text::gate_of;
use crate::render::brief::kind_word;
use crate::text::{
    append, append_padded, append_str, char_prefix_len, char_prefix_len_exec, chars_of, decimal,
    decimal_exec, find_from, find_from_exec, first_index_of, index_of_char, pad_right, path_sep,
    rfind, rfind_exec, segments, segments_exec, slice_to_vec, string_of, trim_end_char,
    trim_end_char_exec,
};
use crate::types::{spec_meta, DocIndex, IndexItem, ItemKind, TraitImplInfo};

verus! {

/// Most matches listed in the condensed view.
pub const MAX_SHOWN: usize = 10;

/// Bytes of documentation the first-paragraph view keeps at most.
pub const PARAGRAPH_BYTES: usize = 200;

// ---------------------------------------------------------------------------
// First paragraph
// ---------------------------------------------------------------------------

/// A sentence end at `i`: `.`, `!` or `?` followed by a space.
pub open spec fn sentence_end_at(s: Seq<char>, i: int) -> bool {
    0 <= i && i + 1 < s.len() && is_terminator(s[i]) && s[i + 1] == ' '
}

/// The position of the `need`-th sentence end at or after `i`.
pub open spec fn nth_sentence_end(s: Seq<char>, i: int, need: nat) -> Option<int>
    decreases s.len() - i,
{
    if i < 0 || i + 1 >= s.len() || need == 0 {
        None
    } else if sentence_end_at(s, i) {
        if need == 1 {
            Some(i)
        } else {
            nth_sentence_end(s, i + 1, (need - 1) as nat)
        }
    } else {
        nth_sentence_end(s, i + 1, need)
    }
}

/// The first paragraph of doc text: up to the first blank line, else the
/// first three sentences, else all of it when it ends a sentence or fits in
/// 200 bytes, else up to the first newline when that is within 200 bytes,
/// else the first 200 bytes cut back to the last space, with `...`.
/// `None` when that last cut would split a character (the byte-based cut
/// has no result there).
pub open spec fn spec_first_paragraph(docs: Seq<char>) -> Option<Seq<char>> {
    if docs.len() == 0 {
        Some(seq![])
    } else {
        match find_from(docs, seq!['\n', '\n'], 0) {
            Some(p) => Some(docs.take(p)),
            None => match nth_sentence_end(docs, 0, 3) {
                Some(i) => Some(docs.take(i + 1)),
                None => if is_terminator(docs.last()) || byte_len(docs) <= PARAGRAPH_BYTES {
                    Some(docs)
                } else if first_index_of(docs, '\n') is Some && byte_len(
                    docs.take(first_index_of(docs, '\n')->0),
                ) <= PARAGRAPH_BYTES {
                    Some(docs.take(first_index_of(docs, '\n')->0))
                } else {
                    let k = char_prefix_len(docs, PARAGRAPH_BYTES as int);
                    if byte_len(docs.take(k as int)) != PARAGRAPH_BYTES {
                        None
                    } else {
                        match rfind(docs.take(k as int), seq![' ']) {
                            Some(pos) => Some(ellipsis(docs.take(pos))),
                            None => Some(ellipsis(docs.take(k as int))),
                        }
                    }
                },
            },
        }
    }
}

fn nth_sentence_end_exec(s: &[char]) -> (r: Option<usize>)
    ensures
        match r {
            Some(i) => nth_sentence_end(s@, 0, 3) == Some(i as int) && i + 1 < s@.len(),
            None => nth_sentence_end(s@, 0, 3) is None,
        },
{
    if s.len() < 2 {
        return None;
    }
    let mut i: usize = 0;
    let mut need: usize = 3;
    while i < s.len() - 1
        invariant
            s@.len() >= 2,
            i <= s@.len() - 1,
            1 <= need <= 3,
            nth_sentence_end(s@, 0, 3) == nth_sentence_end(s@, i as int, need as nat),
        decreases s.len() - i,
    {
        if (s[i] == '.' || s[i] == '!' || s[i] == '?') && s[i + 1] == ' ' {
            if need == 1 {
                return Some(i);
            }
            need = need - 1;
        }
        i = i + 1;
    }
    None
}

/// Extracts the first paragraph, or `None` where the byte-based cut would
/// split a character.
pub fn first_paragraph(docs: &str) -> (r: Option<String>)
    ensures
        match r {
            Some(p) => spec_first_paragraph(docs@) == Some(p@),
            None => spec_first_paragraph(docs@) is None,
        },
{
    let d = chars_of(docs);
    if d.len() == 0 {
        let e = String::new();
        assert(e@ =~= Seq::<char>::empty());
        return Some(e);
    }
    let bytes = docs.as_bytes();
    let nbytes = bytes.len();
    assert(bytes@ == vstd::utf8::encode_utf8(docs@));
    let pp: Vec<char> = vec!['\n', '\n'];
    assert(pp@ =~= seq!['\n', '\n']);
    if let Some(p) = find_from_exec(d.as_slice(), pp.as_slice(), 0) {
        proof {
            crate::text::lemma_find_from(d@, pp@, 0);
        }
        let t = slice_to_vec(d.as_slice(), 0, p);
        assert(t@ =~= docs@.take(p as int));
        return Some(string_of(t.as_slice()));
    }
    if let Some(i) = nth_sentence_end_exec(d.as_slice()) {
        let t = slice_to_vec(d.as_slice(), 0, i + 1);
        assert(t@ =~= docs@.take(i + 1));
        return Some(string_of(t.as_slice()));
    }
    let last = d[d.len() - 1];
    if last == '.' || last == '!' || last == '?' || nbytes <= PARAGRAPH_BYTES {
        return Some(docs.to_string());
    }
    if let Some(nl) = index_of_char(d.as_slice(), '\n') {
        proof {
            crate::text::lemma_first_index_of(d@, '\n');
            crate::text::lemma_utf8_prefix_mono(d@, nl as int, d@.len() as int);
            assert(d@.take(d@.len() as int) =~= d@);
        }
        let off = crate::text::byte_offset(d.as_slice(), nl);
        if off <= PARAGRAPH_BYTES {
            let t = slice_to_vec(d.as_slice(), 0, nl);
            assert(t@ =~= docs@.take(nl as int));
            return Some(string_of(t.as_slice()));
        }
    }
    let k = char_prefix_len_exec(d.as_slice(), PARAGRAPH_BYTES);
    proof {
        crate::text::lemma_utf8_prefix_mono(d@, k as int, d@.len() as int);
        assert(d@.take(d@.len() as int) =~= d@);
    }
    let kb = crate::text::byte_offset(d.as_slice(), k);
    if kb != PARAGRAPH_BYTES {
        return None;
    }
    let region = slice_to_vec(d.as_slice(), 0, k);
    assert(region@ =~= docs@.take(k as int));
    let sp: Vec<char> = vec![' '];
    assert(sp@ =~= seq![' ']);
    let mut out = match rfind_exec(region.as_slice(), sp.as_slice()) {
        Some(pos) => {
            let t = slice_to_vec(d.as_slice(), 0, pos);
            assert(t@ =~= docs@.take(pos as int));
            t
        },
        None => region,
    };
    let ghost o = out@;
    out.push('.');
    out.push('.');
    out.push('.');
    assert(out@ =~= ellipsis(o));
    Some(string_of(out.as_slice()))
}

/// Extracts the first paragraph from doc text.
pub fn extract_first_paragraph(docs: &str) -> (r: String)
    requires
        spec_first_paragraph(docs@) is Some,
    ensures
        spec_first_paragraph(docs@) == Some(r@),
{
    match first_paragraph(docs) {
        Some(p) => p,
        None => String::new(),
    }
}

// ---------------------------------------------------------------------------
// Ambiguous matches
// ---------------------------------------------------------------------------

/// The item at a position.
pub open spec fn at(idx: &DocIndex, p: usize) -> IndexItem {
    idx.items@[p as int]
}

/// A line `<kind padded to 7>  <x padded to w>` with `  <summary>` when
/// the summary is not empty, after `lead`.
pub open spec fn kind_line(lead: Seq<char>, it: IndexItem, x: Seq<char>, w: nat) -> Seq<char> {
    lead + pad_right(kind_word(it), 7) + seq![' ', ' '] + pad_right(x, w) + (if it.summary@.len() == 0 {
        seq![]
    } else {
        seq![' ', ' '] + it.summary@
    }) + seq!['\n']
}

/// The detailed block of an item: `--- <path> ---`, its signature, and its
/// stripped first paragraph (each when not empty).
pub open spec fn detail_block(it: IndexItem) -> Seq<char> {
    let fp = spec_first_paragraph(it.docs@)->0;
    seq!['\n'] + "--- "@ + it.path@ + " ---"@ + seq!['\n'] + (if it.signature@.len() == 0 {
        seq![]
    } else {
        it.signature@ + seq!['\n']
    }) + (if fp.len() == 0 {
        seq![]
    } else {
        spec_strip_markdown(fp) + seq!['\n']
    })
}

/// Detailed blocks of the items at `pos`.
pub open spec fn detail_blocks(idx: &DocIndex, pos: Seq<usize>) -> Seq<char>
    decreases pos.len(),
{
    if pos.len() == 0 {
        seq![]
    } else {
        detail_blocks(idx, pos.drop_last()) + detail_block(at(idx, pos.last()))
    }
}

/// `<lead><kind>  <path>  <summary>` lines of the items at `pos`.
pub open spec fn path_kind_lines(idx: &DocIndex, pos: Seq<usize>, lead: Seq<char>) -> Seq<char>
    decreases pos.len(),
{
    if pos.len() == 0 {
        seq![]
    } else {
        path_kind_lines(idx, pos.drop_last(), lead) + kind_line(lead, at(idx, pos.last()), at(idx, pos.last()).path@, 38)
    }
}

/// Deeply nested matches: five or more path segments, or enum variants.
pub open spec fn is_nested(it: IndexItem) -> bool {
    segments(it.path@).len() >= 5 || it.kind == ItemKind::Variant
}

/// Positions of nested (or, with `false`, primary) matches, in order.
pub open spec fn nested_pred(idx: &DocIndex, nested: bool) -> spec_fn(usize) -> bool {
    |p: usize| is_nested(at(idx, p)) == nested
}

/// `Found <n> items matching "<query>":` and a newline.
pub open spec fn found_header(n: nat, q: Seq<char>) -> Seq<char> {
    "Found "@ + decimal(n) + " items matching \""@ + q + "\":"@ + seq!['\n']
}

/// The few-matches view (up to five): detailed blocks for primary matches,
/// then compact lines for nested ones (or detailed blocks when all are
/// nested).
pub open spec fn few_matches(idx: &DocIndex, pos: Seq<usize>, q: Seq<char>) -> Seq<char> {
    let primary = pos.filter(nested_pred(idx, false));
    let nested = pos.filter(nested_pred(idx, true));
    let body = found_header(pos.len(), q) + detail_blocks(idx, primary) + if nested.len() > 0
        && primary.len() > 0 {
        seq!['\n'] + "Also found in nested contexts:"@ + seq!['\n'] + path_kind_lines(idx, nested, seq![' ', ' '])
    } else if nested.len() == 0 {
        seq![]
    } else {
        detail_blocks(idx, nested)
    };
    trim_end_char(body, '\n')
}

/// The many-matches view: the first ten as condensed lines and a count of
/// the rest.
pub open spec fn many_matches(idx: &DocIndex, pos: Seq<usize>, q: Seq<char>) -> Seq<char> {
    let shown = if pos.len() < MAX_SHOWN { pos.len() as int } else { MAX_SHOWN as int };
    let body = found_header(pos.len(), q) + seq!['\n'] + path_kind_lines(idx, pos.take(shown), seq![])
        + if pos.len() > MAX_SHOWN {
        "... ("@ + decimal((pos.len() - MAX_SHOWN) as nat) + " more, use a more specific path)"@
    } else {
        seq![]
    };
    trim_end_char(body, '\n')
}

/// The trait/macro view of two matches sharing a name.
pub open spec fn macro_trait_view(idx: &DocIndex, pos: Seq<usize>, q: Seq<char>) -> Seq<char> {
    "\""@ + q + "\" matches 2 items:"@ + seq!['\n', '\n'] + kind_line(seq![' ', ' '], at(idx, pos[0]), at(idx, pos[0]).name@, 20)
        + kind_line(seq![' ', ' '], at(idx, pos[1]), at(idx, pos[1]).name@, 20) + seq!['\n']
        + "Use --kind trait or --kind macro to select."@
}

/// A trait kind.
pub open spec fn is_trait_kind(k: ItemKind) -> bool {
    k == ItemKind::Trait || k == ItemKind::TraitAlias
}

/// A macro kind.
pub open spec fn is_macro_kind(k: ItemKind) -> bool {
    k == ItemKind::Macro || k == ItemKind::ProcMacro
}

/// The view of ambiguous matches: nothing for none; the trait/macro view
/// for exactly a trait and a macro; the few-matches view up to five; else
/// the many-matches view.
pub open spec fn spec_render_ambiguous(idx: &DocIndex, pos: Seq<usize>, q: Seq<char>) -> Seq<char> {
    if pos.len() == 0 {
        seq![]
    } else if pos.len() == 2 && (is_trait_kind(at(idx, pos[0]).kind) || is_trait_kind(at(idx, pos[1]).kind)) && (
    is_macro_kind(at(idx, pos[0]).kind) || is_macro_kind(at(idx, pos[1]).kind)) {
        macro_trait_view(idx, pos, q)
    } else if pos.len() <= 5 {
        few_matches(idx, pos, q)
    } else {
        many_matches(idx, pos, q)
    }
}

/// Every first paragraph of the items at `pos` can be extracted.
pub open spec fn paragraphs_ok(idx: &DocIndex, pos: Seq<usize>) -> bool {
    forall|i: int| 0 <= i < pos.len() ==> (#[trigger] spec_first_paragraph(at(idx, pos[i]).docs@)) is Some
}

fn append_kind_line(out: &mut Vec<char>, lead: &str, it: &IndexItem, x: &str, w: usize)
    ensures
        final(out)@ == old(out)@ + kind_line(lead@, *it, x@, w as nat),
{
    let ghost o = old(out)@;
    append_str(out, lead);
    append_padded(out, chars_of(it.kind.short_name()).as_slice(), 7);
    out.push(' ');
    out.push(' ');
    append_padded(out, chars_of(x).as_slice(), w);
    if !it.summary.as_str().is_empty() {
        out.push(' ');
        out.push(' ');
        append_str(out, it.summary.as_str());
    }
    out.push('\n');
    assert(out@ =~= o + kind_line(lead@, *it, x@, w as nat));
}

fn append_detail_block(out: &mut Vec<char>, it: &IndexItem)
    requires
        spec_first_paragraph(it.docs@) is Some,
    ensures
        final(out)@ == old(out)@ + detail_block(*it),
{
    let ghost o = old(out)@;
    out.push('\n');
    append_str(out, "--- ");
    append_str(out, it.path.as_str());
    append_str(out, " ---");
    out.push('\n');
    if !it.signature.as_str().is_empty() {
        append_str(out, it.signature.as_str());
        out.push('\n');
    }
    let fp = extract_first_paragraph(it.docs.as_str());
    if !fp.as_str().is_empty() {
        let st = strip_markdown_chars(chars_of(fp.as_str()).as_slice());
        append(out, st.as_slice());
        out.push('\n');
    }
    assert(out@ =~= o + detail_block(*it));
}

fn append_detail_blocks(out: &mut Vec<char>, idx: &DocIndex, pos: &Vec<usize>)
    requires
        all_below(pos@, idx.items@.len() as int),
        paragraphs_ok(idx, pos@),
    ensures
        final(out)@ == old(out)@ + detail_blocks(idx, pos@),
{
    let ghost o = old(out)@;
    let mut k: usize = 0;
    assert(o + detail_blocks(idx, pos@.take(0)) =~= o);
    while k < pos.len()
        invariant
            k <= pos@.len(),
            all_below(pos@, idx.items@.len() as int),
            paragraphs_ok(idx, pos@),
            out@ == o + detail_blocks(idx, pos@.take(k as int)),
        decreases pos.len() - k,
    {
        assert(pos@.take(k + 1).drop_last() =~= pos@.take(k as int));
        assert(spec_first_paragraph(at(idx, pos@[k as int]).docs@) is Some);
        assert(pos@[k as int] < idx.items@.len());
        append_detail_block(out, &idx.items[pos[k]]);
        k = k + 1;
    }
    assert(pos@.take(pos@.len() as int) =~= pos@);
}

fn append_path_kind_lines(out: &mut Vec<char>, idx: &DocIndex, pos: &Vec<usize>, lead: &str)
    requires
        all_below(pos@, idx.items@.len() as int),
    ensures
        final(out)@ == old(out)@ + path_kind_lines(idx, pos@, lead@),
{
    let ghost o = old(out)@;
    let mut k: usize = 0;
    assert(o + path_kind_lines(idx, pos@.take(0), lead@) =~= o);
    while k < pos.len()
        invariant
            k <= pos@.len(),
            all_below(pos@, idx.items@.len() as int),
            out@ == o + path_kind_lines(idx, pos@.take(k as int), lead@),
        decreases pos.len() - k,
    {
        assert(pos@.take(k + 1).drop_last() =~= pos@.take(k as int));
        assert(pos@[k as int] < idx.items@.len());
        let it = &idx.items[pos[k]];
        append_kind_line(out, lead, it, it.path.as_str(), 38);
        k = k + 1;
    }
    assert(pos@.take(pos@.len() as int) =~= pos@);
}

fn append_found_header(out: &mut Vec<char>, n: usize, q: &str)
    ensures
        final(out)@ == old(out)@ + found_header(n as nat, q@),
{
    let ghost o = old(out)@;
    append_str(out, "Found ");
    append(out, decimal_exec(n as u64).as_slice());
    append_str(out, " items matching \"");
    append_str(out, q);
    append_str(out, "\":");
    out.push('\n');
    assert(out@ =~= o + found_header(n as nat, q@));
}

fn split_nested(idx: &DocIndex, pos: &[usize], nested: bool) -> (r: Vec<usize>)
    requires
        all_below(pos@, idx.items@.len() as int),
    ensures
        r@ == pos@.filter(nested_pred(idx, nested)),
        all_below(r@, idx.items@.len() as int),
{
    let ghost pred = nested_pred(idx, nested);
    let mut a: Vec<usize> = Vec::new();
    let mut k: usize = 0;
    assert(pos@.take(0).filter(pred) =~= Seq::<usize>::empty()) by {
        reveal_with_fuel(Seq::<_>::filter, 1);
    }
    while k < pos.len()
        invariant
            k <= pos@.len(),
            all_below(pos@, idx.items@.len() as int),
            pred == nested_pred(idx, nested),
            a@ == pos@.take(k as int).filter(pred),
            all_below(a@, idx.items@.len() as int),
        decreases pos.len() - k,
    {
        proof {
            crate::query::lemma_filter_take_step(pos@, pred, k as int);
        }
        assert(pos@[k as int] < idx.items@.len());
        let it = &idx.items[pos[k]];
        let n = segments_exec(chars_of(it.path.as_str()).as_slice()).len() >= 5 || it.kind == ItemKind::Variant;
        if n == nested {
            a.push(pos[k]);
        }
        k = k + 1;
    }
    proof {
        crate::query::lemma_take_all(pos@);
    }
    a
}

/// Paragraph extraction succeeds on a filtered selection when it does on all.
proof fn lemma_paragraphs_filter(idx: &DocIndex, pos: Seq<usize>, pred: spec_fn(usize) -> bool)
    requires
        paragraphs_ok(idx, pos),
    ensures
        paragraphs_ok(idx, pos.filter(pred)),
{
    let f = pos.filter(pred);
    assert forall|i: int| 0 <= i < f.len() implies (#[trigger] spec_first_paragraph(at(idx, f[i]).docs@)) is Some by {
        assert(f.contains(f[i]));
        pos.lemma_filter_contains_rev(pred, f[i]);
        let j = choose|j: int| 0 <= j < pos.len() && pos[j] == f[i];
        assert(spec_first_paragraph(at(idx, pos[j]).docs@) is Some);
    }
}

fn render_few_matches(idx: &DocIndex, pos: &[usize], q: &str) -> (r: String)
    requires
        all_below(pos@, idx.items@.len() as int),
        paragraphs_ok(idx, pos@),
    ensures
        r@ == few_matches(idx, pos@, q@),
{
    proof {
        reveal_strlit("  ");
        assert("  "@ =~= seq![' ', ' ']);
    }
    let mut out: Vec<char> = Vec::new();
    append_found_header(&mut out, pos.len(), q);
    let primary = split_nested(idx, pos, false);
    let nested = split_nested(idx, pos, true);
    proof {
        lemma_paragraphs_filter(idx, pos@, nested_pred(idx, false));
        lemma_paragraphs_filter(idx, pos@, nested_pred(idx, true));
    }
    append_detail_blocks(&mut out, idx, &primary);
    let ghost mid = out@;
    if nested.len() > 0 && primary.len() > 0 {
        out.push('\n');
        append_str(&mut out, "Also found in nested contexts:");
        out.push('\n');
        append_path_kind_lines(&mut out, idx, &nested, "  ");
        assert(out@ =~= mid + (seq!['\n'] + "Also found in nested contexts:"@ + seq!['\n'] + path_kind_lines(idx, nested@, seq![' ', ' '])));
    } else if nested.len() == 0 {
        assert(out@ =~= mid + Seq::<char>::empty());
    } else {
        append_detail_blocks(&mut out, idx, &nested);
    }
    string_of(trim_end_char_exec(out.as_slice(), '\n').as_slice())
}

fn render_many_matches(idx: &DocIndex, pos: &[usize], q: &str) -> (r: String)
    requires
        all_below(pos@, idx.items@.len() as int),
    ensures
        r@ == many_matches(idx, pos@, q@),
{
    let mut out: Vec<char> = Vec::new();
    append_found_header(&mut out, pos.len(), q);
    out.push('\n');
    let shown = if pos.len() < MAX_SHOWN { pos.len() } else { MAX_SHOWN };
    let first = crate::query::clone_positions_slice(pos);
    let mut firstn: Vec<usize> = Vec::new();
    let mut k: usize = 0;
    while k < shown
        invariant
            k <= shown <= pos@.len(),
            first@ == pos@,
            firstn@ == pos@.take(k as int),
        decreases shown - k,
    {
        firstn.push(first[k]);
        assert(pos@.take(k + 1) =~= pos@.take(k as int).push(pos@[k as int]));
        k = k + 1;
    }
    assert(all_below(firstn@, idx.items@.len() as int)) by {
        assert forall|j: int| 0 <= j < firstn@.len() implies #[trigger] firstn@[j] < idx.items@.len() by {
            assert(firstn@[j] == pos@[j]);
        }
    }
    proof {
        reveal_strlit("");
        assert(""@ =~= Seq::<char>::empty());
    }
    let ghost before = out@;
    append_path_kind_lines(&mut out, idx, &firstn, "");
    assert(out@ == before + path_kind_lines(idx, pos@.take(shown as int), seq![]));
    let ghost mid = out@;
    if pos.len() > MAX_SHOWN {
        append_str(&mut out, "... (");
        append(&mut out, decimal_exec((pos.len() - MAX_SHOWN) as u64).as_slice());
        append_str(&mut out, " more, use a more specific path)");
        assert(out@ =~= mid + ("... ("@ + decimal((pos@.len() - MAX_SHOWN) as nat) + " more, use a more specific path)"@));
    } else {
        assert(out@ =~= mid + Seq::<char>::empty());
    }
    assert(out@ =~= found_header(pos@.len(), q@) + seq!['\n'] + path_kind_lines(idx, pos@.take(shown as int), seq![])
        + if pos@.len() > MAX_SHOWN {
        "... ("@ + decimal((pos@.len() - MAX_SHOWN) as nat) + " more, use a more specific path)"@
    } else {
        seq![]
    });
    string_of(trim_end_char_exec(out.as_slice(), '\n').as_slice())
}

/// Whether the ambiguous view can be rendered for these matches (every
/// first paragraph can be cut, which only matters for up to five matches).
pub fn ambiguous_renderable(index: &DocIndex, indices: &[usize]) -> (r: bool)
    requires
        all_below(indices@, index.items@.len() as int),
    ensures
        r == paragraphs_ok(index, indices@),
{
    let mut k: usize = 0;
    while k < indices.len()
        invariant
            k <= indices@.len(),
            all_below(indices@, index.items@.len() as int),
            forall|i: int| 0 <= i < k ==> (#[trigger] spec_first_paragraph(at(index, indices@[i]).docs@)) is Some,
        decreases indices.len() - k,
    {
        assert(indices@[k as int] < index.items@.len());
        if first_paragraph(index.items[indices[k]].docs.as_str()).is_none() {
            assert(spec_first_paragraph(at(index, indices@[k as int]).docs@) is None);
            return false;
        }
        k = k + 1;
    }
    true
}

/// Renders ambiguous matches for default text output.
pub fn render_ambiguous(index: &DocIndex, indices: &[usize], query: &str) -> (r: String)
    requires
        all_below(indices@, index.items@.len() as int),
        indices@.len() <= 5 ==> paragraphs_ok(index, indices@),
    ensures
        r@ == spec_render_ambiguous(index, indices@, query@),
{
    if indices.len() == 0 {
        let e = String::new();
        assert(e@ =~= Seq::<char>::empty());
        return e;
    }
    if indices.len() == 2 {
        assert(indices@[0] < index.items@.len());
        assert(indices@[1] < index.items@.len());
        let a = &index.items[indices[0]];
        let b = &index.items[indices[1]];
        let has_trait = a.kind == ItemKind::Trait || a.kind == ItemKind::TraitAlias || b.kind == ItemKind::Trait
            || b.kind == ItemKind::TraitAlias;
        let has_macro = a.kind == ItemKind::Macro || a.kind == ItemKind::ProcMacro || b.kind == ItemKind::Macro
            || b.kind == ItemKind::ProcMacro;
        if has_trait && has_macro {
            proof {
                reveal_strlit("  ");
                assert("  "@ =~= seq![' ', ' ']);
            }
            let mut out: Vec<char> = Vec::new();
            append_str(&mut out, "\"");
            append_str(&mut out, query);
            append_str(&mut out, "\" matches 2 items:");
            out.push('\n');
            out.push('\n');
            append_kind_line(&mut out, "  ", a, a.name.as_str(), 20);
            append_kind_line(&mut out, "  ", b, b.name.as_str(), 20);
            out.push('\n');
            append_str(&mut out, "Use --kind trait or --kind macro to select.");
            assert(out@ =~= macro_trait_view(index, indices@, query@));
            return string_of(out.as_slice());
        }
    }
    if indices.len() <= 5 {
        render_few_matches(index, indices, query)
    } else {
        render_many_matches(index, indices, query)
    }
}

/// `<path>` lines of the items at `pos`.
pub open spec fn path_lines(idx: &DocIndex, pos: Seq<usize>) -> Seq<char>
    decreases pos.len(),
{
    if pos.len() == 0 {
        seq![]
    } else {
        path_lines(idx, pos.drop_last()) + at(idx, pos.last()).path@ + seq!['\n']
    }
}

/// Renders ambiguous matches in list mode: one path per line.
pub fn render_ambiguous_list(index: &DocIndex, indices: &[usize]) -> (r: String)
    requires
        all_below(indices@, index.items@.len() as int),
    ensures
        r@ == trim_end_char(path_lines(index, indices@), '\n'),
{
    let mut out: Vec<char> = Vec::new();
    let mut k: usize = 0;
    while k < indices.len()
        invariant
            k <= indices@.len(),
            all_below(indices@, index.items@.len() as int),
            out@ == path_lines(index, indices@.take(k as int)),
        decreases indices.len() - k,
    {
        assert(indices@.take(k + 1).drop_last() =~= indices@.take(k as int));
        assert(indices@[k as int] < index.items@.len());
        append_str(&mut out, index.items[indices[k]].path.as_str());
        out.push('\n');
        k = k + 1;
    }
    assert(indices@.take(indices@.len() as int) =~= indices@);
    string_of(trim_end_char_exec(out.as_slice(), '\n').as_slice())
}

// ---------------------------------------------------------------------------
// Trait implementations and source
// ---------------------------------------------------------------------------

/// `  impl <path>` lines, marking synthetic impls, in impl order.
pub open spec fn impl_lines_marked(ts: Seq<TraitImplInfo>, order: Seq<usize>) -> Seq<char>
    decreases order.len(),
{
    if order.len() == 0 {
        seq![]
    } else {
        let t = ts[order.last() as int];
        impl_lines_marked(ts, order.drop_last()) + "  impl "@ + t.trait_path@ + (if t.is_synthetic {
            " (synthetic)"@
        } else {
            seq![]
        }) + seq!['\n']
    }
}

/// The impls view of a type: header, signature, then its trait
/// implementations (real before synthetic, each by path) or a note that
/// there are none.
pub open spec fn spec_render_impls_type(it: IndexItem, ts: Seq<TraitImplInfo>) -> Seq<char> {
    trim_end_char(
        kind_word(it) + seq![' '] + it.path@ + gate_of(it) + seq!['\n', '\n'] + it.signature@ + seq!['\n']
            + if ts.len() == 0 {
            seq!['\n'] + "No trait implementations."@
        } else {
            seq!['\n'] + "Trait Implementations:"@ + seq!['\n'] + impl_lines_marked(ts, impl_order(ts))
        },
        '\n',
    )
}

/// Whether a trait path names the trait `name`: the whole path, or its last
/// `::` segment, equals it.
pub open spec fn trait_matches(trait_path: Seq<char>, name: Seq<char>) -> bool {
    trait_path == name || crate::text::segments(trait_path).last() == name
}

/// The trait-name predicate of `--impls <TRAIT>`.
pub open spec fn trait_pred(name: Seq<char>) -> spec_fn(TraitImplInfo) -> bool {
    |t: TraitImplInfo| trait_matches(t.trait_path@, name)
}

/// The implementations shown for a trait filter: all of them when there is
/// none, else those of the named trait, in their order.
pub open spec fn spec_filter_impls(ts: Seq<TraitImplInfo>, filter: Option<Seq<char>>) -> Seq<TraitImplInfo> {
    match filter {
        None => ts,
        Some(name) => ts.filter(trait_pred(name)),
    }
}

/// Whether a trait path names the trait `name`.
fn trait_matches_exec(trait_path: &str, name: &str) -> (r: bool)
    ensures
        r == trait_matches(trait_path@, name@),
{
    let tp = crate::text::chars_of(trait_path);
    let n = crate::text::chars_of(name);
    if crate::text::chars_eq(tp.as_slice(), n.as_slice()) {
        return true;
    }
    let segs = crate::text::segments_exec(tp.as_slice());
    proof {
        crate::text::lemma_split_nonempty(tp@, crate::text::path_sep());
    }
    let last = &segs[segs.len() - 1];
    crate::text::chars_eq(last.as_slice(), n.as_slice())
}

/// Keeps the trait implementations of the trait `name` (matched by full
/// path or by last path segment), in their order.
pub fn filter_trait_impls(impls: &Vec<TraitImplInfo>, name: &str) -> (r: Vec<TraitImplInfo>)
    ensures
        r@ == impls@.filter(trait_pred(name@)),
{
    let ghost p = trait_pred(name@);
    let mut r: Vec<TraitImplInfo> = Vec::new();
    let mut i: usize = 0;
    assert(impls@.take(0).filter(p) =~= Seq::<TraitImplInfo>::empty()) by {
        reveal(Seq::filter);
    }
    while i < impls.len()
        invariant
            i <= impls@.len(),
            p == trait_pred(name@),
            r@ == impls@.take(i as int).filter(p),
        decreases impls.len() - i,
    {
        let t = &impls[i];
        proof {
            reveal(Seq::filter);
            assert(impls@.take(i + 1).drop_last() =~= impls@.take(i as int));
            assert(impls@.take(i + 1).last() == impls@[i as int]);
        }
        if trait_matches_exec(t.trait_path.as_str(), name) {
            r.push(crate::types::clone_impl(t));
        }
        i = i + 1;
    }
    assert(impls@.take(impls@.len() as int) =~= impls@);
    r
}

/// Renders the impls view for a type.
pub fn render_impls_type(item: &IndexItem, trait_impls: &Vec<TraitImplInfo>) -> (r: String)
    ensures
        r@ == spec_render_impls_type(*item, trait_impls@),
{
    let mut out: Vec<char> = Vec::new();
    append_str(&mut out, item.kind.short_name());
    out.push(' ');
    append_str(&mut out, item.path.as_str());
    append_str(&mut out, feature_gate_suffix(item.feature_gate.as_ref()).as_str());
    out.push('\n');
    out.push('\n');
    append_str(&mut out, item.signature.as_str());
    out.push('\n');
    let ghost head = out@;
    if trait_impls.len() == 0 {
        out.push('\n');
        append_str(&mut out, "No trait implementations.");
        assert(out@ =~= head + (seq!['\n'] + "No trait implementations."@));
    } else {
        out.push('\n');
        append_str(&mut out, "Trait Implementations:");
        out.push('\n');
        let ghost mid = out@;
        let order = impl_order_exec(trait_impls);
        let mut k: usize = 0;
        assert(mid + impl_lines_marked(trait_impls@, order@.take(0)) =~= mid);
        while k < order.len()
            invariant
                k <= order@.len(),
                forall|j: int| 0 <= j < order@.len() ==> #[trigger] order@[j] < trait_impls@.len(),
                out@ == mid + impl_lines_marked(trait_impls@, order@.take(k as int)),
            decreases order.len() - k,
        {
            assert(order@.take(k + 1).drop_last() =~= order@.take(k as int));
            assert(order@[k as int] < trait_impls@.len());
            let t = &trait_impls[order[k]];
            let ghost before = out@;
            append_str(&mut out, "  impl ");
            append_str(&mut out, t.trait_path.as_str());
            if t.is_synthetic {
                append_str(&mut out, " (synthetic)");
            }
            out.push('\n');
            assert(out@ =~= before + "  impl "@ + t.trait_path@ + (if t.is_synthetic {
                " (synthetic)"@
            } else {
                seq![]
            }) + seq!['\n']);
            k = k + 1;
        }
        assert(order@.take(order@.len() as int) =~= order@);
        assert(out@ =~= head + (seq!['\n'] + "Trait Implementations:"@ + seq!['\n'] + impl_lines_marked(
            trait_impls@,
            impl_order(trait_impls@),
        )));
    }
    assert(head =~= kind_word(*item) + seq![' '] + item.path@ + gate_of(*item) + seq!['\n', '\n'] + item.signature@ + seq!['\n']);
    string_of(trim_end_char_exec(out.as_slice(), '\n').as_slice())
}

/// `  <name>` lines.
pub open spec fn indented_lines(v: Seq<String>) -> Seq<char>
    decreases v.len(),
{
    if v.len() == 0 {
        seq![]
    } else {
        indented_lines(v.drop_last()) + seq![' ', ' '] + v.last()@ + seq!['\n']
    }
}

/// The impls view of a trait: header, signature, then its implementors or
/// a note that none are known.
pub open spec fn spec_render_impls_trait(it: IndexItem, imps: Seq<String>) -> Seq<char> {
    trim_end_char(
        "trait "@ + it.path@ + gate_of(it) + seq!['\n', '\n'] + it.signature@ + seq!['\n'] + if imps.len()
            == 0 {
            seq!['\n'] + "No known implementors."@
        } else {
            seq!['\n'] + "Implementors:"@ + seq!['\n'] + indented_lines(imps)
        },
        '\n',
    )
}

/// Renders the impls view for a trait.
pub fn render_impls_trait(item: &IndexItem, implementors: &[String]) -> (r: String)
    ensures
        r@ == spec_render_impls_trait(*item, implementors@),
{
    let mut out: Vec<char> = Vec::new();
    append_str(&mut out, "trait ");
    append_str(&mut out, item.path.as_str());
    append_str(&mut out, feature_gate_suffix(item.feature_gate.as_ref()).as_str());
    out.push('\n');
    out.push('\n');
    append_str(&mut out, item.signature.as_str());
    out.push('\n');
    let ghost head = out@;
    if implementors.len() == 0 {
        out.push('\n');
        append_str(&mut out, "No known implementors.");
        assert(out@ =~= head + (seq!['\n'] + "No known implementors."@));
    } else {
        out.push('\n');
        append_str(&mut out, "Implementors:");
        out.push('\n');
        let ghost mid = out@;
        let mut k: usize = 0;
        assert(mid + indented_lines(implementors@.take(0)) =~= mid);
        while k < implementors.len()
            invariant
                k <= implementors@.len(),
                out@ == mid + indented_lines(implementors@.take(k as int)),
            decreases implementors.len() - k,
        {
            assert(implementors@.take(k + 1).drop_last() =~= implementors@.take(k as int));
            out.push(' ');
            out.push(' ');
            append_str(&mut out, implementors[k].as_str());
            out.push('\n');
            k = k + 1;
        }
        assert(implementors@.take(implementors@.len() as int) =~= implementors@);
        assert(out@ =~= head + (seq!['\n'] + "Implementors:"@ + seq!['\n'] + indented_lines(implementors@)));
    }
    assert(head =~= "trait "@ + item.path@ + gate_of(*item) + seq!['\n', '\n'] + item.signature@ + seq!['\n']);
    string_of(trim_end_char_exec(out.as_slice(), '\n').as_slice())
}

/// The impls view of other items.
pub open spec fn spec_render_impls_other(it: IndexItem) -> Seq<char> {
    kind_word(it) + seq![' '] + it.path@ + " has no trait implementations."@
}

/// Renders the impls view for non-type/trait items.
pub fn render_impls_other(item: &IndexItem) -> (r: String)
    ensures
        r@ == spec_render_impls_other(*item),
{
    let mut out: Vec<char> = Vec::new();
    append_str(&mut out, item.kind.short_name());
    out.push(' ');
    append_str(&mut out, item.path.as_str());
    append_str(&mut out, " has no trait implementations.");
    string_of(out.as_slice())
}

/// The source view: a note when the item has no source location; the
/// content under a `// <file>:<line>` (or `<start>-<end>`) header; or a note
/// that the file could not be read.
pub open spec fn spec_render_source(it: IndexItem, content: Option<Seq<char>>) -> Seq<char> {
    let sp = it.span;
    if sp.file@.len() == 0 || (sp.line_start == 0 && sp.line_end == 0) {
        "// source not available (macro-generated or built-in)"@
    } else {
        match content {
            Some(c) => trim_end_char(
                "// "@ + sp.file@ + seq![':'] + decimal(sp.line_start as nat) + (if sp.line_start
                    == sp.line_end {
                    seq![]
                } else {
                    seq!['-'] + decimal(sp.line_end as nat)
                }) + seq!['\n'] + c,
                '\n',
            ),
            None => "// source not available (Could not read "@ + sp.file@ + seq![')'],
        }
    }
}

/// Renders the source view for a single item.
pub fn render_source(item: &IndexItem, source_content: Option<&str>) -> (r: String)
    ensures
        r@ == spec_render_source(
            *item,
            match source_content {
                Some(c) => Some(c@),
                None => None,
            },
        ),
{
    let sp = &item.span;
    if sp.file.as_str().is_empty() || (sp.line_start == 0 && sp.line_end == 0) {
        return "// source not available (macro-generated or built-in)".to_string();
    }
    match source_content {
        Some(content) => {
            let mut out: Vec<char> = Vec::new();
            append_str(&mut out, "// ");
            append_str(&mut out, sp.file.as_str());
            out.push(':');
            append(&mut out, decimal_exec(sp.line_start as u64).as_slice());
            if sp.line_start != sp.line_end {
                out.push('-');
                append(&mut out, decimal_exec(sp.line_end as u64).as_slice());
            }
            out.push('\n');
            append_str(&mut out, content);
            assert(out@ =~= "// "@ + sp.file@ + seq![':'] + decimal(sp.line_start as nat) + (if sp.line_start
                    == sp.line_end {
                    seq![]
                } else {
                    seq!['-'] + decimal(sp.line_end as nat)
                }) + seq!['\n'] + content@);
            string_of(trim_end_char_exec(out.as_slice(), '\n').as_slice())
        },
        None => {
            let mut out: Vec<char> = Vec::new();
            append_str(&mut out, "// source not available (Could not read ");
            append_str(&mut out, sp.file.as_str());
            out.push(')');
            assert(out@ =~= "// source not available (Could not read "@ + sp.file@ + seq![')']);
            string_of(out.as_slice())
        },
    }
}

/// The source views of several matches, each under `--- <path> ---`,
/// separated by blank lines.
pub open spec fn source_blocks(v: Seq<(IndexItem, Option<Seq<char>>)>) -> Seq<char>
    decreases v.len(),
{
    if v.len() == 0 {
        seq![]
    } else {
        source_blocks(v.drop_last()) + (if v.len() > 1 {
            seq!['\n']
        } else {
            seq![]
        }) + "--- "@ + v.last().0.path@ + " ---"@ + seq!['\n'] + spec_render_source(v.last().0, v.last().1)
            + seq!['\n']
    }
}

/// The abstract value of items with their source.
pub open spec fn with_source_view(v: Seq<(&IndexItem, Option<&str>)>) -> Seq<(IndexItem, Option<Seq<char>>)> {
    v.map_values(
        |x: (&IndexItem, Option<&str>)|
            (
                *x.0,
                match x.1 {
                    Some(c) => Some(c@),
                    None => None,
                },
            ),
    )
}

/// Renders the source view for several matches.
pub fn render_source_ambiguous(items_with_source: &[(&IndexItem, Option<&str>)]) -> (r: String)
    ensures
        r@ == trim_end_char(source_blocks(with_source_view(items_with_source@)), '\n'),
{
    let ghost v = with_source_view(items_with_source@);
    let mut out: Vec<char> = Vec::new();
    let mut k: usize = 0;
    assert(v.take(0) =~= Seq::<(IndexItem, Option<Seq<char>>)>::empty());
    while k < items_with_source.len()
        invariant
            k <= items_with_source@.len(),
            v == with_source_view(items_with_source@),
            out@ == source_blocks(v.take(k as int)),
        decreases items_with_source.len() - k,
    {
        assert(v.take(k + 1).drop_last() =~= v.take(k as int));
        let (item, src) = items_with_source[k];
        let ghost before = out@;
        if k > 0 {
            out.push('\n');
        }
        append_str(&mut out, "--- ");
        append_str(&mut out, item.path.as_str());
        append_str(&mut out, " ---");
        out.push('\n');
        let rs = render_source(item, src);
        append_str(&mut out, rs.as_str());
        out.push('\n');
        assert(v.take(k + 1).last() == v[k as int]);
        assert(out@ =~= source_blocks(v.take(k + 1)));
        k = k + 1;
    }
    assert(v.take(v.len() as int) =~= v);
    string_of(trim_end_char_exec(out.as_slice(), '\n').as_slice())
}

} // verus!
