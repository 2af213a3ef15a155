//! Summaries of documentation text, as stored in the index.
use vstd::prelude::*;
use crate::render::truncate::{byte_len, ellipsis};
use crate::types::{spec_meta, ItemKind};
use crate::text::{
    append_str, char_prefix_len, char_prefix_len_exec, chars_of, find_from, find_from_exec,
    first_index_of, index_of_char, is_upper, lemma_find_from, lemma_first_index_of, is_ws, is_ws_exec, slice_to_vec,
    split, split_exec, string_of, upper_char,
};

verus! {

/// Bytes of a first line kept when a summary has no sentence end.
pub const SUMMARY_LINE_BYTES: usize = 100;

/// The first character of `s` that is not whitespace.
pub open spec fn first_non_ws(s: Seq<char>) -> Option<char>
    decreases s.len(),
{
    if s.len() == 0 {
        None
    } else if !is_ws(s[0]) {
        Some(s[0])
    } else {
        first_non_ws(s.drop_first())
    }
}

/// A sentence ends at `j`: `!` or `?` at the end or before whitespace, or
/// `.` at the end or before whitespace whose next non-whitespace character
/// (if any) is uppercase.
pub open spec fn summary_end_at(s: Seq<char>, j: int) -> bool {
    let c = s[j];
    if c == '!' || c == '?' {
        j + 1 == s.len() || is_ws(s[j + 1])
    } else if c == '.' {
        j + 1 == s.len() || (is_ws(s[j + 1]) && match first_non_ws(s.skip(j + 1)) {
            None => true,
            Some(n) => upper_char(n),
        })
    } else {
        false
    }
}

/// The first sentence end at or after `j`.
pub open spec fn summary_end_from(s: Seq<char>, j: int) -> Option<int>
    decreases s.len() - j,
{
    if j < 0 || j >= s.len() {
        None
    } else if summary_end_at(s, j) {
        Some(j)
    } else {
        summary_end_from(s, j + 1)
    }
}

/// The summary of doc text: its first sentence; without a sentence end,
/// its first line, cut to 100 bytes with `...` when longer. `None` when
/// that cut would split a character (the byte-based cut has no result).
pub open spec fn spec_extract_summary(docs: Seq<char>) -> Option<Seq<char>> {
    if docs.len() == 0 {
        Some(seq![])
    } else {
        match summary_end_from(docs, 0) {
            Some(j) => Some(docs.take(j + 1)),
            None => {
                let fl = split(docs, seq!['\n'])[0];
                if byte_len(fl) > SUMMARY_LINE_BYTES {
                    let k = char_prefix_len(fl, SUMMARY_LINE_BYTES as int);
                    if byte_len(fl.take(k as int)) != SUMMARY_LINE_BYTES {
                        None
                    } else {
                        Some(ellipsis(fl.take(k as int)))
                    }
                } else {
                    Some(fl)
                }
            },
        }
    }
}

fn first_non_ws_exec(s: &[char], from: usize) -> (r: Option<char>)
    requires
        from <= s@.len(),
    ensures
        r == first_non_ws(s@.skip(from as int)),
{
    let mut k = from;
    while k < s.len()
        invariant
            from <= k <= s@.len(),
            first_non_ws(s@.skip(from as int)) == first_non_ws(s@.skip(k as int)),
        decreases s.len() - k,
    {
        assert(s@.skip(k as int)[0] == s@[k as int]);
        assert(s@.skip(k as int).drop_first() =~= s@.skip(k + 1));
        if !is_ws_exec(s[k]) {
            return Some(s[k]);
        }
        k = k + 1;
    }
    None
}

fn summary_end_at_exec(s: &[char], j: usize) -> (r: bool)
    requires
        j < s@.len(),
    ensures
        r == summary_end_at(s@, j as int),
{
    let c = s[j];
    if c == '!' || c == '?' {
        j + 1 == s.len() || is_ws_exec(s[j + 1])
    } else if c == '.' {
        if j + 1 == s.len() {
            return true;
        }
        if !is_ws_exec(s[j + 1]) {
            return false;
        }
        match first_non_ws_exec(s, j + 1) {
            None => true,
            Some(n) => is_upper(n),
        }
    } else {
        false
    }
}

/// The summary, or `None` where the byte-based cut would split a character.
pub fn summary_of(docs: &str) -> (r: Option<String>)
    ensures
        match r {
            Some(x) => spec_extract_summary(docs@) == Some(x@),
            None => spec_extract_summary(docs@) is None,
        },
{
    let d = chars_of(docs);
    if d.len() == 0 {
        let e = String::new();
        assert(e@ =~= Seq::<char>::empty());
        return Some(e);
    }
    let mut j: usize = 0;
    while j < d.len()
        invariant
            j <= d@.len(),
            d@ == docs@,
            summary_end_from(d@, 0) == summary_end_from(d@, j as int),
        decreases d.len() - j,
    {
        if summary_end_at_exec(d.as_slice(), j) {
            let t = slice_to_vec(d.as_slice(), 0, j + 1);
            assert(t@ =~= docs@.take(j + 1));
            return Some(string_of(t.as_slice()));
        }
        j = j + 1;
    }
    let nlv: Vec<char> = vec!['\n'];
    assert(nlv@ =~= seq!['\n']);
    let parts = split_exec(d.as_slice(), nlv.as_slice());
    proof {
        crate::text::lemma_split_nonempty(d@, seq!['\n']);
    }
    let fl = &parts[0];
    assert(fl@ == split(docs@, seq!['\n'])[0]);
    let fs = string_of(fl.as_slice());
    let fb = fs.as_str().as_bytes();
    assert(fb@ == vstd::utf8::encode_utf8(fl@));
    if fb.len() > SUMMARY_LINE_BYTES {
        let k = char_prefix_len_exec(fl.as_slice(), SUMMARY_LINE_BYTES);
        proof {
            crate::text::lemma_utf8_prefix_mono(fl@, k as int, fl@.len() as int);
            assert(fl@.take(fl@.len() as int) =~= fl@);
        }
        let kb = crate::text::byte_offset(fl.as_slice(), k);
        if kb != SUMMARY_LINE_BYTES {
            return None;
        }
        let mut t = slice_to_vec(fl.as_slice(), 0, k);
        let ghost t0 = t@;
        t.push('.');
        t.push('.');
        t.push('.');
        assert(t@ =~= ellipsis(t0));
        assert(t0 =~= fl@.take(k as int));
        return Some(string_of(t.as_slice()));
    }
    Some(fs)
}

/// Extracts the first sentence from a doc string.
pub fn extract_summary(docs: &str) -> (r: String)
    requires
        spec_extract_summary(docs@) is Some,
    ensures
        spec_extract_summary(docs@) == Some(r@),
{
    match summary_of(docs) {
        Some(s) => s,
        None => String::new(),
    }
}

/// The signature used when an item has none of its own: its visibility,
/// kind and name.
pub open spec fn spec_fallback_signature(is_public: bool, kind: ItemKind, name: Seq<char>) -> Seq<char> {
    crate::signature::vis_str(is_public) + spec_meta(kind).short_name@ + seq![' '] + name
}

/// Generates a fallback signature when an item's signature cannot be
/// rendered.
pub fn fallback_signature(is_public: bool, kind: ItemKind, name: &str) -> (r: String)
    ensures
        r@ == spec_fallback_signature(is_public, kind, name@),
{
    let mut out: Vec<char> = Vec::new();
    if is_public {
        append_str(&mut out, "pub ");
    }
    append_str(&mut out, kind.short_name());
    out.push(' ');
    append_str(&mut out, name);
    string_of(out.as_slice())
}

/// The feature named by a `#[doc(cfg(feature = "name"))]` attribute: the
/// text between the first two double quotes after `cfg(feature`.
pub open spec fn gate_in(attr: Seq<char>) -> Option<Seq<char>> {
    match find_from(attr, "cfg(feature"@, 0) {
        Some(st) => {
            let rest = attr.skip(st);
            match first_index_of(rest, '"') {
                Some(q) => {
                    let after = rest.skip(q + 1);
                    match first_index_of(after, '"') {
                        Some(e) => Some(after.take(e)),
                        None => None,
                    }
                },
                None => None,
            }
        },
        None => None,
    }
}

/// The feature gate of an item: that of the first attribute naming one.
pub open spec fn spec_feature_gate(attrs: Seq<Seq<char>>) -> Option<Seq<char>>
    decreases attrs.len(),
{
    if attrs.len() == 0 {
        None
    } else if gate_in(attrs[0]) is Some {
        gate_in(attrs[0])
    } else {
        spec_feature_gate(attrs.drop_first())
    }
}

fn gate_in_exec(attr: &str) -> (r: Option<String>)
    ensures
        match r {
            Some(g) => gate_in(attr@) == Some(g@),
            None => gate_in(attr@) is None,
        },
{
    let s = chars_of(attr);
    let needle = chars_of("cfg(feature");
    match find_from_exec(s.as_slice(), needle.as_slice(), 0) {
        None => None,
        Some(st) => {
            proof {
                assert(find_from(s@, needle@, 0) == Some(st as int));
                lemma_find_from(s@, needle@, 0);
            }
            let sl = s.len();
            let rest = slice_to_vec(s.as_slice(), st, sl);
            assert(rest@ =~= s@.skip(st as int));
            match index_of_char(rest.as_slice(), '"') {
                None => None,
                Some(q) => {
                    proof { lemma_first_index_of(rest@, '"'); }
                    let rl = rest.len();
                    let after = slice_to_vec(rest.as_slice(), q + 1, rl);
                    assert(after@ =~= rest@.skip(q + 1));
                    match index_of_char(after.as_slice(), '"') {
                        None => None,
                        Some(e) => {
                            proof { lemma_first_index_of(after@, '"'); }
                            let g = slice_to_vec(after.as_slice(), 0, e);
                            assert(g@ =~= after@.take(e as int));
                            Some(string_of(g.as_slice()))
                        },
                    }
                },
            }
        },
    }
}

/// Extracts the feature gate from an item's attributes (the text of each
/// attribute that rustdoc does not classify).
pub fn extract_feature_gate(attrs: &Vec<String>) -> (r: Option<String>)
    ensures
        match r {
            Some(g) => spec_feature_gate(crate::cli::string_views(attrs@)) == Some(g@),
            None => spec_feature_gate(crate::cli::string_views(attrs@)) is None,
        },
{
    let ghost av = crate::cli::string_views(attrs@);
    let mut i: usize = 0;
    assert(av.skip(0) =~= av);
    while i < attrs.len()
        invariant
            i <= attrs@.len(),
            av == crate::cli::string_views(attrs@),
            spec_feature_gate(av) == spec_feature_gate(av.skip(i as int)),
        decreases attrs.len() - i,
    {
        assert(av.skip(i as int)[0] == attrs@[i as int]@);
        assert(av.skip(i as int).drop_first() =~= av.skip(i + 1));
        match gate_in_exec(attrs[i].as_str()) {
            Some(g) => {
                return Some(g);
            },
            None => {},
        }
        i = i + 1;
    }
    None
}

} // verus!
