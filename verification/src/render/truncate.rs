//! Truncating documentation text for display.
use vstd::prelude::*;
use crate::text::{
    append, char_prefix_len, char_prefix_len_exec, chars_of, rfind, rfind_exec, slice_to_vec,
    string_of, trim_end, trim_end_exec, utf8_width,
};
use crate::types::DisplayLimits;

verus! {

/// Sentence-ending punctuation.
pub open spec fn is_terminator(c: char) -> bool {
    c == '.' || c == '!' || c == '?'
}

/// The greatest position at or below `i` of a sentence end followed by a space.
pub open spec fn sentence_end_upto(s: Seq<char>, i: int) -> Option<int>
    decreases i + 1,
{
    if i < 0 {
        None
    } else if i + 1 < s.len() && is_terminator(s[i]) && s[i + 1] == ' ' {
        Some(i)
    } else {
        sentence_end_upto(s, i - 1)
    }
}

/// The position of the last `.`, `!` or `?` that is followed by a space.
pub open spec fn last_sentence_end(s: Seq<char>) -> Option<int> {
    sentence_end_upto(s, s.len() - 2)
}

/// Finds the position of the last sentence-ending punctuation before a space.
pub fn find_last_sentence_boundary(s: &[char]) -> (r: Option<usize>)
    ensures
        match r {
            Some(i) => last_sentence_end(s@) == Some(i as int) && i + 1 < s@.len(),
            None => last_sentence_end(s@) is None,
        },
{
    if s.len() < 2 {
        return None;
    }
    let mut i: usize = s.len() - 2;
    loop
        invariant
            i + 2 <= s@.len(),
            last_sentence_end(s@) == sentence_end_upto(s@, i as int),
        decreases i,
    {
        if (s[i] == '.' || s[i] == '!' || s[i] == '?') && s[i + 1] == ' ' {
            return Some(i);
        }
        if i == 0 {
            assert(sentence_end_upto(s@, -1) is None);
            return None;
        }
        i = i - 1;
    }
}

/// The UTF-8 length of a character sequence.
pub open spec fn byte_len(s: Seq<char>) -> nat {
    vstd::utf8::encode_utf8(s).len()
}

/// `s` followed by `...`.
pub open spec fn ellipsis(s: Seq<char>) -> Seq<char> {
    s + seq!['.', '.', '.']
}

/// Doc text truncated for display. Unchanged when expanding everything or
/// when it fits in the byte limit; otherwise cut within the limit (at a
/// character boundary) at the last paragraph break, else after the last
/// sentence end, else at the last space, else hard, with `...` appended
/// except after a sentence end.
pub open spec fn spec_truncate_doc(text: Seq<char>, max: nat, expand_all: bool) -> Seq<char> {
    if expand_all || byte_len(text) <= max {
        text
    } else {
        let k = char_prefix_len(text, max as int);
        let region = text.take(k as int);
        let para = rfind(region, seq!['\n', '\n']);
        let word = rfind(region, seq![' ']);
        if para is Some && para->0 > 0 {
            ellipsis(trim_end(text.take(para->0)))
        } else if last_sentence_end(region) is Some {
            text.take(last_sentence_end(region)->0 + 1)
        } else if word is Some && word->0 > 0 {
            ellipsis(trim_end(text.take(word->0)))
        } else {
            ellipsis(region)
        }
    }
}

fn with_ellipsis(v: Vec<char>) -> (r: Vec<char>)
    ensures
        r@ == ellipsis(v@),
{
    let ghost v0 = v@;
    let mut v = v;
    v.push('.');
    v.push('.');
    v.push('.');
    assert(v@ =~= ellipsis(v0));
    v
}

/// Truncates doc text according to the display limits.
pub fn truncate_doc(text: &str, limits: &DisplayLimits) -> (r: String)
    ensures
        r@ == spec_truncate_doc(text@, limits.max_doc_length as nat, limits.expand_all),
{
    if limits.expand_all {
        return text.to_string();
    }
    let bytes = text.as_bytes();
    assert(bytes@ == vstd::utf8::encode_utf8(text@));
    if bytes.len() <= limits.max_doc_length {
        return text.to_string();
    }
    let t = chars_of(text);
    let k = char_prefix_len_exec(t.as_slice(), limits.max_doc_length);
    let region = slice_to_vec(t.as_slice(), 0, k);
    assert(region@ =~= t@.take(k as int));
    let pp: Vec<char> = vec!['\n', '\n'];
    assert(pp@ =~= seq!['\n', '\n']);
    let sp: Vec<char> = vec![' '];
    assert(sp@ =~= seq![' ']);
    if let Some(pos) = rfind_exec(region.as_slice(), pp.as_slice()) {
        if pos > 0 {
            let head = slice_to_vec(t.as_slice(), 0, pos);
            assert(head@ =~= t@.take(pos as int));
            let tr = trim_end_exec(head.as_slice());
            return string_of(with_ellipsis(tr).as_slice());
        }
    }
    if let Some(pos) = find_last_sentence_boundary(region.as_slice()) {
        let head = slice_to_vec(t.as_slice(), 0, pos + 1);
        assert(head@ =~= t@.take(pos + 1));
        return string_of(head.as_slice());
    }
    if let Some(pos) = rfind_exec(region.as_slice(), sp.as_slice()) {
        if pos > 0 {
            let head = slice_to_vec(t.as_slice(), 0, pos);
            assert(head@ =~= t@.take(pos as int));
            let tr = trim_end_exec(head.as_slice());
            return string_of(with_ellipsis(tr).as_slice());
        }
    }
    string_of(with_ellipsis(region).as_slice())
}

/// The feature-gate annotation of an item: `  [feature: <gate>]`, or
/// nothing when ungated.
pub open spec fn spec_feature_gate_suffix(gate: Option<Seq<char>>) -> Seq<char> {
    match gate {
        Some(g) => "  [feature: "@ + g + "]"@,
        None => seq![],
    }
}

/// Renders the feature gate annotation suffix.
pub fn feature_gate_suffix(feature_gate: Option<&String>) -> (r: String)
    ensures
        r@ == spec_feature_gate_suffix(match feature_gate {
            Some(g) => Some(g@),
            None => None,
        }),
{
    match feature_gate {
        Some(gate) => {
            let mut v = chars_of("  [feature: ");
            append(&mut v, chars_of(gate.as_str()).as_slice());
            v.push(']');
            proof {
                reveal_strlit("]");
            }
            assert(v@ =~= "  [feature: "@ + gate@ + "]"@);
            string_of(v.as_slice())
        },
        None => {
            let e = String::new();
            assert(e@ =~= Seq::<char>::empty());
            e
        },
    }
}

} // verus!
