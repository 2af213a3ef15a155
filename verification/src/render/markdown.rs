//! Markdown to plain text: inline markup, headings, lists, quotes, rules and
//! code fences.
use vstd::prelude::*;
use crate::text::{
    append, ends_with, ends_with_exec, find_from, find_from_exec, first_index_of, index_of_char,
    is_ws, is_ws_exec, slice_to_vec, split, split_exec, starts_with, starts_with_exec, trim,
    trim_end_char, trim_end_char_exec, trim_exec, trim_start, trim_start_exec,
};

verus! {

// ---------------------------------------------------------------------------
// Inline markup
// ---------------------------------------------------------------------------

/// A markdown link at the start of `s`: `[text](url)` or `[text][ref]`,
/// giving the text and the number of characters the link spans.
pub open spec fn parse_link(s: Seq<char>) -> Option<(Seq<char>, int)> {
    if s.len() == 0 || s[0] != '[' {
        None
    } else {
        match first_index_of(s.skip(1), ']') {
            None => None,
            Some(b) => {
                let cb = b + 1;
                let text = s.subrange(1, cb);
                let after = s.skip(cb + 1);
                if after.len() > 0 && after[0] == '(' {
                    match first_index_of(after, ')') {
                        None => None,
                        Some(cp) => Some((text, cb + 1 + cp + 1)),
                    }
                } else if after.len() > 0 && after[0] == '[' {
                    match first_index_of(after.skip(1), ']') {
                        None => None,
                        Some(b2) => Some((text, cb + 1 + b2 + 1 + 1)),
                    }
                } else {
                    None
                }
            },
        }
    }
}

/// Inline markdown removed: `**x**`, `__x__`, `*x*`, `_x_` keep their
/// (stripped) content, `` `x` `` keeps its content verbatim, links keep their
/// text; an unmatched marker stays as it is.
pub open spec fn strip_inline(s: Seq<char>) -> Seq<char>
    decreases s.len(),
{
    if s.len() == 0 {
        seq![]
    } else {
        let c = s[0];
        if (c == '*' || c == '_') && s.len() > 1 && s[1] == c {
            match find_from(s.skip(2), seq![c, c], 0) {
                Some(e) => if 0 <= e && e + 4 <= s.len() {
                    strip_inline(s.subrange(2, 2 + e)) + strip_inline(s.skip(e + 4))
                } else {
                    seq![c] + strip_inline(s.skip(1))
                },
                None => seq![c] + strip_inline(s.skip(1)),
            }
        } else if c == '*' || c == '_' || c == '`' {
            match first_index_of(s.skip(1), c) {
                Some(e) => if 0 <= e && e + 2 <= s.len() {
                    if c == '`' {
                        s.subrange(1, 1 + e) + strip_inline(s.skip(e + 2))
                    } else {
                        strip_inline(s.subrange(1, 1 + e)) + strip_inline(s.skip(e + 2))
                    }
                } else {
                    seq![c] + strip_inline(s.skip(1))
                },
                None => seq![c] + strip_inline(s.skip(1)),
            }
        } else if c == '[' {
            match parse_link(s) {
                Some((text, skip)) => if 0 < skip <= s.len() {
                    text + strip_inline(s.skip(skip))
                } else {
                    seq![c] + strip_inline(s.skip(1))
                },
                None => seq![c] + strip_inline(s.skip(1)),
            }
        } else {
            seq![c] + strip_inline(s.skip(1))
        }
    }
}

/// Bounds of a link found by [`parse_link`].
proof fn lemma_parse_link_bounds(s: Seq<char>)
    ensures
        parse_link(s) matches Some((text, skip)) ==> 0 < skip <= s.len() && text == s.subrange(
            1,
            text.len() + 1int,
        ),
{
    if s.len() > 0 && s[0] == '[' {
        crate::text::lemma_first_index_of(s.skip(1), ']');
        if let Some(b) = first_index_of(s.skip(1), ']') {
            let cb = b + 1;
            let after = s.skip(cb + 1);
            crate::text::lemma_first_index_of(after, ')');
            crate::text::lemma_first_index_of(after.skip(1), ']');
        }
    }
}

/// Parses a link at the start of `s`.
fn parse_link_exec(s: &[char]) -> (r: Option<(Vec<char>, usize)>)
    ensures
        match r {
            Some((t, k)) => parse_link(s@) == Some((t@, k as int)),
            None => parse_link(s@) is None,
        },
{
    proof {
        lemma_parse_link_bounds(s@);
    }
    if s.len() == 0 || s[0] != '[' {
        return None;
    }
    let rest = slice_to_vec(s, 1, s.len());
    assert(rest@ =~= s@.skip(1));
    let b = match index_of_char(rest.as_slice(), ']') {
        None => {
            return None;
        },
        Some(b) => b,
    };
    proof {
        crate::text::lemma_first_index_of(s@.skip(1), ']');
    }
    let cb = b + 1;
    let text = slice_to_vec(s, 1, cb);
    let after = slice_to_vec(s, cb + 1, s.len());
    assert(after@ =~= s@.skip(cb + 1));
    if after.len() > 0 && after[0] == '(' {
        match index_of_char(after.as_slice(), ')') {
            None => None,
            Some(cp) => {
                proof {
                    crate::text::lemma_first_index_of(after@, ')');
                }
                Some((text, cb + 1 + cp + 1))
            },
        }
    } else if after.len() > 0 && after[0] == '[' {
        let after2 = slice_to_vec(after.as_slice(), 1, after.len());
        assert(after2@ =~= after@.skip(1));
        match index_of_char(after2.as_slice(), ']') {
            None => None,
            Some(b2) => {
                proof {
                    crate::text::lemma_first_index_of(after@.skip(1), ']');
                }
                Some((text, cb + 1 + b2 + 1 + 1))
            },
        }
    } else {
        None
    }
}

/// Strips inline markdown formatting from a single line.
pub fn strip_inline_chars(s: &[char]) -> (r: Vec<char>)
    ensures
        r@ == strip_inline(s@),
    decreases s@.len(),
{
    let mut out: Vec<char> = Vec::new();
    let mut i: usize = 0;
    assert(s@.skip(0) =~= s@);
    while i < s.len()
        invariant
            i <= s@.len(),
            out@ + strip_inline(s@.skip(i as int)) == strip_inline(s@),
        decreases s.len() - i,
    {
        let ghost t = s@.skip(i as int);
        let c = s[i];
        assert(t[0] == c);
        assert(t.skip(1) =~= s@.skip(i + 1));
        let ghost old_out = out@;
        if (c == '*' || c == '_') && i + 1 < s.len() && s[i + 1] == c {
            let rest = slice_to_vec(s, i + 2, s.len());
            assert(rest@ =~= t.skip(2));
            let m: Vec<char> = vec![c, c];
            assert(m@ =~= seq![c, c]);
            match find_from_exec(rest.as_slice(), m.as_slice(), 0) {
                Some(e) => {
                    proof {
                        crate::text::lemma_find_from(rest@, m@, 0);
                    }
                    let inner = slice_to_vec(s, i + 2, i + 2 + e);
                    assert(inner@ =~= t.subrange(2, 2 + e as int));
                    let si = strip_inline_chars(inner.as_slice());
                    append(&mut out, si.as_slice());
                    assert(t.skip(e + 4) =~= s@.skip(i + e + 4));
                    assert(out@ + strip_inline(s@.skip(i + e + 4)) =~= old_out + strip_inline(t));
                    i = i + e + 4;
                },
                None => {
                    out.push(c);
                    assert(out@ + strip_inline(s@.skip(i + 1)) =~= old_out + strip_inline(t));
                    i = i + 1;
                },
            }
        } else if c == '*' || c == '_' || c == '`' {
            let rest = slice_to_vec(s, i + 1, s.len());
            assert(rest@ =~= t.skip(1));
            match index_of_char(rest.as_slice(), c) {
                Some(e) => {
                    proof {
                        crate::text::lemma_first_index_of(rest@, c);
                    }
                    let inner = slice_to_vec(s, i + 1, i + 1 + e);
                    assert(inner@ =~= t.subrange(1, 1 + e as int));
                    if c == '`' {
                        append(&mut out, inner.as_slice());
                    } else {
                        let si = strip_inline_chars(inner.as_slice());
                        append(&mut out, si.as_slice());
                    }
                    assert(t.skip(e + 2) =~= s@.skip(i + e + 2));
                    assert(out@ + strip_inline(s@.skip(i + e + 2)) =~= old_out + strip_inline(t));
                    i = i + e + 2;
                },
                None => {
                    out.push(c);
                    assert(out@ + strip_inline(s@.skip(i + 1)) =~= old_out + strip_inline(t));
                    i = i + 1;
                },
            }
        } else if c == '[' {
            let tail = slice_to_vec(s, i, s.len());
            assert(tail@ =~= t);
            match parse_link_exec(tail.as_slice()) {
                Some((text, k)) => {
                    proof {
                        lemma_parse_link_bounds(t);
                    }
                    append(&mut out, text.as_slice());
                    assert(t.skip(k as int) =~= s@.skip(i + k));
                    assert(out@ + strip_inline(s@.skip(i + k)) =~= old_out + strip_inline(t));
                    i = i + k;
                },
                None => {
                    out.push(c);
                    assert(out@ + strip_inline(s@.skip(i + 1)) =~= old_out + strip_inline(t));
                    i = i + 1;
                },
            }
        } else {
            out.push(c);
            assert(out@ + strip_inline(s@.skip(i + 1)) =~= old_out + strip_inline(t));
            i = i + 1;
        }
    }
    assert(strip_inline(s@.skip(s@.len() as int)) =~= Seq::<char>::empty());
    assert(out@ + Seq::<char>::empty() =~= out@);
    out
}

/// Strips inline markdown formatting from a single line.
pub fn strip_inline_markdown(line: &str) -> (r: String)
    ensures
        r@ == strip_inline(line@),
{
    let v = crate::text::chars_of(line);
    crate::text::string_of(strip_inline_chars(v.as_slice()).as_slice())
}


// ---------------------------------------------------------------------------
// Block structure
// ---------------------------------------------------------------------------

/// The non-whitespace characters of `s`.
pub open spec fn non_ws(s: Seq<char>) -> Seq<char>
    decreases s.len(),
{
    if s.len() == 0 {
        seq![]
    } else if is_ws(s.last()) {
        non_ws(s.drop_last())
    } else {
        non_ws(s.drop_last()).push(s.last())
    }
}

/// A horizontal rule: at least three non-whitespace characters, all `-`,
/// all `*` or all `_`.
pub open spec fn is_horizontal_rule(t: Seq<char>) -> bool {
    let cs = non_ws(t);
    cs.len() >= 3 && (cs[0] == '-' || cs[0] == '*' || cs[0] == '_') && forall|i: int|
        0 <= i < cs.len() ==> #[trigger] cs[i] == cs[0]
}

fn is_horizontal_rule_exec(t: &[char]) -> (r: bool)
    ensures
        r == is_horizontal_rule(t@),
{
    let mut cs: Vec<char> = Vec::new();
    let mut i: usize = 0;
    while i < t.len()
        invariant
            i <= t@.len(),
            cs@ == non_ws(t@.take(i as int)),
        decreases t.len() - i,
    {
        assert(t@.take(i + 1).drop_last() =~= t@.take(i as int));
        if !is_ws_exec(t[i]) {
            cs.push(t[i]);
        }
        i = i + 1;
    }
    assert(t@.take(t@.len() as int) =~= t@);
    if cs.len() < 3 {
        return false;
    }
    let first = cs[0];
    if !(first == '-' || first == '*' || first == '_') {
        return false;
    }
    let mut k: usize = 0;
    while k < cs.len()
        invariant
            k <= cs@.len(),
            cs@.len() >= 3,
            cs@ == non_ws(t@),
            first == cs@[0],
            forall|j: int| 0 <= j < k ==> #[trigger] cs@[j] == first,
        decreases cs.len() - k,
    {
        if cs[k] != first {
            assert(cs@[k as int] != cs@[0]);
            return false;
        }
        k = k + 1;
    }
    true
}

/// `s` without its leading run of `c`.
pub open spec fn trim_start_char(s: Seq<char>, c: char) -> Seq<char>
    decreases s.len(),
{
    if s.len() > 0 && s[0] == c {
        trim_start_char(s.drop_first(), c)
    } else {
        s
    }
}

fn trim_start_char_exec(s: &[char], c: char) -> (r: Vec<char>)
    ensures
        r@ == trim_start_char(s@, c),
{
    let mut k: usize = 0;
    assert(s@.skip(0) =~= s@);
    while k < s.len() && s[k] == c
        invariant
            k <= s@.len(),
            trim_start_char(s@, c) == trim_start_char(s@.skip(k as int), c),
        decreases s.len() - k,
    {
        assert(s@.skip(k as int).drop_first() =~= s@.skip(k + 1));
        k = k + 1;
    }
    let r = slice_to_vec(s, k, s.len());
    assert(r@ =~= s@.skip(k as int));
    r
}

/// A heading's text: the line starts with `#`, and after the run of `#`
/// comes nothing or a space; the text is what follows, without leading
/// whitespace.
pub open spec fn strip_heading(t: Seq<char>) -> Option<Seq<char>> {
    if t.len() == 0 || t[0] != '#' {
        None
    } else {
        let w = trim_start_char(t, '#');
        if w.len() == 0 || w[0] == ' ' {
            Some(trim_start(w))
        } else {
            None
        }
    }
}

fn strip_heading_exec(t: &[char]) -> (r: Option<Vec<char>>)
    ensures
        match r {
            Some(h) => strip_heading(t@) == Some(h@),
            None => strip_heading(t@) is None,
        },
{
    if t.len() == 0 || t[0] != '#' {
        return None;
    }
    let w = trim_start_char_exec(t, '#');
    if w.len() == 0 || w[0] == ' ' {
        Some(trim_start_exec(w.as_slice()))
    } else {
        None
    }
}

/// The rest of a line after an unordered list marker (`- `, `* ` or `+ `,
/// after leading whitespace).
pub open spec fn strip_list_marker(line: Seq<char>) -> Option<Seq<char>> {
    let t = trim_start(line);
    if t.len() >= 2 && (t[0] == '-' || t[0] == '*' || t[0] == '+') && t[1] == ' ' {
        Some(t.skip(2))
    } else {
        None
    }
}

fn strip_list_marker_exec(line: &[char]) -> (r: Option<Vec<char>>)
    ensures
        match r {
            Some(h) => strip_list_marker(line@) == Some(h@),
            None => strip_list_marker(line@) is None,
        },
{
    let t = trim_start_exec(line);
    if t.len() >= 2 && (t[0] == '-' || t[0] == '*' || t[0] == '+') && t[1] == ' ' {
        let r = slice_to_vec(t.as_slice(), 2, t.len());
        assert(r@ =~= t@.skip(2));
        Some(r)
    } else {
        None
    }
}

/// After the first digit of a numbered item: more digits, then `. `; the
/// rest after the dot, without leading whitespace.
pub open spec fn numbered_rest(r: Seq<char>) -> Option<Seq<char>>
    decreases r.len(),
{
    if r.len() == 0 {
        None
    } else if r[0] == '.' {
        if r.len() > 1 && r[1] == ' ' {
            Some(trim_start(r.skip(1)))
        } else {
            None
        }
    } else if '0' <= r[0] && r[0] <= '9' {
        numbered_rest(r.drop_first())
    } else {
        None
    }
}

/// The rest of a line after a numbered list marker (`1. `, `42. `).
pub open spec fn strip_numbered_list_marker(line: Seq<char>) -> Option<Seq<char>> {
    let t = trim_start(line);
    if t.len() == 0 || !('0' <= t[0] && t[0] <= '9') {
        None
    } else {
        numbered_rest(t.skip(1))
    }
}

fn strip_numbered_list_marker_exec(line: &[char]) -> (r: Option<Vec<char>>)
    ensures
        match r {
            Some(h) => strip_numbered_list_marker(line@) == Some(h@),
            None => strip_numbered_list_marker(line@) is None,
        },
{
    let t = trim_start_exec(line);
    if t.len() == 0 || !('0' <= t[0] && t[0] <= '9') {
        return None;
    }
    let mut k: usize = 1;
    assert(t@.skip(1) =~= t@.skip(k as int));
    while k < t.len()
        invariant
            1 <= k <= t@.len(),
            t@ == trim_start(line@),
            '0' <= t@[0] && t@[0] <= '9',
            numbered_rest(t@.skip(1)) == numbered_rest(t@.skip(k as int)),
        decreases t.len() - k,
    {
        let ghost r = t@.skip(k as int);
        assert(r[0] == t@[k as int]);
        if t[k] == '.' {
            if k + 1 < t.len() && t[k + 1] == ' ' {
                let rest = slice_to_vec(t.as_slice(), k + 1, t.len());
                assert(rest@ =~= r.skip(1));
                return Some(trim_start_exec(rest.as_slice()));
            }
            return None;
        }
        if !('0' <= t[k] && t[k] <= '9') {
            return None;
        }
        assert(r.drop_first() =~= t@.skip(k + 1));
        k = k + 1;
    }
    None
}

/// A code fence line: ```` ``` ```` after leading whitespace.
pub open spec fn is_fence(line: Seq<char>) -> bool {
    starts_with(trim_start(line), seq!['`', '`', '`'])
}

fn is_fence_exec(line: &[char]) -> (r: bool)
    ensures
        r == is_fence(line@),
{
    let t = trim_start_exec(line);
    let f: Vec<char> = vec!['`', '`', '`'];
    assert(f@ =~= seq!['`', '`', '`']);
    starts_with_exec(t.as_slice(), f.as_slice())
}

/// Ensures the output ends with a blank line (unless it is empty).
pub open spec fn blank_sep(out: Seq<char>) -> Seq<char> {
    if out.len() > 0 && !ends_with(out, seq!['\n', '\n']) {
        if ends_with(out, seq!['\n']) {
            out.push('\n')
        } else {
            out + seq!['\n', '\n']
        }
    } else {
        out
    }
}

fn blank_sep_exec(out: &mut Vec<char>)
    ensures
        final(out)@ == blank_sep(old(out)@),
{
    let nn: Vec<char> = vec!['\n', '\n'];
    let n1: Vec<char> = vec!['\n'];
    assert(nn@ =~= seq!['\n', '\n']);
    assert(n1@ =~= seq!['\n']);
    if out.len() > 0 && !ends_with_exec(out.as_slice(), nn.as_slice()) {
        if ends_with_exec(out.as_slice(), n1.as_slice()) {
            out.push('\n');
        } else {
            append(out, nn.as_slice());
        }
    }
}

/// One line of the block-level conversion. Inside a code fence, lines are
/// indented by two spaces until the closing fence; a fence or a rule leaves
/// a blank line; headings lose their markers; quotes and list items lose
/// their markers and inline markup; other lines lose inline markup.
pub open spec fn md_step(st: (Seq<char>, bool), line: Seq<char>) -> (Seq<char>, bool) {
    let out = st.0;
    let nl = seq!['\n'];
    if st.1 {
        if is_fence(line) {
            (out, false)
        } else {
            (out + seq![' ', ' '] + line + nl, true)
        }
    } else if is_fence(line) {
        (blank_sep(out), true)
    } else {
        let t = trim(line);
        if is_horizontal_rule(t) {
            (blank_sep(out), false)
        } else if strip_heading(t) is Some {
            (out + strip_heading(t)->0 + nl, false)
        } else if starts_with(t, seq!['>', ' ']) {
            (out + strip_inline(t.skip(2)) + nl, false)
        } else if t == seq!['>'] {
            (out + nl, false)
        } else if strip_list_marker(line) is Some {
            (out + strip_inline(strip_list_marker(line)->0) + nl, false)
        } else if strip_numbered_list_marker(line) is Some {
            (out + strip_inline(strip_numbered_list_marker(line)->0) + nl, false)
        } else {
            (out + strip_inline(line) + nl, false)
        }
    }
}

/// The conversion of a sequence of lines.
pub open spec fn md_fold(lines: Seq<Seq<char>>) -> (Seq<char>, bool)
    decreases lines.len(),
{
    if lines.len() == 0 {
        (seq![], false)
    } else {
        md_step(md_fold(lines.drop_last()), lines.last())
    }
}

/// `l` without one trailing carriage return.
pub open spec fn strip_cr(l: Seq<char>) -> Seq<char> {
    if l.len() > 0 && l.last() == '\r' {
        l.drop_last()
    } else {
        l
    }
}

/// The lines of `s` as `str::lines` yields them: split on `\n`, a final
/// empty piece dropped, and a `\r` before each `\n` removed.
pub open spec fn md_lines(s: Seq<char>) -> Seq<Seq<char>> {
    let parts = split(s, seq!['\n']);
    let n = parts.len();
    let cnt = if n > 0 && parts[n - 1].len() == 0 {
        n - 1
    } else {
        n as int
    };
    Seq::new(cnt as nat, |k: int| if k < n - 1 { strip_cr(parts[k]) } else { parts[k] })
}

/// Markdown converted to plain text, without trailing newlines.
pub open spec fn spec_strip_markdown(s: Seq<char>) -> Seq<char> {
    trim_end_char(md_fold(md_lines(s)).0, '\n')
}

fn md_step_exec(out: &mut Vec<char>, fence: &mut bool, line: &[char])
    ensures
        (final(out)@, *final(fence)) == md_step((old(out)@, *old(fence)), line@),
{
    if *fence {
        if is_fence_exec(line) {
            *fence = false;
        } else {
            out.push(' ');
            out.push(' ');
            append(out, line);
            out.push('\n');
        }
        return;
    }
    if is_fence_exec(line) {
        blank_sep_exec(out);
        *fence = true;
        return;
    }
    let t = trim_exec(line);
    if is_horizontal_rule_exec(t.as_slice()) {
        blank_sep_exec(out);
        return;
    }
    if let Some(h) = strip_heading_exec(t.as_slice()) {
        append(out, h.as_slice());
        out.push('\n');
        return;
    }
    let q: Vec<char> = vec!['>', ' '];
    assert(q@ =~= seq!['>', ' ']);
    if starts_with_exec(t.as_slice(), q.as_slice()) {
        let rest = slice_to_vec(t.as_slice(), 2, t.len());
        assert(rest@ =~= t@.skip(2));
        let si = strip_inline_chars(rest.as_slice());
        append(out, si.as_slice());
        out.push('\n');
        return;
    }
    if t.len() == 1 && t[0] == '>' {
        assert(t@ =~= seq!['>']);
        out.push('\n');
        return;
    }
    assert(t@ != seq!['>']);
    if let Some(r) = strip_list_marker_exec(line) {
        let si = strip_inline_chars(r.as_slice());
        append(out, si.as_slice());
        out.push('\n');
        return;
    }
    if let Some(r) = strip_numbered_list_marker_exec(line) {
        let si = strip_inline_chars(r.as_slice());
        append(out, si.as_slice());
        out.push('\n');
        return;
    }
    let si = strip_inline_chars(line);
    append(out, si.as_slice());
    out.push('\n');
}

/// Strips markdown formatting from doc text for plain text display.
///
/// Handles headings, bold, italic, inline code, links, code fences,
/// blockquotes, list markers and horizontal rules.
pub fn strip_markdown_chars(input: &[char]) -> (r: Vec<char>)
    ensures
        r@ == spec_strip_markdown(input@),
{
    let nlv: Vec<char> = vec!['\n'];
    assert(nlv@ =~= seq!['\n']);
    let parts = split_exec(input, nlv.as_slice());
    let ghost pv = parts@.map_values(|v: Vec<char>| v@);
    proof {
        crate::text::lemma_split_nonempty(input@, seq!['\n']);
    }
    let n = parts.len();
    let cnt = if n > 0 && parts[n - 1].len() == 0 { n - 1 } else { n };
    let ghost lines = md_lines(input@);
    assert(lines.len() == cnt);
    let mut out: Vec<char> = Vec::new();
    let mut fence = false;
    let mut k: usize = 0;
    assert(lines.take(0) =~= Seq::<Seq<char>>::empty());
    while k < cnt
        invariant
            k <= cnt <= n,
            n == parts@.len(),
            pv == parts@.map_values(|v: Vec<char>| v@),
            pv == split(input@, seq!['\n']),
            lines == md_lines(input@),
            lines.len() == cnt,
            (out@, fence) == md_fold(lines.take(k as int)),
        decreases cnt - k,
    {
        assert(lines.take(k + 1).drop_last() =~= lines.take(k as int));
        let p = &parts[k];
        let line: Vec<char> = if k + 1 < n && p.len() > 0 && p[p.len() - 1] == '\r' {
            slice_to_vec(p.as_slice(), 0, p.len() - 1)
        } else {
            crate::text::copy_chars(p.as_slice())
        };
        assert(pv[k as int] == p@);
        assert(line@ =~= lines[k as int]);
        assert(lines.take(k + 1).last() == lines[k as int]);
        md_step_exec(&mut out, &mut fence, line.as_slice());
        k = k + 1;
    }
    assert(lines.take(cnt as int) =~= lines);
    trim_end_char_exec(out.as_slice(), '\n')
}

/// Strips markdown formatting from doc text for plain text display.
pub fn strip_markdown(input: &str) -> (r: String)
    ensures
        r@ == spec_strip_markdown(input@),
{
    let v = crate::text::chars_of(input);
    crate::text::string_of(strip_markdown_chars(v.as_slice()).as_slice())
}

} // verus!
