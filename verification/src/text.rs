//! Character-level string helpers shared by the whole library.
//!
//! Every string is modelled as the sequence of its `char`s (`s@`); the
//! helpers below work on `Vec<char>` and are specified over `Seq<char>`.
use vstd::prelude::*;

verus! {

// ---------------------------------------------------------------------------
// Names for std's Unicode case functions
// ---------------------------------------------------------------------------

/// What `str::to_lowercase` returns for the given characters (Unicode
/// lowercase mapping, with the final-sigma rule).
pub uninterp spec fn lower(s: Seq<char>) -> Seq<char>;

/// Whether `char::is_uppercase` holds (Unicode `Uppercase` property).
pub uninterp spec fn upper_char(c: char) -> bool;

/// Whether `char::is_lowercase` holds (Unicode `Lowercase` property).
pub uninterp spec fn lower_char(c: char) -> bool;

/// Calls `str::to_lowercase`; the result is named [`lower`] of the input.
#[verifier::external_body]
pub fn to_lower(s: &str) -> (r: String)
    ensures
        r@ == lower(s@),
{
    s.to_lowercase()
}

/// Calls `char::is_uppercase`; the result is named [`upper_char`].
#[verifier::external_body]
pub fn is_upper(c: char) -> (r: bool)
    ensures
        r == upper_char(c),
{
    c.is_uppercase()
}

/// Calls `char::is_lowercase`; the result is named [`lower_char`].
#[verifier::external_body]
pub fn is_lower(c: char) -> (r: bool)
    ensures
        r == lower_char(c),
{
    c.is_lowercase()
}

/// Calls `String::push`, which appends one character.
#[verifier::external_body]
pub fn push_char(s: &mut String, c: char)
    ensures
        final(s)@ == old(s)@.push(c),
{
    s.push(c);
}

// ---------------------------------------------------------------------------
// Conversions between strings and character vectors
// ---------------------------------------------------------------------------

/// Collects the characters of `s` into a vector.
pub fn chars_of(s: &str) -> (v: Vec<char>)
    ensures
        v@ == s@,
{
    let mut v: Vec<char> = Vec::new();
    for c in it: s.chars()
        invariant
            v@ == it.seq().take(it.index() as int),
    {
        v.push(c);
    }
    v
}

/// Builds a `String` holding exactly the given characters.
pub fn string_of(v: &[char]) -> (s: String)
    ensures
        s@ == v@,
{
    let mut s = String::new();
    let mut i: usize = 0;
    while i < v.len()
        invariant
            i <= v@.len(),
            s@ == v@.take(i as int),
        decreases v.len() - i,
    {
        push_char(&mut s, v[i]);
        i = i + 1;
        assert(s@ =~= v@.take(i as int));
    }
    assert(v@.take(v@.len() as int) =~= v@);
    s
}

/// Lowercases a character vector (through `str::to_lowercase`).
pub fn lower_chars(v: &[char]) -> (r: Vec<char>)
    ensures
        r@ == lower(v@),
{
    let s = string_of(v);
    let l = to_lower(s.as_str());
    chars_of(l.as_str())
}

/// Appends the characters of `src` to `dst`.
pub fn append(dst: &mut Vec<char>, src: &[char])
    ensures
        final(dst)@ == old(dst)@ + src@,
{
    let mut i: usize = 0;
    while i < src.len()
        invariant
            i <= src@.len(),
            dst@ == old(dst)@ + src@.take(i as int),
        decreases src.len() - i,
    {
        dst.push(src[i]);
        i = i + 1;
        assert(dst@ =~= old(dst)@ + src@.take(i as int));
    }
    assert(src@.take(src@.len() as int) =~= src@);
}

/// Appends the characters of a `str` to `dst`.
pub fn append_str(dst: &mut Vec<char>, src: &str)
    ensures
        final(dst)@ == old(dst)@ + src@,
{
    let c = chars_of(src);
    append(dst, c.as_slice());
}

/// Copies `v[from..to]`.
pub fn slice_to_vec(v: &[char], from: usize, to: usize) -> (r: Vec<char>)
    requires
        from <= to <= v@.len(),
    ensures
        r@ == v@.subrange(from as int, to as int),
{
    let mut r: Vec<char> = Vec::new();
    let mut i = from;
    while i < to
        invariant
            from <= i <= to,
            to <= v@.len(),
            r@ == v@.subrange(from as int, i as int),
        decreases to - i,
    {
        r.push(v[i]);
        i = i + 1;
        assert(r@ =~= v@.subrange(from as int, i as int));
    }
    r
}

/// Copies a whole character slice.
pub fn copy_chars(v: &[char]) -> (r: Vec<char>)
    ensures
        r@ == v@,
{
    let r = slice_to_vec(v, 0, v.len());
    assert(v@.subrange(0, v@.len() as int) =~= v@);
    r
}

// ---------------------------------------------------------------------------
// Equality, prefixes and substrings
// ---------------------------------------------------------------------------

/// Whether two character slices are equal.
pub fn chars_eq(a: &[char], b: &[char]) -> (r: bool)
    ensures
        r == (a@ == b@),
{
    if a.len() != b.len() {
        return false;
    }
    let mut i: usize = 0;
    while i < a.len()
        invariant
            a@.len() == b@.len(),
            i <= a@.len(),
            forall|j: int| 0 <= j < i ==> a@[j] == b@[j],
        decreases a.len() - i,
    {
        if a[i] != b[i] {
            return false;
        }
        i = i + 1;
    }
    assert(a@ =~= b@);
    true
}

/// `p` occurs in `s` starting at position `i`.
pub open spec fn occurs_at(s: Seq<char>, p: Seq<char>, i: int) -> bool {
    0 <= i && i + p.len() <= s.len() && s.subrange(i, i + p.len()) == p
}

/// `p` is a prefix of `s`.
pub open spec fn starts_with(s: Seq<char>, p: Seq<char>) -> bool {
    occurs_at(s, p, 0)
}

/// `p` is a suffix of `s`.
pub open spec fn ends_with(s: Seq<char>, p: Seq<char>) -> bool {
    p.len() <= s.len() && occurs_at(s, p, s.len() - p.len())
}

/// `p` occurs somewhere in `s`.
pub open spec fn contains(s: Seq<char>, p: Seq<char>) -> bool {
    exists|i: int| occurs_at(s, p, i)
}

/// Whether `p` occurs in `s` at position `i`.
pub fn occurs_at_exec(s: &[char], p: &[char], i: usize) -> (r: bool)
    ensures
        r == occurs_at(s@, p@, i as int),
{
    if i > s.len() || p.len() > s.len() - i {
        return false;
    }
    let mut k: usize = 0;
    while k < p.len()
        invariant
            i + p.len() <= s.len(),
            k <= p@.len(),
            forall|j: int| 0 <= j < k ==> s@[i + j] == p@[j],
        decreases p.len() - k,
    {
        if s[i + k] != p[k] {
            assert(s@.subrange(i as int, i + p@.len())[k as int] != p@[k as int]);
            return false;
        }
        k = k + 1;
    }
    assert(s@.subrange(i as int, i + p@.len()) =~= p@);
    true
}

/// Whether `s` starts with `p`.
pub fn starts_with_exec(s: &[char], p: &[char]) -> (r: bool)
    ensures
        r == starts_with(s@, p@),
{
    occurs_at_exec(s, p, 0)
}

/// Whether `s` ends with `p`.
pub fn ends_with_exec(s: &[char], p: &[char]) -> (r: bool)
    ensures
        r == ends_with(s@, p@),
{
    if p.len() > s.len() {
        return false;
    }
    occurs_at_exec(s, p, s.len() - p.len())
}

/// First position at or after `from` where `p` occurs in `s`.
pub open spec fn find_from(s: Seq<char>, p: Seq<char>, from: int) -> Option<int>
    decreases s.len() + 1 - from,
{
    if from < 0 || from + p.len() > s.len() {
        None
    } else if occurs_at(s, p, from) {
        Some(from)
    } else {
        find_from(s, p, from + 1)
    }
}

/// Characterises [`find_from`]: the result is the least occurrence at or after `from`.
pub proof fn lemma_find_from(s: Seq<char>, p: Seq<char>, from: int)
    requires
        0 <= from,
    ensures
        find_from(s, p, from) matches Some(i) ==> from <= i && occurs_at(s, p, i) && forall|
            j: int,
        |
            from <= j < i ==> !occurs_at(s, p, j),
        find_from(s, p, from) is None ==> forall|j: int| from <= j ==> !occurs_at(s, p, j),
    decreases s.len() + 1 - from,
{
    if from + p.len() > s.len() {
    } else if occurs_at(s, p, from) {
    } else {
        lemma_find_from(s, p, from + 1);
    }
}

/// First occurrence of `p` in `s` at or after `from`.
pub fn find_from_exec(s: &[char], p: &[char], from: usize) -> (r: Option<usize>)
    ensures
        r matches Some(i) ==> find_from(s@, p@, from as int) == Some(i as int),
        r is None ==> find_from(s@, p@, from as int) is None,
{
    let mut i = from;
    if p.len() > s.len() {
        assert(find_from(s@, p@, from as int) is None);
        return None;
    }
    if p.len() == 0 {
        if from <= s.len() {
            assert(s@.subrange(from as int, from as int) =~= p@);
            return Some(from);
        }
        return None;
    }
    while i <= s.len() - p.len()
        invariant
            from <= i,
            1 <= p@.len() <= s@.len(),
            find_from(s@, p@, from as int) == find_from(s@, p@, i as int),
        decreases s.len() - i,
    {
        if occurs_at_exec(s, p, i) {
            return Some(i);
        }
        i = i + 1;
    }
    None
}

/// Whether `p` occurs in `s`.
pub fn contains_exec(s: &[char], p: &[char]) -> (r: bool)
    ensures
        r == contains(s@, p@),
{
    let f = find_from_exec(s, p, 0);
    proof {
        lemma_find_from(s@, p@, 0);
    }
    match f {
        Some(i) => {
            assert(occurs_at(s@, p@, i as int));
            true
        },
        None => {
            assert forall|j: int| !occurs_at(s@, p@, j) by {
                if j >= 0 {
                }
            }
            false
        },
    }
}

/// Whether the character `c` occurs in `s`.
pub fn has_char(s: &[char], c: char) -> (r: bool)
    ensures
        r == s@.contains(c),
{
    let mut i: usize = 0;
    while i < s.len()
        invariant
            i <= s@.len(),
            forall|j: int| 0 <= j < i ==> s@[j] != c,
        decreases s.len() - i,
    {
        if s[i] == c {
            assert(s@[i as int] == c);
            return true;
        }
        i = i + 1;
    }
    false
}

/// Index of the first `c` in `s`.
pub open spec fn first_index_of(s: Seq<char>, c: char) -> Option<int>
    decreases s.len(),
{
    if s.len() == 0 {
        None
    } else if s[0] == c {
        Some(0)
    } else {
        match first_index_of(s.drop_first(), c) {
            Some(i) => Some(i + 1),
            None => None,
        }
    }
}

/// Characterises [`first_index_of`].
pub proof fn lemma_first_index_of(s: Seq<char>, c: char)
    ensures
        first_index_of(s, c) matches Some(i) ==> 0 <= i < s.len() && s[i] == c && forall|j: int|
            0 <= j < i ==> s[j] != c,
        first_index_of(s, c) is None ==> !s.contains(c),
    decreases s.len(),
{
    if s.len() > 0 && s[0] != c {
        lemma_first_index_of(s.drop_first(), c);
        if let Some(i) = first_index_of(s.drop_first(), c) {
            assert forall|j: int| 0 <= j < i + 1 implies s[j] != c by {
                if j > 0 {
                    assert(s[j] == s.drop_first()[j - 1]);
                }
            }
        }
        if first_index_of(s.drop_first(), c) is None {
            assert forall|j: int| 0 <= j < s.len() implies s[j] != c by {
                if j > 0 {
                    assert(s[j] == s.drop_first()[j - 1]);
                }
            }
        }
    }
}

/// Position of the first `c` in `s`.
pub fn index_of_char(s: &[char], c: char) -> (r: Option<usize>)
    ensures
        r matches Some(i) ==> first_index_of(s@, c) == Some(i as int),
        r is None ==> first_index_of(s@, c) is None,
{
    proof {
        lemma_first_index_of(s@, c);
    }
    let mut i: usize = 0;
    while i < s.len()
        invariant
            i <= s@.len(),
            forall|j: int| 0 <= j < i ==> s@[j] != c,
        decreases s.len() - i,
    {
        if s[i] == c {
            proof {
                lemma_first_index_unique(s@, c, i as int);
            }
            return Some(i);
        }
        i = i + 1;
    }
    proof {
        if first_index_of(s@, c) is Some {
            let k = first_index_of(s@, c)->0;
            assert(s@[k] == c);
        }
    }
    None
}

/// The first index of `c` is the position `i` where `c` first appears.
pub proof fn lemma_first_index_unique(s: Seq<char>, c: char, i: int)
    requires
        0 <= i < s.len(),
        s[i] == c,
        forall|j: int| 0 <= j < i ==> s[j] != c,
    ensures
        first_index_of(s, c) == Some(i),
    decreases s.len(),
{
    if i > 0 {
        assert forall|j: int| 0 <= j < i - 1 implies s.drop_first()[j] != c by {
            assert(s.drop_first()[j] == s[j + 1]);
        }
        lemma_first_index_unique(s.drop_first(), c, i - 1);
    }
}

// ---------------------------------------------------------------------------
// Splitting and joining
// ---------------------------------------------------------------------------

/// The pieces of `s` between non-overlapping occurrences of the non-empty
/// separator `sep`, scanned left to right (as `str::split` does).
pub open spec fn split(s: Seq<char>, sep: Seq<char>) -> Seq<Seq<char>>
    decreases s.len(),
{
    if sep.len() == 0 {
        seq![s]
    } else {
        match find_from(s, sep, 0) {
            Some(i) => if 0 <= i && i + sep.len() <= s.len() {
                seq![s.take(i)] + split(s.skip(i + sep.len()), sep)
            } else {
                seq![s]
            },
            None => seq![s],
        }
    }
}

/// The pieces of `s` joined with `sep` between them.
pub open spec fn join(parts: Seq<Seq<char>>, sep: Seq<char>) -> Seq<char>
    decreases parts.len(),
{
    if parts.len() == 0 {
        seq![]
    } else if parts.len() == 1 {
        parts[0]
    } else {
        parts[0] + sep + join(parts.drop_first(), sep)
    }
}

/// `str::split` always yields at least one piece.
pub proof fn lemma_split_nonempty(s: Seq<char>, sep: Seq<char>)
    ensures
        split(s, sep).len() >= 1,
    decreases s.len(),
{
    if sep.len() > 0 {
        if let Some(i) = find_from(s, sep, 0) {
            if 0 <= i && i + sep.len() <= s.len() {
                lemma_split_nonempty(s.skip(i + sep.len()), sep);
            }
        }
    }
}

/// Splits `s` on a non-empty separator.
pub fn split_exec(s: &[char], sep: &[char]) -> (r: Vec<Vec<char>>)
    requires
        sep@.len() > 0,
    ensures
        r@.map_values(|v: Vec<char>| v@) == split(s@, sep@),
{
    let mut parts: Vec<Vec<char>> = Vec::new();
    let mut start: usize = 0;
    proof {
        lemma_find_from(s@, sep@, 0);
        assert(s@.skip(0) =~= s@);
        assert(parts@.map_values(|v: Vec<char>| v@) =~= Seq::<Seq<char>>::empty());
    }
    loop
        invariant
            start <= s@.len(),
            sep@.len() > 0,
            split(s@, sep@) == parts@.map_values(|v: Vec<char>| v@) + split(
                s@.skip(start as int),
                sep@,
            ),
        decreases s.len() - start,
    {
        let ghost rest = s@.skip(start as int);
        let f = find_from_exec(s, sep, start);
        proof {
            lemma_find_from(s@, sep@, start as int);
            lemma_find_from(rest, sep@, 0);
            lemma_find_shift(s@, sep@, start as int);
        }
        match f {
            Some(i) => {
                let piece = slice_to_vec(s, start, i);
                let ghost old_parts = parts@.map_values(|v: Vec<char>| v@);
                parts.push(piece);
                assert(rest.take(i - start) =~= s@.subrange(start as int, i as int));
                assert(rest.skip(i - start + sep@.len()) =~= s@.skip(i + sep@.len()));
                assert(parts@.map_values(|v: Vec<char>| v@) =~= old_parts.push(
                    s@.subrange(start as int, i as int),
                ));
                start = i + sep.len();
            },
            None => {
                let piece = slice_to_vec(s, start, s.len());
                let ghost old_parts = parts@.map_values(|v: Vec<char>| v@);
                parts.push(piece);
                assert(rest =~= s@.subrange(start as int, s@.len() as int));
                assert(parts@.map_values(|v: Vec<char>| v@) =~= old_parts + split(rest, sep@));
                return parts;
            },
        }
    }
}

/// Finding from an offset is finding in the remainder, shifted.
pub proof fn lemma_find_shift(s: Seq<char>, p: Seq<char>, start: int)
    requires
        0 <= start <= s.len(),
    ensures
        find_from(s, p, start) matches Some(i) ==> find_from(s.skip(start), p, 0) == Some(i
            - start),
        find_from(s, p, start) is None ==> find_from(s.skip(start), p, 0) is None,
{
    lemma_find_from(s, p, start);
    lemma_find_from(s.skip(start), p, 0);
    let t = s.skip(start);
    assert forall|j: int| 0 <= j implies occurs_at(t, p, j) == occurs_at(s, p, j + start) by {
        if j + p.len() <= t.len() {
            assert(t.subrange(j, j + p.len()) =~= s.subrange(j + start, j + start + p.len()));
        }
    }
    match find_from(s, p, start) {
        Some(i) => {
            match find_from(t, p, 0) {
                Some(k) => {
                    assert(occurs_at(s, p, k + start));
                    assert(occurs_at(t, p, i - start));
                },
                None => {
                    assert(occurs_at(t, p, i - start));
                },
            }
        },
        None => {
            match find_from(t, p, 0) {
                Some(k) => {
                    assert(occurs_at(s, p, k + start));
                },
                None => {},
            }
        },
    }
}

/// Joins `parts[from..]` with a separator.
pub fn join_from(parts: &[Vec<char>], from: usize, sep: &[char]) -> (r: Vec<char>)
    requires
        from <= parts@.len(),
    ensures
        r@ == join(parts@.map_values(|v: Vec<char>| v@).skip(from as int), sep@),
{
    let ghost ps = parts@.map_values(|v: Vec<char>| v@);
    let mut r: Vec<char> = Vec::new();
    if from == parts.len() {
        assert(ps.skip(from as int) =~= Seq::<Seq<char>>::empty());
        return r;
    }
    let mut i: usize = parts.len() - 1;
    append(&mut r, parts[i].as_slice());
    assert(ps.subrange(i as int, ps.len() as int) =~= seq![ps[i as int]]);
    while i > from
        invariant
            from <= i < parts@.len(),
            ps == parts@.map_values(|v: Vec<char>| v@),
            r@ == join(ps.subrange(i as int, ps.len() as int), sep@),
        decreases i,
    {
        i = i - 1;
        let mut t: Vec<char> = Vec::new();
        append(&mut t, parts[i].as_slice());
        append(&mut t, sep);
        append(&mut t, r.as_slice());
        let ghost tail = ps.subrange(i as int, ps.len() as int);
        assert(tail.drop_first() =~= ps.subrange(i + 1, ps.len() as int));
        assert(tail[0] == ps[i as int]);
        r = t;
    }
    assert(ps.subrange(from as int, ps.len() as int) =~= ps.skip(from as int));
    r
}

/// Joins pieces with a separator.
pub fn join_exec(parts: &[Vec<char>], sep: &[char]) -> (r: Vec<char>)
    ensures
        r@ == join(parts@.map_values(|v: Vec<char>| v@), sep@),
{
    let r = join_from(parts, 0, sep);
    assert(parts@.map_values(|v: Vec<char>| v@).skip(0) =~= parts@.map_values(
        |v: Vec<char>| v@,
    ));
    r
}

/// The path separator `::`.
pub open spec fn path_sep() -> Seq<char> {
    seq![':', ':']
}

/// The path separator as a vector.
pub fn path_sep_exec() -> (r: Vec<char>)
    ensures
        r@ == path_sep(),
{
    let r = vec![':', ':'];
    assert(r@ =~= path_sep());
    r
}

/// The `::`-separated segments of a path.
pub open spec fn segments(s: Seq<char>) -> Seq<Seq<char>> {
    split(s, path_sep())
}

/// The first occurrence of `p` in `s` is at `i` when it occurs there and
/// nowhere before.
proof fn lemma_find_from_first(s: Seq<char>, p: Seq<char>, from: int, i: int)
    requires
        0 <= from <= i,
        occurs_at(s, p, i),
        forall|j: int| from <= j < i ==> !occurs_at(s, p, j),
    ensures
        find_from(s, p, from) == Some(i),
    decreases i - from,
{
    if from < i {
        lemma_find_from_first(s, p, from + 1, i);
    }
}

/// A segment that can stand before a `::` without blurring it: it holds no
/// `::` and does not end in `:`.
pub open spec fn clean_segment(p: Seq<char>) -> bool {
    !contains(p, path_sep()) && !(p.len() > 0 && p.last() == ':')
}

/// Splitting a `::`-joined path gives back its segments, when none but the
/// last ends in `:` and none holds `::`.
pub proof fn lemma_segments_join(parts: Seq<Seq<char>>)
    requires
        parts.len() >= 1,
        forall|i: int| 0 <= i < parts.len() - 1 ==> clean_segment(#[trigger] parts[i]),
        !contains(parts.last(), path_sep()),
    ensures
        segments(join(parts, path_sep())) == parts,
    decreases parts.len(),
{
    let sep = path_sep();
    let p0 = parts[0];
    if parts.len() == 1 {
        let s = join(parts, sep);
        assert(s == p0);
        lemma_find_from(s, sep, 0);
        if let Some(i) = find_from(s, sep, 0) {
            assert(occurs_at(p0, sep, i));
            assert(contains(p0, sep));
        }
        assert(segments(s) =~= parts);
    } else {
        let rest = parts.drop_first();
        assert forall|i: int| 0 <= i < rest.len() - 1 implies clean_segment(#[trigger] rest[i]) by {
            assert(rest[i] == parts[i + 1]);
        }
        lemma_segments_join(rest);
        let r = join(rest, sep);
        let s = join(parts, sep);
        assert(s == p0 + sep + r);
        let n = p0.len() as int;
        assert(clean_segment(parts[0]));
        assert(s.subrange(n, n + 2) =~= sep);
        assert forall|j: int| 0 <= j < n implies !occurs_at(s, sep, j) by {
            if occurs_at(s, sep, j) {
                if j + 2 <= n {
                    assert(p0.subrange(j, j + 2) =~= s.subrange(j, j + 2));
                    assert(occurs_at(p0, sep, j));
                } else {
                    assert(j == n - 1);
                    assert(s[j] == s.subrange(j, j + 2)[0]);
                    assert(p0.last() == s[j]);
                }
            }
        }
        lemma_find_from_first(s, sep, 0, n);
        assert(s.take(n) =~= p0);
        assert(s.skip(n + 2) =~= r);
        assert(segments(s) =~= seq![p0] + segments(r));
        assert(parts =~= seq![p0] + rest);
    }
}

/// Splits a path on `::`.
pub fn segments_exec(s: &[char]) -> (r: Vec<Vec<char>>)
    ensures
        r@.map_values(|v: Vec<char>| v@) == segments(s@),
{
    let sep = path_sep_exec();
    split_exec(s, sep.as_slice())
}

// ---------------------------------------------------------------------------
// Numbers and padding
// ---------------------------------------------------------------------------

/// The decimal digit for `d < 10`.
pub open spec fn digit_char(d: nat) -> char {
    if d == 0 { '0' } else if d == 1 { '1' } else if d == 2 { '2' } else if d == 3 { '3' }
    else if d == 4 { '4' } else if d == 5 { '5' } else if d == 6 { '6' } else if d == 7 { '7' }
    else if d == 8 { '8' } else { '9' }
}

/// The decimal representation of `n`, without leading zeros.
pub open spec fn decimal(n: nat) -> Seq<char>
    decreases n,
{
    if n < 10 {
        seq![digit_char(n)]
    } else {
        decimal(n / 10).push(digit_char(n % 10))
    }
}

fn digit_exec(d: u64) -> (c: char)
    requires
        d < 10,
    ensures
        c == digit_char(d as nat),
{
    if d == 0 { '0' } else if d == 1 { '1' } else if d == 2 { '2' } else if d == 3 { '3' }
    else if d == 4 { '4' } else if d == 5 { '5' } else if d == 6 { '6' } else if d == 7 { '7' }
    else if d == 8 { '8' } else { '9' }
}

/// The decimal representation of `n` (what `{}` formatting prints).
pub fn decimal_exec(n: u64) -> (r: Vec<char>)
    ensures
        r@ == decimal(n as nat),
    decreases n,
{
    if n < 10 {
        let mut r: Vec<char> = Vec::new();
        r.push(digit_exec(n));
        assert(r@ =~= decimal(n as nat));
        r
    } else {
        let mut r = decimal_exec(n / 10);
        r.push(digit_exec(n % 10));
        r
    }
}

/// The lowercase hexadecimal digit for `d < 16`.
pub open spec fn hex_char(d: nat) -> char {
    if d < 10 { digit_char(d) } else if d == 10 { 'a' } else if d == 11 { 'b' } else if d == 12 { 'c' }
    else if d == 13 { 'd' } else if d == 14 { 'e' } else { 'f' }
}

/// The lowest `k` hexadecimal digits of `n`, most significant first.
pub open spec fn hex_digits(n: nat, k: nat) -> Seq<char>
    decreases k,
{
    if k == 0 {
        seq![]
    } else {
        hex_digits(n / 16, (k - 1) as nat).push(hex_char(n % 16))
    }
}

/// `n` as exactly 16 lowercase hexadecimal digits (what `{:016x}` prints for a `u64`).
pub fn hex16_exec(n: u64) -> (r: Vec<char>)
    ensures
        r@ == hex_digits(n as nat, 16),
{
    let mut digits: Vec<char> = Vec::new();
    let mut k: u64 = 0;
    let mut m: u64 = n;
    // Collect the digits least significant first, then reverse.
    assert(pow16(0) == 1);
    assert((n as nat) / 1 == n as nat);
    while k < 16
        invariant
            k <= 16,
            m as nat == (n as nat) / pow16(k as nat),
            digits@.len() == k,
            forall|j: int| 0 <= j < k ==> digits@[j] == hex_char(((n as nat) / pow16(j as nat)) % 16),
        decreases 16 - k,
    {
        let d = m % 16;
        let c = if d < 10 { digit_exec(d) } else if d == 10 { 'a' } else if d == 11 { 'b' }
            else if d == 12 { 'c' } else if d == 13 { 'd' } else if d == 14 { 'e' } else { 'f' };
        digits.push(c);
        proof {
            lemma_pow16_step(n as nat, k as nat);
        }
        m = m / 16;
        k = k + 1;
    }
    let mut r: Vec<char> = Vec::new();
    let mut i: usize = 16;
    while i > 0
        invariant
            i <= 16,
            digits@.len() == 16,
            forall|j: int| 0 <= j < 16 ==> digits@[j] == hex_char(((n as nat) / pow16(j as nat)) % 16),
            r@ == hex_digits((n as nat) / pow16(i as nat), (16 - i) as nat),
        decreases i,
    {
        i = i - 1;
        r.push(digits[i]);
        proof {
            lemma_pow16_step(n as nat, i as nat);
        }
    }
    assert(pow16(0) == 1);
    assert((n as nat) / 1 == n as nat);
    r
}

/// Powers of sixteen.
pub open spec fn pow16(k: nat) -> nat
    decreases k,
{
    if k == 0 { 1 } else { 16 * pow16((k - 1) as nat) }
}

proof fn lemma_pow16_step(n: nat, k: nat)
    ensures
        pow16(k) > 0,
        n / pow16(k + 1) == (n / pow16(k)) / 16,
    decreases k,
{
    if k > 0 {
        lemma_pow16_step(n, (k - 1) as nat);
    }
    assert(pow16(k + 1) == 16 * pow16(k));
    vstd::arithmetic::div_mod::lemma_div_denominator(n as int, pow16(k) as int, 16);
    assert(pow16(k) * 16 == 16 * pow16(k)) by (nonlinear_arith);
}

/// `n` spaces.
pub open spec fn spaces(n: nat) -> Seq<char> {
    Seq::new(n, |i: int| ' ')
}

/// `s` left-aligned in a field of `w` characters (what `{:<w}` prints).
pub open spec fn pad_right(s: Seq<char>, w: nat) -> Seq<char> {
    if s.len() >= w {
        s
    } else {
        s + spaces((w - s.len()) as nat)
    }
}

/// Appends `s` left-aligned in a field of `w` characters.
pub fn append_padded(dst: &mut Vec<char>, s: &[char], w: usize)
    ensures
        final(dst)@ == old(dst)@ + pad_right(s@, w as nat),
{
    append(dst, s);
    let mut k = s.len();
    while k < w
        invariant
            s@.len() <= k <= w || (k == s@.len() && k >= w),
            dst@ == old(dst)@ + s@ + spaces((k - s@.len()) as nat),
        decreases w - k,
    {
        dst.push(' ');
        k = k + 1;
        assert(spaces((k - s@.len()) as nat) =~= spaces((k - 1 - s@.len()) as nat).push(' '));
    }
    assert(s@ + spaces((k - s@.len()) as nat) =~= pad_right(s@, w as nat));
}

// ---------------------------------------------------------------------------
// Whitespace and trimming
// ---------------------------------------------------------------------------

/// The Unicode `White_Space` property (what `char::is_whitespace` tests).
pub open spec fn is_ws(c: char) -> bool {
    let u = c as u32;
    u == 0x20 || (0x09 <= u && u <= 0x0d) || u == 0x85 || u == 0xa0 || u == 0x1680 || (0x2000 <= u
        && u <= 0x200a) || u == 0x2028 || u == 0x2029 || u == 0x202f || u == 0x205f || u == 0x3000
}

/// Whether `c` is whitespace.
pub fn is_ws_exec(c: char) -> (r: bool)
    ensures
        r == is_ws(c),
{
    let u = c as u32;
    u == 0x20 || (0x09 <= u && u <= 0x0d) || u == 0x85 || u == 0xa0 || u == 0x1680 || (0x2000 <= u
        && u <= 0x200a) || u == 0x2028 || u == 0x2029 || u == 0x202f || u == 0x205f || u == 0x3000
}

/// `s` without leading whitespace.
pub open spec fn trim_start(s: Seq<char>) -> Seq<char>
    decreases s.len(),
{
    if s.len() > 0 && is_ws(s[0]) {
        trim_start(s.drop_first())
    } else {
        s
    }
}

/// `s` without trailing whitespace.
pub open spec fn trim_end(s: Seq<char>) -> Seq<char>
    decreases s.len(),
{
    if s.len() > 0 && is_ws(s.last()) {
        trim_end(s.drop_last())
    } else {
        s
    }
}

/// `s` without leading and trailing whitespace.
pub open spec fn trim(s: Seq<char>) -> Seq<char> {
    trim_end(trim_start(s))
}

/// Number of leading whitespace characters of `v`.
pub fn leading_ws(v: &[char]) -> (k: usize)
    ensures
        k <= v@.len(),
        trim_start(v@) == v@.skip(k as int),
{
    let mut k: usize = 0;
    assert(v@.skip(0) =~= v@);
    while k < v.len() && is_ws_exec(v[k])
        invariant
            k <= v@.len(),
            trim_start(v@) == trim_start(v@.skip(k as int)),
        decreases v.len() - k,
    {
        assert(v@.skip(k as int).drop_first() =~= v@.skip(k + 1));
        k = k + 1;
    }
    k
}

/// Length of `v` without its trailing whitespace.
pub fn trailing_ws_end(v: &[char]) -> (e: usize)
    ensures
        e <= v@.len(),
        trim_end(v@) == v@.take(e as int),
{
    let mut e: usize = v.len();
    assert(v@.take(e as int) =~= v@);
    while e > 0 && is_ws_exec(v[e - 1])
        invariant
            e <= v@.len(),
            trim_end(v@) == trim_end(v@.take(e as int)),
        decreases e,
    {
        assert(v@.take(e as int).drop_last() =~= v@.take(e - 1));
        e = e - 1;
    }
    e
}

/// `v` without leading and trailing whitespace.
pub fn trim_exec(v: &[char]) -> (r: Vec<char>)
    ensures
        r@ == trim(v@),
{
    let k = leading_ws(v);
    let t = slice_to_vec(v, k, v.len());
    assert(t@ =~= v@.skip(k as int));
    let e = trailing_ws_end(t.as_slice());
    slice_to_vec(t.as_slice(), 0, e)
}

/// `v` without leading whitespace.
pub fn trim_start_exec(v: &[char]) -> (r: Vec<char>)
    ensures
        r@ == trim_start(v@),
{
    let k = leading_ws(v);
    let t = slice_to_vec(v, k, v.len());
    assert(t@ =~= v@.skip(k as int));
    t
}

/// `v` without trailing whitespace.
pub fn trim_end_exec(v: &[char]) -> (r: Vec<char>)
    ensures
        r@ == trim_end(v@),
{
    let e = trailing_ws_end(v);
    slice_to_vec(v, 0, e)
}

/// Whether some character of `v` is uppercase.
pub open spec fn any_upper(s: Seq<char>) -> bool {
    exists|i: int| 0 <= i < s.len() && upper_char(#[trigger] s[i])
}

/// Whether some character of `v` is uppercase.
pub fn any_upper_exec(v: &[char]) -> (r: bool)
    ensures
        r == any_upper(v@),
{
    let mut i: usize = 0;
    while i < v.len()
        invariant
            i <= v@.len(),
            forall|j: int| 0 <= j < i ==> !upper_char(#[trigger] v@[j]),
        decreases v.len() - i,
    {
        if is_upper(v[i]) {
            return true;
        }
        i = i + 1;
    }
    false
}


// ---------------------------------------------------------------------------
// Last occurrence, UTF-8 widths, words
// ---------------------------------------------------------------------------

/// The greatest position at or below `end` where `p` occurs in `s`.
pub open spec fn rfind_upto(s: Seq<char>, p: Seq<char>, end: int) -> Option<int>
    decreases end + 1,
{
    if end < 0 {
        None
    } else if occurs_at(s, p, end) {
        Some(end)
    } else {
        rfind_upto(s, p, end - 1)
    }
}

/// The last position where `p` occurs in `s`.
pub open spec fn rfind(s: Seq<char>, p: Seq<char>) -> Option<int> {
    rfind_upto(s, p, s.len() - p.len())
}

/// Last occurrence of `p` in `s`.
pub fn rfind_exec(s: &[char], p: &[char]) -> (r: Option<usize>)
    ensures
        r matches Some(i) ==> rfind(s@, p@) == Some(i as int) && i + p@.len() <= s@.len(),
        r is None ==> rfind(s@, p@) is None,
{
    if p.len() > s.len() {
        return None;
    }
    let mut e: usize = s.len() - p.len();
    loop
        invariant
            e + p@.len() <= s@.len(),
            rfind(s@, p@) == rfind_upto(s@, p@, e as int),
        decreases e,
    {
        if occurs_at_exec(s, p, e) {
            return Some(e);
        }
        if e == 0 {
            assert(rfind_upto(s@, p@, -1) is None);
            return None;
        }
        e = e - 1;
    }
}

/// The number of bytes `c` takes in UTF-8.
pub open spec fn utf8_width(c: char) -> nat {
    vstd::utf8::encode_scalar(c as u32).len()
}

/// The number of bytes of `c` in UTF-8.
pub fn utf8_width_exec(c: char) -> (r: usize)
    ensures
        r == utf8_width(c),
        1 <= r <= 4,
{
    let u = c as u32;
    if u <= 0x7f {
        1
    } else if u <= 0x7ff {
        2
    } else if u <= 0xffff {
        3
    } else {
        4
    }
}

/// The number of leading characters of `s` whose UTF-8 encoding fits in
/// `max` bytes (cutting only at character boundaries).
pub open spec fn char_prefix_len(s: Seq<char>, max: int) -> nat
    decreases s.len(),
{
    if s.len() == 0 || utf8_width(s[0]) > max {
        0
    } else {
        1 + char_prefix_len(s.drop_first(), max - utf8_width(s[0]))
    }
}

/// The number of leading characters of `s` whose UTF-8 encoding fits in `max` bytes.
pub fn char_prefix_len_exec(s: &[char], max: usize) -> (r: usize)
    ensures
        r == char_prefix_len(s@, max as int),
        r <= s@.len(),
{
    let mut i: usize = 0;
    let mut budget: usize = max;
    assert(s@.skip(0) =~= s@);
    while i < s.len()
        invariant
            i <= s@.len(),
            char_prefix_len(s@, max as int) == i + char_prefix_len(s@.skip(i as int), budget as int),
        decreases s.len() - i,
    {
        let w = utf8_width_exec(s[i]);
        assert(s@.skip(i as int)[0] == s@[i as int]);
        if w > budget {
            return i;
        }
        assert(s@.skip(i as int).drop_first() =~= s@.skip(i + 1));
        budget = budget - w;
        i = i + 1;
    }
    assert(s@.skip(i as int).len() == 0);
    i
}

/// The prefix counted by [`char_prefix_len`] encodes in at most `max` bytes.
pub proof fn lemma_utf8_len_prefix(s: Seq<char>, max: int)
    ensures
        char_prefix_len(s, max) <= s.len(),
        vstd::utf8::encode_utf8(s.take(char_prefix_len(s, max) as int)).len() <= if max < 0 {
            0
        } else {
            max
        },
    decreases s.len(),
{
    let n = char_prefix_len(s, max);
    if s.len() == 0 || utf8_width(s[0]) > max {
        assert(s.take(0) =~= Seq::<char>::empty());
    } else {
        let t = s.drop_first();
        lemma_utf8_len_prefix(t, max - utf8_width(s[0]));
        assert(s.take(n as int).drop_first() =~= t.take(n - 1));
        assert(s.take(n as int)[0] == s[0]);
    }
}

/// The runs of non-whitespace characters of `s`, given the run in progress.
pub open spec fn words_from(s: Seq<char>, cur: Seq<char>) -> Seq<Seq<char>>
    decreases s.len(),
{
    if s.len() == 0 {
        if cur.len() > 0 {
            seq![cur]
        } else {
            seq![]
        }
    } else if is_ws(s[0]) {
        (if cur.len() > 0 {
            seq![cur]
        } else {
            seq![]
        }) + words_from(s.drop_first(), seq![])
    } else {
        words_from(s.drop_first(), cur.push(s[0]))
    }
}

/// The whitespace-separated words of `s` (what `str::split_whitespace` yields).
pub open spec fn words(s: Seq<char>) -> Seq<Seq<char>> {
    words_from(s, seq![])
}

/// Splits on whitespace, dropping empty pieces.
pub fn words_exec(s: &[char]) -> (r: Vec<Vec<char>>)
    ensures
        r@.map_values(|v: Vec<char>| v@) == words(s@),
{
    let mut out: Vec<Vec<char>> = Vec::new();
    let mut cur: Vec<char> = Vec::new();
    let mut i: usize = 0;
    assert(s@.skip(0) =~= s@);
    assert(out@.map_values(|v: Vec<char>| v@) + words_from(s@, seq![]) =~= words(s@));
    while i < s.len()
        invariant
            i <= s@.len(),
            out@.map_values(|v: Vec<char>| v@) + words_from(s@.skip(i as int), cur@) == words(s@),
        decreases s.len() - i,
    {
        let ghost rest = s@.skip(i as int);
        let ghost ov = out@.map_values(|v: Vec<char>| v@);
        assert(rest[0] == s@[i as int]);
        assert(rest.drop_first() =~= s@.skip(i + 1));
        let c = s[i];
        if is_ws_exec(c) {
            if cur.len() > 0 {
                let ghost cv = cur@;
                out.push(cur);
                cur = Vec::new();
                assert(out@.map_values(|v: Vec<char>| v@) =~= ov.push(cv));
                assert(ov + (seq![cv] + words_from(rest.drop_first(), seq![])) =~= ov.push(cv)
                    + words_from(rest.drop_first(), seq![]));
                assert(cur@ =~= Seq::<char>::empty());
            } else {
                assert(seq![] + words_from(rest.drop_first(), seq![]) =~= words_from(
                    rest.drop_first(),
                    seq![],
                ));
                assert(cur@ =~= Seq::<char>::empty());
            }
        } else {
            cur.push(c);
        }
        i = i + 1;
    }
    let ghost ov = out@.map_values(|v: Vec<char>| v@);
    if cur.len() > 0 {
        let ghost cv = cur@;
        out.push(cur);
        assert(out@.map_values(|v: Vec<char>| v@) =~= ov.push(cv));
        assert(ov + seq![cv] =~= ov.push(cv));
    } else {
        assert(ov + Seq::<Seq<char>>::empty() =~= ov);
    }
    out
}


/// `s` with every `a` replaced by `b`.
pub open spec fn replace_char(s: Seq<char>, a: char, b: char) -> Seq<char> {
    s.map_values(|c: char| if c == a { b } else { c })
}

/// Replaces every `a` in `s` by `b`.
pub fn replace_char_exec(s: &[char], a: char, b: char) -> (r: Vec<char>)
    ensures
        r@ == replace_char(s@, a, b),
{
    let mut r: Vec<char> = Vec::new();
    let mut i: usize = 0;
    while i < s.len()
        invariant
            i <= s@.len(),
            r@ == replace_char(s@.take(i as int), a, b),
        decreases s.len() - i,
    {
        let c = s[i];
        r.push(if c == a { b } else { c });
        assert(replace_char(s@.take(i + 1), a, b) =~= replace_char(s@.take(i as int), a, b).push(
            if c == a { b } else { c },
        ));
        i = i + 1;
    }
    assert(s@.take(s@.len() as int) =~= s@);
    r
}
/// `s` without its trailing run of `c`.
pub open spec fn trim_end_char(s: Seq<char>, c: char) -> Seq<char>
    decreases s.len(),
{
    if s.len() > 0 && s.last() == c {
        trim_end_char(s.drop_last(), c)
    } else {
        s
    }
}

pub fn trim_end_char_exec(s: &[char], c: char) -> (r: Vec<char>)
    ensures
        r@ == trim_end_char(s@, c),
{
    let mut e: usize = s.len();
    assert(s@.take(e as int) =~= s@);
    while e > 0 && s[e - 1] == c
        invariant
            e <= s@.len(),
            trim_end_char(s@, c) == trim_end_char(s@.take(e as int), c),
        decreases e,
    {
        assert(s@.take(e as int).drop_last() =~= s@.take(e - 1));
        e = e - 1;
    }
    slice_to_vec(s, 0, e)
}


/// Encoding one more character appends its encoding.
pub proof fn lemma_utf8_push(a: Seq<char>, c: char)
    ensures
        vstd::utf8::encode_utf8(a.push(c)) == vstd::utf8::encode_utf8(a) + vstd::utf8::encode_scalar(
            c as u32,
        ),
    decreases a.len(),
{
    let e = vstd::utf8::encode_scalar(c as u32);
    if a.len() == 0 {
        assert(a.push(c).drop_first() =~= Seq::<char>::empty());
        assert(vstd::utf8::encode_utf8(a) =~= Seq::<u8>::empty());
        assert(vstd::utf8::encode_utf8(a.push(c)) == vstd::utf8::encode_scalar(a.push(c)[0] as u32)
            + vstd::utf8::encode_utf8(a.push(c).drop_first()));
        assert(vstd::utf8::encode_utf8(a.push(c)) =~= e);
        assert(Seq::<u8>::empty() + e =~= e);
    } else {
        lemma_utf8_push(a.drop_first(), c);
        assert(a.push(c).drop_first() =~= a.drop_first().push(c));
        assert(a.push(c)[0] == a[0]);
        let h = vstd::utf8::encode_scalar(a[0] as u32);
        let t = vstd::utf8::encode_utf8(a.drop_first());
        assert(vstd::utf8::encode_utf8(a.push(c)) == h + vstd::utf8::encode_utf8(a.push(c).drop_first()));
        assert(vstd::utf8::encode_utf8(a) == h + t);
        assert(h + (t + e) =~= (h + t) + e);
    }
}

/// The number of UTF-8 bytes of the first `i` characters of `s`.
pub fn byte_offset(s: &[char], i: usize) -> (r: usize)
    requires
        i <= s@.len(),
        vstd::utf8::encode_utf8(s@.take(i as int)).len() <= usize::MAX,
    ensures
        r == vstd::utf8::encode_utf8(s@.take(i as int)).len(),
{
    let mut b: usize = 0;
    let mut k: usize = 0;
    assert(s@.take(0) =~= Seq::<char>::empty());
    while k < i
        invariant
            k <= i <= s@.len(),
            b == vstd::utf8::encode_utf8(s@.take(k as int)).len(),
            vstd::utf8::encode_utf8(s@.take(i as int)).len() <= usize::MAX,
        decreases i - k,
    {
        proof {
            lemma_utf8_push(s@.take(k as int), s@[k as int]);
            assert(s@.take(k as int).push(s@[k as int]) =~= s@.take(k + 1));
            lemma_utf8_prefix_mono(s@, k + 1, i as int);
        }
        let w = utf8_width_exec(s[k]);
        b = b + w;
        k = k + 1;
    }
    b
}

/// A longer prefix takes at least as many bytes.
pub proof fn lemma_utf8_prefix_mono(s: Seq<char>, a: int, b: int)
    requires
        0 <= a <= b <= s.len(),
    ensures
        vstd::utf8::encode_utf8(s.take(a)).len() <= vstd::utf8::encode_utf8(s.take(b)).len(),
    decreases b - a,
{
    if a < b {
        lemma_utf8_prefix_mono(s, a, b - 1);
        lemma_utf8_push(s.take(b - 1), s[b - 1]);
        assert(s.take(b - 1).push(s[b - 1]) =~= s.take(b));
    }
}
} // verus!
