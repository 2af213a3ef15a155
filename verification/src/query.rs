//! The lookup pipeline: resolves a query string against a [`DocIndex`].
//!
//! Stages: exact path, case-insensitive path, suffix, name, then not-found
//! with Levenshtein suggestions. An all-lowercase query matches any casing;
//! a query with an uppercase character only matches its exact case.
use vstd::prelude::*;
use crate::sort::{entry_payloads, entry_views, payloads, sort_entries, stable_sort, SortEntry};
use crate::text::{
    append, append_str, copy_chars, has_char, is_lower, lower_char,
    any_upper, any_upper_exec, chars_eq, chars_of, contains, contains_exec, lower, path_sep,
    join, path_sep_exec, segments, segments_exec, starts_with, string_of,
};
use crate::types::{
    clone_positions, spec_matches_filter, ChildRef, spec_meta, DocIndex, IndexItem, ItemKind, QueryResult,
};

verus! {

// ---------------------------------------------------------------------------
// Filtering helpers
// ---------------------------------------------------------------------------

/// One more element of a prefix either joins the filtered prefix or not.
pub proof fn lemma_filter_take_step(s: Seq<usize>, pred: spec_fn(usize) -> bool, k: int)
    requires
        0 <= k < s.len(),
    ensures
        s.take(k + 1).filter(pred) == if pred(s[k]) {
            s.take(k).filter(pred).push(s[k])
        } else {
            s.take(k).filter(pred)
        },
{
    reveal_with_fuel(Seq::<_>::filter, 1);
    assert(s.take(k + 1).drop_last() =~= s.take(k));
    assert(s.take(k + 1).last() == s[k]);
}

/// The whole sequence is its longest prefix.
pub proof fn lemma_take_all(s: Seq<usize>)
    ensures
        s.take(s.len() as int) == s,
{
    assert(s.take(s.len() as int) =~= s);
}

/// The item at a position.
pub open spec fn item_at(idx: &DocIndex, i: usize) -> IndexItem {
    idx.items@[i as int]
}

/// All positions in a list point at items.
pub open spec fn all_in_bounds(idx: &DocIndex, s: Seq<usize>) -> bool {
    forall|j: int| 0 <= j < s.len() ==> #[trigger] s[j] < idx.items@.len()
}

/// Filtering keeps positions in bounds.
pub proof fn lemma_filter_in_bounds(idx: &DocIndex, s: Seq<usize>, pred: spec_fn(usize) -> bool)
    requires
        all_in_bounds(idx, s),
    ensures
        all_in_bounds(idx, s.filter(pred)),
{
    assert forall|j: int| 0 <= j < s.filter(pred).len() implies #[trigger] s.filter(pred)[j]
        < idx.items@.len() by {
        s.lemma_filter_contains_rev(pred, s.filter(pred)[j]);
        s.filter_lemma(pred);
    }
}

/// The kind-filter predicate.
pub open spec fn kind_pred(idx: &DocIndex, f: ItemKind) -> spec_fn(usize) -> bool {
    |i: usize| spec_matches_filter(item_at(idx, i).kind, f)
}

/// Positions whose kind matches the filter (all of them when there is no filter).
pub open spec fn spec_apply_kind_filter(idx: &DocIndex, s: Seq<usize>, kf: Option<ItemKind>) -> Seq<
    usize,
> {
    match kf {
        None => s,
        Some(f) => s.filter(kind_pred(idx, f)),
    }
}

/// Filters positions to those whose kind matches the filter.
pub fn apply_kind_filter(idx: &DocIndex, s: &[usize], kf: Option<ItemKind>) -> (r: Vec<usize>)
    requires
        all_in_bounds(idx, s@),
    ensures
        r@ == spec_apply_kind_filter(idx, s@, kf),
        all_in_bounds(idx, r@),
{
    match kf {
        None => {
            let r = clone_positions_slice(s);
            r
        },
        Some(f) => {
            let ghost pred = kind_pred(idx, f);
            let mut r: Vec<usize> = Vec::new();
            let mut k: usize = 0;
            assert(s@.take(0).filter(pred) =~= Seq::<usize>::empty()) by {
                reveal_with_fuel(Seq::<_>::filter, 1);
            }
            while k < s.len()
                invariant
                    k <= s@.len(),
                    all_in_bounds(idx, s@),
                    pred == kind_pred(idx, f),
                    r@ == s@.take(k as int).filter(pred),
                decreases s.len() - k,
            {
                proof {
                    lemma_filter_take_step(s@, pred, k as int);
                }
                let i = s[k];
                if idx.items[i].kind.matches_filter(f) {
                    r.push(i);
                }
                k = k + 1;
            }
            proof {
                lemma_take_all(s@);
                lemma_filter_in_bounds(idx, s@, pred);
            }
            r
        },
    }
}

/// Copies a slice of positions.
pub fn clone_positions_slice(s: &[usize]) -> (r: Vec<usize>)
    ensures
        r@ == s@,
{
    let mut r: Vec<usize> = Vec::new();
    let mut i: usize = 0;
    while i < s.len()
        invariant
            i <= s@.len(),
            r@ == s@.take(i as int),
        decreases s.len() - i,
    {
        r.push(s[i]);
        i = i + 1;
        assert(r@ =~= s@.take(i as int));
    }
    assert(s@.take(s@.len() as int) =~= s@);
    r
}

/// The last `n` elements of `s` (all of `s` when it is shorter).
pub open spec fn last_n(s: Seq<Seq<char>>, n: int) -> Seq<Seq<char>> {
    s.skip(s.len() - n)
}

/// The case-sensitive suffix predicate: the item path's last segments equal
/// the query segments exactly.
pub open spec fn exact_case_suffix_pred(idx: &DocIndex, q: Seq<Seq<char>>) -> spec_fn(usize) -> bool {
    |i: usize|
        {
            let isegs = segments(item_at(idx, i).path@);
            isegs.len() >= q.len() && last_n(isegs, q.len() as int) == q
        }
}

/// The case-sensitive name predicate.
pub open spec fn exact_name_pred(idx: &DocIndex, q: Seq<char>) -> spec_fn(usize) -> bool {
    |i: usize| item_at(idx, i).name@ == q
}

/// Case rule: an all-lowercase query keeps everything; otherwise a
/// multi-segment query must equal the item path's last segments exactly and a
/// single-segment query must equal the item name exactly.
pub open spec fn spec_apply_case_sensitivity(idx: &DocIndex, s: Seq<usize>, q: Seq<char>) -> Seq<
    usize,
> {
    if !any_upper(q) {
        s
    } else if contains(q, path_sep()) {
        s.filter(exact_case_suffix_pred(idx, segments(q)))
    } else {
        s.filter(exact_name_pred(idx, q))
    }
}

/// Whether `a[off..]` equals `b` (as character sequences).
fn tail_equals(a: &Vec<Vec<char>>, b: &Vec<Vec<char>>) -> (r: bool)
    ensures
        r == (a@.len() >= b@.len() && last_n(
            a@.map_values(|v: Vec<char>| v@),
            b@.len() as int,
        ) == b@.map_values(|v: Vec<char>| v@)),
{
    let ghost av = a@.map_values(|v: Vec<char>| v@);
    let ghost bv = b@.map_values(|v: Vec<char>| v@);
    if a.len() < b.len() {
        return false;
    }
    let off = a.len() - b.len();
    let mut j: usize = 0;
    while j < b.len()
        invariant
            off + b.len() == a.len(),
            j <= b@.len(),
            av == a@.map_values(|v: Vec<char>| v@),
            bv == b@.map_values(|v: Vec<char>| v@),
            forall|t: int| 0 <= t < j ==> av[off + t] == bv[t],
        decreases b.len() - j,
    {
        if !chars_eq(a[off + j].as_slice(), b[j].as_slice()) {
            assert(last_n(av, bv.len() as int)[j as int] == av[off + j]);
            return false;
        }
        j = j + 1;
    }
    assert(last_n(av, bv.len() as int) =~= bv);
    true
}

/// Applies the case-sensitivity rule.
pub fn apply_case_sensitivity(idx: &DocIndex, s: &[usize], q: &[char]) -> (r: Vec<usize>)
    requires
        all_in_bounds(idx, s@),
    ensures
        r@ == spec_apply_case_sensitivity(idx, s@, q@),
        all_in_bounds(idx, r@),
{
    if !any_upper_exec(q) {
        return clone_positions_slice(s);
    }
    let sep = path_sep_exec();
    if contains_exec(q, sep.as_slice()) {
        let qsegs = segments_exec(q);
        let ghost pred = exact_case_suffix_pred(idx, segments(q@));
        let mut r: Vec<usize> = Vec::new();
        let mut k: usize = 0;
        assert(s@.take(0).filter(pred) =~= Seq::<usize>::empty()) by {
            reveal_with_fuel(Seq::<_>::filter, 1);
        }
        while k < s.len()
            invariant
                k <= s@.len(),
                all_in_bounds(idx, s@),
                pred == exact_case_suffix_pred(idx, segments(q@)),
                qsegs@.map_values(|v: Vec<char>| v@) == segments(q@),
                r@ == s@.take(k as int).filter(pred),
            decreases s.len() - k,
        {
            proof {
                lemma_filter_take_step(s@, pred, k as int);
            }
            let i = s[k];
            let pc = chars_of(idx.items[i].path.as_str());
            let isegs = segments_exec(pc.as_slice());
            if tail_equals(&isegs, &qsegs) {
                r.push(i);
            }
            k = k + 1;
        }
        proof {
            lemma_take_all(s@);
            lemma_filter_in_bounds(idx, s@, pred);
        }
        r
    } else {
        let ghost pred = exact_name_pred(idx, q@);
        let mut r: Vec<usize> = Vec::new();
        let mut k: usize = 0;
        assert(s@.take(0).filter(pred) =~= Seq::<usize>::empty()) by {
            reveal_with_fuel(Seq::<_>::filter, 1);
        }
        while k < s.len()
            invariant
                k <= s@.len(),
                all_in_bounds(idx, s@),
                pred == exact_name_pred(idx, q@),
                r@ == s@.take(k as int).filter(pred),
            decreases s.len() - k,
        {
            proof {
                lemma_filter_take_step(s@, pred, k as int);
            }
            let i = s[k];
            let nc = chars_of(idx.items[i].name.as_str());
            if chars_eq(nc.as_slice(), q) {
                r.push(i);
            }
            k = k + 1;
        }
        proof {
            lemma_take_all(s@);
            lemma_filter_in_bounds(idx, s@, pred);
        }
        r
    }
}

// ---------------------------------------------------------------------------
// Edit distance and suggestions
// ---------------------------------------------------------------------------

/// Levenshtein edit distance (insertions, deletions, substitutions).
pub open spec fn lev(a: Seq<char>, b: Seq<char>) -> nat
    decreases a.len() + b.len(),
{
    if a.len() == 0 {
        b.len()
    } else if b.len() == 0 {
        a.len()
    } else {
        let del = lev(a.drop_last(), b) + 1;
        let ins = lev(a, b.drop_last()) + 1;
        let sub = lev(a.drop_last(), b.drop_last()) + if a.last() == b.last() {
            0nat
        } else {
            1nat
        };
        min_nat(min_nat(del, ins), sub)
    }
}

/// The smaller of two numbers.
pub open spec fn min_nat(x: nat, y: nat) -> nat {
    if x <= y {
        x
    } else {
        y
    }
}

/// The edit distance is at most the longer length.
pub proof fn lemma_lev_bound(a: Seq<char>, b: Seq<char>)
    ensures
        lev(a, b) <= if a.len() >= b.len() {
            a.len()
        } else {
            b.len()
        },
    decreases a.len() + b.len(),
{
    if a.len() > 0 && b.len() > 0 {
        lemma_lev_bound(a.drop_last(), b.drop_last());
    }
}

/// The edit distance is symmetric.
proof fn lemma_lev_symmetric(a: Seq<char>, b: Seq<char>)
    ensures
        lev(a, b) == lev(b, a),
    decreases a.len() + b.len(),
{
    if a.len() > 0 && b.len() > 0 {
        lemma_lev_symmetric(a.drop_last(), b);
        lemma_lev_symmetric(a, b.drop_last());
        lemma_lev_symmetric(a.drop_last(), b.drop_last());
    }
}

/// The edit distance is zero exactly on equal sequences.
proof fn lemma_lev_zero(a: Seq<char>, b: Seq<char>)
    ensures
        lev(a, b) == 0 <==> a == b,
    decreases a.len() + b.len(),
{
    if a.len() > 0 && b.len() > 0 {
        lemma_lev_zero(a.drop_last(), b.drop_last());
        if a == b {
            assert(a.drop_last() == b.drop_last());
        }
        if lev(a, b) == 0 {
            assert(a.last() == b.last());
            assert(a =~= a.drop_last().push(a.last()));
            assert(b =~= b.drop_last().push(b.last()));
        }
    } else if a.len() == 0 && b.len() == 0 {
        assert(a =~= b);
    }
}

/// The edit distance is at least the difference of the lengths.
proof fn lemma_lev_lower(a: Seq<char>, b: Seq<char>)
    ensures
        lev(a, b) >= if a.len() >= b.len() {
            a.len() - b.len()
        } else {
            b.len() - a.len()
        },
    decreases a.len() + b.len(),
{
    if a.len() > 0 && b.len() > 0 {
        lemma_lev_lower(a.drop_last(), b);
        lemma_lev_lower(a, b.drop_last());
        lemma_lev_lower(a.drop_last(), b.drop_last());
    }
}

/// Laws of the edit distance: it is symmetric, zero exactly on equal
/// strings, and lies between the difference of the lengths and the longer
/// length.
pub proof fn lemma_lev_laws(a: Seq<char>, b: Seq<char>)
    ensures
        lev(a, b) == lev(b, a),
        lev(a, b) == 0 <==> a == b,
        lev(a, b) >= if a.len() >= b.len() {
            a.len() - b.len()
        } else {
            b.len() - a.len()
        },
        lev(a, b) <= if a.len() >= b.len() {
            a.len()
        } else {
            b.len()
        },
{
    lemma_lev_symmetric(a, b);
    lemma_lev_zero(a, b);
    lemma_lev_lower(a, b);
    lemma_lev_bound(a, b);
}

/// Levenshtein edit distance of two character sequences.
pub fn edit_distance(a: &[char], b: &[char]) -> (r: usize)
    ensures
        r == lev(a@, b@),
{
    let m = a.len();
    let n = b.len();
    if m == 0 {
        return n;
    }
    if n == 0 {
        return m;
    }
    let mut prev: Vec<usize> = Vec::new();
    let mut t: usize = 0;
    proof {
        assert(b@.take(0).len() == 0);
    }
    prev.push(0);
    while t < n
        invariant
            t <= n,
            n == b@.len(),
            m == a@.len(),
            n >= 1,
            prev@.len() == t + 1,
            forall|u: int| 0 <= u <= t ==> #[trigger] prev@[u] == lev(a@.take(0), b@.take(u)),
        decreases n - t,
    {
        t = t + 1;
        proof {
            assert(a@.take(0).len() == 0);
            assert(b@.take(t as int).len() == t);
        }
        prev.push(t);
    }
    let mut i: usize = 0;
    while i < m
        invariant
            i <= m,
            n == b@.len(),
            m == a@.len(),
            n >= 1,
            prev@.len() == n + 1,
            forall|u: int| 0 <= u <= n ==> #[trigger] prev@[u] == lev(a@.take(i as int), b@.take(u)),
        decreases m - i,
    {
        i = i + 1;
        let mut curr: Vec<usize> = Vec::new();
        proof {
            assert(b@.take(0).len() == 0);
            assert(a@.take(i as int).len() == i);
        }
        curr.push(i);
        let mut j: usize = 0;
        while j < n
            invariant
                1 <= i <= m,
                j <= n,
                n == b@.len(),
                m == a@.len(),
                prev@.len() == n + 1,
                curr@.len() == j + 1,
                forall|u: int| 0 <= u <= n ==> #[trigger] prev@[u] == lev(a@.take(i - 1), b@.take(u)),
                forall|u: int| 0 <= u <= j ==> #[trigger] curr@[u] == lev(a@.take(i as int), b@.take(u)),
            decreases n - j,
        {
            j = j + 1;
            let cost: usize = if a[i - 1] != b[j - 1] { 1 } else { 0 };
            let del = prev[j].saturating_add(1);
            let ins = curr[j - 1].saturating_add(1);
            let sub = prev[j - 1].saturating_add(cost);
            let m1 = if del <= ins { del } else { ins };
            let v = if m1 <= sub { m1 } else { sub };
            proof {
                let ai = a@.take(i as int);
                let bj = b@.take(j as int);
                assert(ai.drop_last() =~= a@.take(i - 1));
                assert(bj.drop_last() =~= b@.take(j - 1));
                assert(ai.last() == a@[i - 1]);
                assert(bj.last() == b@[j - 1]);
                lemma_lev_bound(ai.drop_last(), bj);
                lemma_lev_bound(ai, bj.drop_last());
                lemma_lev_bound(ai.drop_last(), bj.drop_last());
                lemma_lev_bound(ai, bj);
            }
            curr.push(v);
        }
        prev = curr;
    }
    proof {
        assert(a@.take(m as int) =~= a@);
        assert(b@.take(n as int) =~= b@);
    }
    prev[n]
}

/// Standard Levenshtein edit distance.
pub fn levenshtein_distance(s1: &str, s2: &str) -> (r: usize)
    ensures
        r == lev(s1@, s2@),
{
    let a = chars_of(s1);
    let b = chars_of(s2);
    edit_distance(a.as_slice(), b.as_slice())
}

/// UTF-8 length and first byte test used to skip obviously distant candidates:
/// the byte lengths differ by more than `max`, or both are longer than two
/// bytes, start with different bytes, and differ in length by at least `max`.
pub open spec fn spec_could_match(b1: Seq<u8>, b2: Seq<u8>, max: nat) -> bool {
    let diff = if b1.len() >= b2.len() {
        b1.len() - b2.len()
    } else {
        b2.len() - b1.len()
    };
    if diff > max {
        false
    } else if b1.len() > 2 && b2.len() > 2 && b1[0] != b2[0] && diff >= max {
        false
    } else {
        true
    }
}

/// Pre-filter heuristic: quickly checks if two strings could be within edit distance.
pub fn could_match_within_distance(s1: &str, s2: &str, max_dist: usize) -> (r: bool)
    ensures
        r == spec_could_match(
            vstd::utf8::encode_utf8(s1@),
            vstd::utf8::encode_utf8(s2@),
            max_dist as nat,
        ),
{
    let b1 = s1.as_bytes();
    let b2 = s2.as_bytes();
    let len1 = b1.len();
    let len2 = b2.len();
    let diff = if len1 >= len2 { len1 - len2 } else { len2 - len1 };
    if diff > max_dist {
        return false;
    }
    if len1 > 2 && len2 > 2 && b1[0] != b2[0] && diff >= max_dist {
        return false;
    }
    true
}

/// Keeps the first entry for each text key.
pub open spec fn dedup_minor(s: Seq<crate::sort::EntryView>) -> Seq<crate::sort::EntryView>
    decreases s.len(),
{
    if s.len() == 0 {
        seq![]
    } else {
        let prev = dedup_minor(s.drop_last());
        if exists|j: int| 0 <= j < prev.len() && prev[j].1 == s.last().1 {
            prev
        } else {
            prev.push(s.last())
        }
    }
}

/// The text keys of the first five entries after keeping the first entry per key.
pub open spec fn top5_texts(sorted: Seq<crate::sort::EntryView>) -> Seq<Seq<char>> {
    let d = dedup_minor(sorted);
    d.take(if d.len() < 5 { d.len() as int } else { 5 }).map_values(
        |e: crate::sort::EntryView| e.1,
    )
}

/// Positions (in `sorted`) of the first entry for each text key, in order.
pub fn first_per_minor(sorted: &Vec<SortEntry>) -> (kept: Vec<usize>)
    ensures
        forall|t: int| 0 <= t < kept@.len() ==> #[trigger] kept@[t] < sorted@.len(),
        kept@.map_values(|k: usize| entry_views(sorted@)[k as int]) == dedup_minor(entry_views(sorted@)),
{
    let ghost sv = entry_views(sorted@);
    let mut kept: Vec<usize> = Vec::new();
    let mut i: usize = 0;
    assert(sv.take(0) =~= Seq::<crate::sort::EntryView>::empty());
    while i < sorted.len()
        invariant
            i <= sorted@.len(),
            sv == entry_views(sorted@),
            forall|t: int| 0 <= t < kept@.len() ==> #[trigger] kept@[t] < i,
            kept@.map_values(|k: usize| sv[k as int]) == dedup_minor(sv.take(i as int)),
        decreases sorted.len() - i,
    {
        let ghost prev = dedup_minor(sv.take(i as int));
        assert(sv.take(i + 1).drop_last() =~= sv.take(i as int));
        assert(sv.take(i + 1).last() == sv[i as int]);
        let mut seen = false;
        let mut j: usize = 0;
        while j < kept.len()
            invariant
                j <= kept@.len(),
                i < sorted@.len(),
                sv == entry_views(sorted@),
                forall|t: int| 0 <= t < kept@.len() ==> #[trigger] kept@[t] < i,
                prev == kept@.map_values(|k: usize| sv[k as int]),
                seen == exists|t: int| 0 <= t < j && prev[t].1 == sv[i as int].1,
            decreases kept.len() - j,
        {
            let eq = chars_eq(sorted[kept[j]].minor.as_slice(), sorted[i].minor.as_slice());
            proof {
                if !eq {
                    if exists|t: int| 0 <= t < j + 1 && prev[t].1 == sv[i as int].1 {
                        let t = choose|t: int| 0 <= t < j + 1 && prev[t].1 == sv[i as int].1;
                        assert(t < j);
                    }
                } else {
                    assert(prev[j as int].1 == sv[i as int].1);
                }
            }
            if eq {
                seen = true;
            }
            j = j + 1;
        }
        let ghost old_k = kept@;
        if !seen {
            kept.push(i);
            assert(kept@.map_values(|k: usize| sv[k as int]) =~= prev.push(sv[i as int]));
        }
        i = i + 1;
    }
    assert(sv.take(sorted@.len() as int) =~= sv);
    kept
}

/// Keeps the first entry per text key, takes five, and returns the texts as strings.
pub fn top5_texts_exec(sorted: &Vec<SortEntry>) -> (r: Vec<String>)
    ensures
        crate::cli::string_views(r@) == top5_texts(entry_views(sorted@)),
{
    let ghost sv = entry_views(sorted@);
    let kept = first_per_minor(sorted);
    let ghost d = dedup_minor(sv);
    let take = if kept.len() < 5 { kept.len() } else { 5 };
    let mut r: Vec<String> = Vec::new();
    let mut k: usize = 0;
    while k < take
        invariant
            k <= take <= kept@.len(),
            take == if d.len() < 5 { d.len() as int } else { 5 },
            sv == entry_views(sorted@),
            forall|t: int| 0 <= t < kept@.len() ==> #[trigger] kept@[t] < sorted@.len(),
            d == kept@.map_values(|k: usize| sv[k as int]),
            crate::cli::string_views(r@) == d.take(k as int).map_values(
                |e: crate::sort::EntryView| e.1,
            ),
        decreases take - k,
    {
        let ghost old_r = crate::cli::string_views(r@);
        assert(kept@[k as int] < sorted@.len());
        let s = string_of(sorted[kept[k]].minor.as_slice());
        r.push(s);
        assert(crate::cli::string_views(r@) =~= old_r.push(d[k as int].1));
        k = k + 1;
        assert(d.take(k as int).map_values(|e: crate::sort::EntryView| e.1) =~= old_r.push(
            d[k - 1].1,
        ));
    }
    r
}

/// The UTF-8 bytes of a character sequence.
pub open spec fn utf8(s: Seq<char>) -> Seq<u8> {
    vstd::utf8::encode_utf8(s)
}

/// The suggestion candidate contributed by item `i`: its path and the best
/// distance among (query vs path), (query vs name), (last query segment vs
/// name), all lowercased, when that distance is at most 3.
pub open spec fn suggestion_candidate(idx: &DocIndex, ql: Seq<char>, ls: Seq<char>, i: int) -> Option<
    crate::sort::EntryView,
> {
    let it = idx.items@[i];
    let pl = lower(it.path@);
    let nl = lower(it.name@);
    if !spec_could_match(utf8(ql), utf8(pl), 3) && !spec_could_match(utf8(ql), utf8(nl), 3)
        && !spec_could_match(utf8(ls), utf8(nl), 3) {
        None
    } else {
        let d = min_nat(min_nat(lev(ql, pl), lev(ql, nl)), lev(ls, nl));
        if d <= 3 {
            Some((d as u64, it.path@, i as usize))
        } else {
            None
        }
    }
}

/// The candidates of the first `k` items, in item order.
pub open spec fn suggestion_candidates(idx: &DocIndex, ql: Seq<char>, ls: Seq<char>, k: int) -> Seq<
    crate::sort::EntryView,
>
    decreases k,
{
    if k <= 0 {
        seq![]
    } else {
        let prev = suggestion_candidates(idx, ql, ls, k - 1);
        match suggestion_candidate(idx, ql, ls, k - 1) {
            Some(e) => prev.push(e),
            None => prev,
        }
    }
}

/// "Did you mean" paths for a query: candidates sorted by distance then
/// path, one per path, at most five.
pub open spec fn spec_suggestions(idx: &DocIndex, q: Seq<char>) -> Seq<Seq<char>> {
    let ql = lower(q);
    let ls = lower(segments(q).last());
    top5_texts(stable_sort(suggestion_candidates(idx, ql, ls, idx.items@.len() as int)))
}

/// Suggestions for a query given as characters.
pub fn suggestions_for(idx: &DocIndex, q: &[char]) -> (r: Vec<String>)
    ensures
        crate::cli::string_views(r@) == spec_suggestions(idx, q@),
{
    let ql = lower_chars_exec(q);
    let qsegs = segments_exec(q);
    proof {
        crate::text::lemma_split_nonempty(q@, path_sep());
    }
    let last = &qsegs[qsegs.len() - 1];
    let ls = lower_chars_exec(last.as_slice());
    let ql_s = string_of(ql.as_slice());
    let ls_s = string_of(ls.as_slice());
    let mut cands: Vec<SortEntry> = Vec::new();
    let mut i: usize = 0;
    while i < idx.items.len()
        invariant
            i <= idx.items@.len(),
            ql@ == lower(q@),
            ls@ == lower(segments(q@).last()),
            ql_s@ == ql@,
            ls_s@ == ls@,
            entry_views(cands@) == suggestion_candidates(idx, ql@, ls@, i as int),
        decreases idx.items.len() - i,
    {
        let item = &idx.items[i];
        let pl = crate::text::to_lower(item.path.as_str());
        let nl = crate::text::to_lower(item.name.as_str());
        let ghost old_c = entry_views(cands@);
        if !could_match_within_distance(ql_s.as_str(), pl.as_str(), 3)
            && !could_match_within_distance(ql_s.as_str(), nl.as_str(), 3)
            && !could_match_within_distance(ls_s.as_str(), nl.as_str(), 3) {
            i = i + 1;
            continue;
        }
        let plc = chars_of(pl.as_str());
        let nlc = chars_of(nl.as_str());
        let pd = edit_distance(ql.as_slice(), plc.as_slice());
        let nd = edit_distance(ql.as_slice(), nlc.as_slice());
        let sd = edit_distance(ls.as_slice(), nlc.as_slice());
        let m1 = if pd <= nd { pd } else { nd };
        let d = if m1 <= sd { m1 } else { sd };
        if d <= 3 {
            let path = chars_of(item.path.as_str());
            cands.push(SortEntry { major: d as u64, minor: path, item: i });
            assert(entry_views(cands@) =~= old_c.push((d as u64, item.path@, i)));
        }
        i = i + 1;
    }
    let sorted = sort_entries(cands);
    top5_texts_exec(&sorted)
}

/// Computes "did you mean?" suggestions using Levenshtein distance.
pub fn compute_suggestions(idx: &DocIndex, query: &str) -> (r: Vec<String>)
    ensures
        crate::cli::string_views(r@) == spec_suggestions(idx, query@),
{
    let q = chars_of(query);
    suggestions_for(idx, q.as_slice())
}

/// Lowercases characters (through `str::to_lowercase`).
pub fn lower_chars_exec(v: &[char]) -> (r: Vec<char>)
    ensures
        r@ == lower(v@),
{
    crate::text::lower_chars(v)
}

// ---------------------------------------------------------------------------
// Classifying a set of matches
// ---------------------------------------------------------------------------

/// The abstract value of a query result.
pub enum QueryView {
    Found(usize),
    Ambiguous(Seq<usize>, Seq<char>),
    NotFound(Seq<char>, Seq<Seq<char>>),
}

/// The abstract value of a query result.
pub open spec fn qr_view(r: QueryResult) -> QueryView {
    match r {
        QueryResult::Found { index } => QueryView::Found(index),
        QueryResult::Ambiguous { indices, query } => QueryView::Ambiguous(indices@, query@),
        QueryResult::NotFound { query, suggestions } => QueryView::NotFound(
            query@,
            crate::cli::string_views(suggestions@),
        ),
    }
}

/// A re-export stub: a `pub use ` signature and no children.
pub open spec fn spec_is_reexport_stub(it: IndexItem) -> bool {
    starts_with(it.signature@, "pub use "@) && it.children@.len() == 0
}

/// Returns whether an item is a re-export stub (`pub use` with no children).
pub fn is_reexport_stub(item: &IndexItem) -> (r: bool)
    ensures
        r == spec_is_reexport_stub(*item),
{
    let sig = chars_of(item.signature.as_str());
    let pre = chars_of("pub use ");
    crate::text::starts_with_exec(sig.as_slice(), pre.as_slice()) && item.children.len() == 0
}

/// The first element of `s` satisfying `pred`.
pub open spec fn first_where(s: Seq<usize>, pred: spec_fn(usize) -> bool) -> Option<usize>
    decreases s.len(),
{
    if s.len() == 0 {
        None
    } else if pred(s[0]) {
        Some(s[0])
    } else {
        first_where(s.drop_first(), pred)
    }
}

/// What [`first_where`] finds satisfies the predicate and is in the sequence.
pub proof fn lemma_first_where(s: Seq<usize>, pred: spec_fn(usize) -> bool)
    ensures
        first_where(s, pred) matches Some(x) ==> pred(x) && s.contains(x),
    decreases s.len(),
{
    if s.len() > 0 && !pred(s[0]) {
        lemma_first_where(s.drop_first(), pred);
        if first_where(s, pred) is Some {
            let x = first_where(s, pred)->0;
            let j = choose|j: int| 0 <= j < s.drop_first().len() && s.drop_first()[j] == x;
            assert(s[j + 1] == x);
        }
    } else if s.len() > 0 {
        assert(s[0] == s[0]);
    }
}

/// A canonical (non-stub) item with the same name as the stub at `x`.
pub open spec fn canonical_pred(idx: &DocIndex, all: Seq<usize>, x: usize) -> spec_fn(usize) -> bool {
    |n: usize|
        !all.contains(n) && item_at(idx, n).name@ == item_at(idx, x).name@ && !spec_is_reexport_stub(
            item_at(idx, n),
        )
}

/// What one match becomes after stub resolution: a non-stub stays; a stub is
/// dropped when another match is a non-stub of the same name; otherwise it
/// is replaced by the first such non-stub found under its lowercased name,
/// or kept when there is none.
pub open spec fn resolve_step(idx: &DocIndex, all: Seq<usize>, x: usize) -> Seq<usize> {
    let it = item_at(idx, x);
    if !spec_is_reexport_stub(it) {
        seq![x]
    } else if exists|j: int|
        0 <= j < all.len() && all[j] != x && item_at(idx, all[j]).name@ == it.name@
            && !spec_is_reexport_stub(item_at(idx, all[j])) {
        seq![]
    } else {
        match first_where(idx.name_map.get_or_empty(lower(it.name@)), canonical_pred(idx, all, x)) {
            Some(n) => seq![n],
            None => seq![x],
        }
    }
}

/// Stub resolution of the first `k` matches.
pub open spec fn resolved_prefix(idx: &DocIndex, all: Seq<usize>, k: int) -> Seq<usize>
    decreases k,
{
    if k <= 0 {
        seq![]
    } else {
        resolved_prefix(idx, all, k - 1) + resolve_step(idx, all, all[k - 1])
    }
}

/// Resolves re-export stubs to their canonical items.
pub open spec fn spec_resolve_stubs(idx: &DocIndex, all: Seq<usize>) -> Seq<usize> {
    resolved_prefix(idx, all, all.len() as int)
}

/// The position in `s` holding `x`, if any.
fn contains_pos(s: &[usize], x: usize) -> (r: bool)
    ensures
        r == s@.contains(x),
{
    let mut i: usize = 0;
    while i < s.len()
        invariant
            i <= s@.len(),
            forall|j: int| 0 <= j < i ==> s@[j] != x,
        decreases s.len() - i,
    {
        if s[i] == x {
            assert(s@[i as int] == x);
            return true;
        }
        i = i + 1;
    }
    false
}

/// Resolves re-export stubs to their canonical items.
pub fn resolve_reexport_stubs(idx: &DocIndex, all: &[usize]) -> (r: Vec<usize>)
    requires
        all_in_bounds(idx, all@),
        idx.positions_in_bounds(),
    ensures
        r@ == spec_resolve_stubs(idx, all@),
        all_in_bounds(idx, r@),
{
    let mut result: Vec<usize> = Vec::new();
    let mut k: usize = 0;
    while k < all.len()
        invariant
            k <= all@.len(),
            all_in_bounds(idx, all@),
            idx.positions_in_bounds(),
            result@ == resolved_prefix(idx, all@, k as int),
            all_in_bounds(idx, result@),
        decreases all.len() - k,
    {
        let x = all[k];
        let item = &idx.items[x];
        let ghost old_r = result@;
        if !is_reexport_stub(item) {
            result.push(x);
        } else {
            let mut has_canonical = false;
            let mut j: usize = 0;
            while j < all.len()
                invariant
                    j <= all@.len(),
                    all_in_bounds(idx, all@),
                    x < idx.items@.len(),
                    item == &idx.items@[x as int],
                    has_canonical == exists|t: int|
                        0 <= t < j && all@[t] != x && item_at(idx, all@[t]).name@ == item.name@
                            && !spec_is_reexport_stub(item_at(idx, all@[t])),
                decreases all.len() - j,
            {
                let o = all[j];
                let hit = o != x && crate::text::chars_eq(
                    chars_of(idx.items[o].name.as_str()).as_slice(),
                    chars_of(item.name.as_str()).as_slice(),
                ) && !is_reexport_stub(&idx.items[o]);
                proof {
                    if hit {
                        assert(all@[j as int] == o);
                    } else {
                        if exists|t: int|
                            0 <= t < j + 1 && all@[t] != x && item_at(idx, all@[t]).name@
                                == item.name@ && !spec_is_reexport_stub(item_at(idx, all@[t])) {
                            let t = choose|t: int|
                                0 <= t < j + 1 && all@[t] != x && item_at(idx, all@[t]).name@
                                    == item.name@ && !spec_is_reexport_stub(item_at(idx, all@[t]));
                            assert(t < j);
                        }
                    }
                }
                if hit {
                    has_canonical = true;
                }
                j = j + 1;
            }
            if !has_canonical {
                let lname = crate::text::to_lower(item.name.as_str());
                let cands = idx.lookup_by_name(lname.as_str());
                let ghost cs = cands@;
                let ghost pred = canonical_pred(idx, all@, x);
                proof {
                    lemma_map_in_bounds(idx, idx.name_map, lower(item_at(idx, x).name@));
                }
                let mut found: Option<usize> = None;
                let mut t: usize = 0;
                assert(cs.skip(0) =~= cs);
                while t < cands.len()
                    invariant
                        t <= cands@.len(),
                        cs == cands@,
                        idx.positions_in_bounds(),
                        x < idx.items@.len(),
                        pred == canonical_pred(idx, all@, x),
                        cs == idx.name_map.get_or_empty(lower(item_at(idx, x).name@)),
                        all_in_bounds(idx, cs),
                        item == &idx.items@[x as int],
                        found is None ==> first_where(cs, pred) == first_where(cs.skip(t as int), pred),
                        found matches Some(n) ==> first_where(cs, pred) == Some(n) && n < idx.items@.len(),
                    decreases cands.len() - t,
                {
                    if found.is_none() {
                        let n = cands[t];
                        assert(n < idx.items@.len());
                        let ok = !contains_pos(all, n) && crate::text::chars_eq(
                            chars_of(idx.items[n].name.as_str()).as_slice(),
                            chars_of(item.name.as_str()).as_slice(),
                        ) && !is_reexport_stub(&idx.items[n]);
                        assert(cs.skip(t as int)[0] == n);
                        assert(cs.skip(t as int).drop_first() =~= cs.skip(t + 1));
                        if ok {
                            found = Some(n);
                        }
                    }
                    t = t + 1;
                }
                proof {
                    if found is None {
                        assert(cs.skip(cs.len() as int).len() == 0);
                    }
                }
                match found {
                    Some(n) => result.push(n),
                    None => result.push(x),
                }
            }
        }
        assert(result@ =~= old_r + resolve_step(idx, all@, x));
        k = k + 1;
    }
    result
}

/// Keeps the first position for each (path, kind) pair.
pub open spec fn spec_dedup_path_kind(idx: &DocIndex, s: Seq<usize>) -> Seq<usize>
    decreases s.len(),
{
    if s.len() == 0 {
        seq![]
    } else {
        let prev = spec_dedup_path_kind(idx, s.drop_last());
        let x = s.last();
        if exists|j: int|
            0 <= j < s.len() - 1 && item_at(idx, s[j]).path@ == item_at(idx, x).path@ && item_at(
                idx,
                s[j],
            ).kind == item_at(idx, x).kind {
            prev
        } else {
            prev.push(x)
        }
    }
}

/// Two positions name items of the same path and kind.
pub open spec fn same_path_kind(idx: &DocIndex, a: usize, b: usize) -> bool {
    item_at(idx, a).path@ == item_at(idx, b).path@ && item_at(idx, a).kind == item_at(idx, b).kind
}

/// What (path, kind) dedup keeps comes from its input, and no two kept
/// positions share a path and kind.
proof fn lemma_dedup_distinct(idx: &DocIndex, s: Seq<usize>)
    ensures
        forall|i: int| 0 <= i < spec_dedup_path_kind(idx, s).len() ==> s.contains(
            #[trigger] spec_dedup_path_kind(idx, s)[i],
        ),
        forall|i: int, j: int|
            0 <= i < j < spec_dedup_path_kind(idx, s).len() ==> !same_path_kind(
                idx,
                #[trigger] spec_dedup_path_kind(idx, s)[i],
                #[trigger] spec_dedup_path_kind(idx, s)[j],
            ),
    decreases s.len(),
{
    if s.len() > 0 {
        let sd = s.drop_last();
        lemma_dedup_distinct(idx, sd);
        let prev = spec_dedup_path_kind(idx, sd);
        let d = spec_dedup_path_kind(idx, s);
        assert forall|i: int| 0 <= i < prev.len() implies s.contains(#[trigger] prev[i]) by {
            let a = choose|a: int| 0 <= a < sd.len() && sd[a] == prev[i];
            assert(s[a] == prev[i]);
        }
        if d != prev {
            let x = s.last();
            assert(d == prev.push(x));
            assert forall|i: int| 0 <= i < d.len() implies s.contains(#[trigger] d[i]) by {
                if i == prev.len() {
                    assert(s[s.len() - 1] == x);
                } else {
                    assert(d[i] == prev[i]);
                }
            }
            assert forall|i: int, j: int| 0 <= i < j < d.len() implies !same_path_kind(
                idx,
                #[trigger] d[i],
                #[trigger] d[j],
            ) by {
                assert(d[i] == prev[i]);
                if j == prev.len() {
                    let a = choose|a: int| 0 <= a < sd.len() && sd[a] == prev[i];
                    assert(s[a] == sd[a]);
                    assert(!(item_at(idx, s[a]).path@ == item_at(idx, x).path@ && item_at(idx, s[a]).kind
                        == item_at(idx, x).kind));
                } else {
                    assert(d[j] == prev[j]);
                }
            }
        }
    }
}

/// Removes entries with duplicate (path, kind) pairs, keeping the first.
pub fn deduplicate_by_path_kind(idx: &DocIndex, s: &[usize]) -> (r: Vec<usize>)
    requires
        all_in_bounds(idx, s@),
    ensures
        r@ == spec_dedup_path_kind(idx, s@),
        all_in_bounds(idx, r@),
{
    let mut r: Vec<usize> = Vec::new();
    let mut k: usize = 0;
    assert(s@.take(0) =~= Seq::<usize>::empty());
    while k < s.len()
        invariant
            k <= s@.len(),
            all_in_bounds(idx, s@),
            r@ == spec_dedup_path_kind(idx, s@.take(k as int)),
            all_in_bounds(idx, r@),
        decreases s.len() - k,
    {
        let x = s[k];
        let xp = chars_of(idx.items[x].path.as_str());
        let mut seen = false;
        let mut j: usize = 0;
        while j < k
            invariant
                j <= k < s@.len(),
                all_in_bounds(idx, s@),
                x == s@[k as int],
                xp@ == item_at(idx, x).path@,
                seen == exists|t: int|
                    0 <= t < j && item_at(idx, s@[t]).path@ == item_at(idx, x).path@ && item_at(
                        idx,
                        s@[t],
                    ).kind == item_at(idx, x).kind,
            decreases k - j,
        {
            let o = s[j];
            let hit = crate::text::chars_eq(chars_of(idx.items[o].path.as_str()).as_slice(), xp.as_slice())
                && idx.items[o].kind == idx.items[x].kind;
            proof {
                if !hit {
                    if exists|t: int|
                        0 <= t < j + 1 && item_at(idx, s@[t]).path@ == item_at(idx, x).path@
                            && item_at(idx, s@[t]).kind == item_at(idx, x).kind {
                        let t = choose|t: int|
                            0 <= t < j + 1 && item_at(idx, s@[t]).path@ == item_at(idx, x).path@
                                && item_at(idx, s@[t]).kind == item_at(idx, x).kind;
                        assert(t < j);
                    }
                } else {
                    assert(s@[j as int] == o);
                }
            }
            if hit {
                seen = true;
            }
            j = j + 1;
        }
        let ghost sk = s@.take(k + 1);
        assert(sk.drop_last() =~= s@.take(k as int));
        assert(sk.last() == x);
        assert(forall|t: int| 0 <= t < k ==> sk[t] == s@[t]);
        proof {
            if seen {
                let t = choose|t: int|
                    0 <= t < k && item_at(idx, s@[t]).path@ == item_at(idx, x).path@ && item_at(
                        idx,
                        s@[t],
                    ).kind == item_at(idx, x).kind;
                assert(sk[t] == s@[t]);
            } else {
                if exists|t: int|
                    0 <= t < sk.len() - 1 && item_at(idx, sk[t]).path@ == item_at(idx, sk.last()).path@
                        && item_at(idx, sk[t]).kind == item_at(idx, sk.last()).kind {
                    let t = choose|t: int|
                        0 <= t < sk.len() - 1 && item_at(idx, sk[t]).path@ == item_at(
                            idx,
                            sk.last(),
                        ).path@ && item_at(idx, sk[t]).kind == item_at(idx, sk.last()).kind;
                    assert(sk[t] == s@[t]);
                }
            }
        }
        if !seen {
            r.push(x);
        }
        k = k + 1;
    }
    assert(s@.take(s@.len() as int) =~= s@);
    r
}

/// The number of `::` segments of an item's path.
pub open spec fn depth(idx: &DocIndex, i: usize) -> nat {
    segments(item_at(idx, i).path@).len()
}

/// Crate-root primary items: depth 2 and a primary kind.
pub open spec fn root_primary_pred(idx: &DocIndex) -> spec_fn(usize) -> bool {
    |i: usize| depth(idx, i) == 2 && spec_meta(item_at(idx, i).kind).is_primary
}

/// Crate-root other items: depth 2 and not a primary kind.
pub open spec fn root_other_pred(idx: &DocIndex) -> spec_fn(usize) -> bool {
    |i: usize| depth(idx, i) == 2 && !spec_meta(item_at(idx, i).kind).is_primary
}

/// Nested items: depth other than 2.
pub open spec fn nested_pred(idx: &DocIndex) -> spec_fn(usize) -> bool {
    |i: usize| depth(idx, i) != 2
}

/// Auto-selection: exactly one crate-root primary item, no other crate-root
/// item, and no primary item at depth 3.
pub open spec fn spec_auto_select(idx: &DocIndex, s: Seq<usize>) -> Option<usize> {
    let crp = s.filter(root_primary_pred(idx));
    let cro = s.filter(root_other_pred(idx));
    let nested = s.filter(nested_pred(idx));
    let has3 = exists|j: int|
        0 <= j < nested.len() && depth(idx, nested[j]) == 3 && spec_meta(
            item_at(idx, nested[j]).kind,
        ).is_primary;
    if crp.len() == 1 && cro.len() == 0 && !has3 {
        Some(crp[0])
    } else {
        None
    }
}

/// The three priority classes of the matches, in match order.
fn classify_depths(idx: &DocIndex, s: &[usize]) -> (r: (Vec<usize>, Vec<usize>, Vec<usize>, Vec<usize>))
    requires
        all_in_bounds(idx, s@),
    ensures
        r.0@ == s@.filter(root_primary_pred(idx)),
        r.1@ == s@.filter(root_other_pred(idx)),
        r.2@ == s@.filter(nested_pred(idx)),
        r.3@.len() == r.2@.len(),
        forall|j: int| 0 <= j < r.3@.len() ==> r.3@[j] == depth(idx, r.2@[j]),
        all_in_bounds(idx, r.0@),
        all_in_bounds(idx, r.1@),
        all_in_bounds(idx, r.2@),
{
    let ghost p0 = root_primary_pred(idx);
    let ghost p1 = root_other_pred(idx);
    let ghost p2 = nested_pred(idx);
    let mut a: Vec<usize> = Vec::new();
    let mut b: Vec<usize> = Vec::new();
    let mut c: Vec<usize> = Vec::new();
    let mut d: Vec<usize> = Vec::new();
    let mut k: usize = 0;
    assert(s@.take(0).filter(p0) =~= Seq::<usize>::empty()) by {
        reveal_with_fuel(Seq::<_>::filter, 1);
    }
    assert(s@.take(0).filter(p1) =~= Seq::<usize>::empty()) by {
        reveal_with_fuel(Seq::<_>::filter, 1);
    }
    assert(s@.take(0).filter(p2) =~= Seq::<usize>::empty()) by {
        reveal_with_fuel(Seq::<_>::filter, 1);
    }
    while k < s.len()
        invariant
            k <= s@.len(),
            all_in_bounds(idx, s@),
            p0 == root_primary_pred(idx),
            p1 == root_other_pred(idx),
            p2 == nested_pred(idx),
            a@ == s@.take(k as int).filter(p0),
            b@ == s@.take(k as int).filter(p1),
            c@ == s@.take(k as int).filter(p2),
            d@.len() == c@.len(),
            forall|j: int| 0 <= j < d@.len() ==> d@[j] == depth(idx, c@[j]),
        decreases s.len() - k,
    {
        proof {
            lemma_filter_take_step(s@, p0, k as int);
            lemma_filter_take_step(s@, p1, k as int);
            lemma_filter_take_step(s@, p2, k as int);
        }
        let x = s[k];
        let pc = chars_of(idx.items[x].path.as_str());
        let dep = segments_exec(pc.as_slice()).len();
        let prim = idx.items[x].kind.is_primary();
        if dep == 2 && prim {
            a.push(x);
        } else if dep == 2 {
            b.push(x);
        } else {
            c.push(x);
            d.push(dep);
        }
        k = k + 1;
    }
    proof {
        lemma_take_all(s@);
        lemma_filter_in_bounds(idx, s@, p0);
        lemma_filter_in_bounds(idx, s@, p1);
        lemma_filter_in_bounds(idx, s@, p2);
    }
    (a, b, c, d)
}

/// Auto-selects when exactly one crate-root primary item exists.
pub fn try_auto_select(idx: &DocIndex, s: &[usize]) -> (r: Option<usize>)
    requires
        all_in_bounds(idx, s@),
    ensures
        r == spec_auto_select(idx, s@),
        r matches Some(x) ==> x < idx.items@.len(),
{
    let (crp, cro, nested, depths) = classify_depths(idx, s);
    let ghost nv = nested@;
    let mut has3 = false;
    let mut j: usize = 0;
    while j < nested.len()
        invariant
            j <= nested@.len(),
            nv == nested@,
            all_in_bounds(idx, nv),
            depths@.len() == nv.len(),
            forall|t: int| 0 <= t < depths@.len() ==> depths@[t] == depth(idx, nv[t]),
            has3 == exists|t: int|
                0 <= t < j && depth(idx, nv[t]) == 3 && spec_meta(item_at(idx, nv[t]).kind).is_primary,
        decreases nested.len() - j,
    {
        let hit = depths[j] == 3 && idx.items[nested[j]].kind.is_primary();
        proof {
            if !hit {
                if exists|t: int|
                    0 <= t < j + 1 && depth(idx, nv[t]) == 3 && spec_meta(item_at(idx, nv[t]).kind).is_primary {
                    let t = choose|t: int|
                        0 <= t < j + 1 && depth(idx, nv[t]) == 3 && spec_meta(
                            item_at(idx, nv[t]).kind,
                        ).is_primary;
                    assert(t < j);
                }
            }
        }
        if hit {
            has3 = true;
        }
        j = j + 1;
    }
    if crp.len() == 1 && cro.len() == 0 && !has3 {
        proof {
            lemma_filter_in_bounds(idx, s@, root_primary_pred(idx));
        }
        Some(crp[0])
    } else {
        None
    }
}

/// The sort entries `(major, path, position)` of positions.
pub open spec fn path_entries(idx: &DocIndex, s: Seq<usize>) -> Seq<crate::sort::EntryView> {
    s.map_values(|i: usize| (0u64, item_at(idx, i).path@, i))
}

/// The sort entries `(depth, path, position)` of positions.
pub open spec fn depth_path_entries(idx: &DocIndex, s: Seq<usize>) -> Seq<crate::sort::EntryView> {
    s.map_values(|i: usize| (depth(idx, i) as u64, item_at(idx, i).path@, i))
}

/// Ambiguous results in priority order: crate-root primary items by path,
/// crate-root other items by path, then nested items by depth and path.
pub open spec fn spec_sort_by_priority(idx: &DocIndex, s: Seq<usize>) -> Seq<usize> {
    payloads(stable_sort(path_entries(idx, s.filter(root_primary_pred(idx))))) + payloads(
        stable_sort(path_entries(idx, s.filter(root_other_pred(idx)))),
    ) + payloads(stable_sort(depth_path_entries(idx, s.filter(nested_pred(idx)))))
}

/// Sorting entries made from distinct positions, one entry per position
/// carrying that position, gives the positions back without repeats, in
/// entry order.
proof fn lemma_sorted_payloads(g: Seq<usize>, f: spec_fn(usize) -> crate::sort::EntryView)
    requires
        g.no_duplicates(),
        forall|x: usize| (#[trigger] f(x)).2 == x,
    ensures
        payloads(stable_sort(g.map_values(f))).no_duplicates(),
        payloads(stable_sort(g.map_values(f))).len() == g.len(),
        forall|k: int| 0 <= k < payloads(stable_sort(g.map_values(f))).len() ==> g.contains(
            #[trigger] payloads(stable_sort(g.map_values(f)))[k],
        ),
        forall|i: int, j: int|
            0 <= i < j < payloads(stable_sort(g.map_values(f))).len() ==> !crate::sort::entry_lt(
                f(#[trigger] payloads(stable_sort(g.map_values(f)))[j]),
                f(#[trigger] payloads(stable_sort(g.map_values(f)))[i]),
            ),
{
    broadcast use vstd::seq_lib::group_to_multiset_ensures;
    let e = g.map_values(f);
    let ss = stable_sort(e);
    let out = payloads(ss);
    assert(vstd::relations::injective(f)) by {
        assert forall|x1: usize, x2: usize| #[trigger] f(x1) == #[trigger] f(x2) implies x1 == x2 by {
            assert(f(x1).2 == x1);
            assert(f(x2).2 == x2);
        }
    }
    g.lemma_no_duplicates_injective(f);
    crate::sort::lemma_stable_sort_multiset(e);
    crate::types::lemma_stable_sort_len(e);
    crate::sort::lemma_stable_sort_sorted(e);
    assert forall|k: int| 0 <= k < ss.len() implies g.contains(#[trigger] ss[k].2) && ss[k] == f(ss[k].2) by {
        crate::sort::lemma_stable_sort_member(e, k);
        let a = choose|a: int| 0 <= a < e.len() && e[a] == ss[k];
        assert(e[a] == f(g[a]));
        assert(f(g[a]).2 == g[a]);
    }
    e.lemma_multiset_has_no_duplicates();
    assert forall|x: crate::sort::EntryView| ss.to_multiset().contains(x) implies ss.to_multiset().count(x) == 1 by {
        assert(e.to_multiset().contains(x));
    }
    ss.lemma_multiset_has_no_duplicates_conv();
    assert forall|i: int, j: int| 0 <= i < out.len() && 0 <= j < out.len() && i != j implies out[i] != out[j] by {
        assert(out[i] == ss[i].2);
        assert(out[j] == ss[j].2);
        assert(ss[i] == f(ss[i].2));
        assert(ss[j] == f(ss[j].2));
    }
    assert forall|k: int| 0 <= k < out.len() implies g.contains(#[trigger] out[k]) by {
        assert(out[k] == ss[k].2);
        assert(g.contains(ss[k].2));
    }
    assert forall|i: int, j: int| 0 <= i < j < out.len() implies !crate::sort::entry_lt(
        f(#[trigger] out[j]),
        f(#[trigger] out[i]),
    ) by {
        assert(out[i] == ss[i].2);
        assert(out[j] == ss[j].2);
        assert(ss[i] == f(ss[i].2));
        assert(ss[j] == f(ss[j].2));
        assert(!crate::sort::entry_lt(ss[j], ss[i]));
    }
}

/// Filtering keeps a sequence free of repeats, and keeps only elements of it
/// that satisfy the predicate.
proof fn lemma_filter_no_dup(s: Seq<usize>, p: spec_fn(usize) -> bool)
    requires
        s.no_duplicates(),
    ensures
        s.filter(p).no_duplicates(),
        forall|k: int| 0 <= k < s.filter(p).len() ==> s.contains(#[trigger] s.filter(p)[k]) && p(
            s.filter(p)[k],
        ),
    decreases s.len(),
{
    reveal(Seq::filter);
    if s.len() > 0 {
        let sd = s.drop_last();
        assert(sd.no_duplicates()) by {
            assert forall|i: int, j: int| 0 <= i < sd.len() && 0 <= j < sd.len() && i != j implies sd[i] != sd[j] by {
                assert(sd[i] == s[i] && sd[j] == s[j]);
            }
        }
        lemma_filter_no_dup(sd, p);
        let f = sd.filter(p);
        assert forall|k: int| 0 <= k < f.len() implies s.contains(#[trigger] f[k]) by {
            let a = choose|a: int| 0 <= a < sd.len() && sd[a] == f[k];
            assert(s[a] == f[k]);
        }
        if p(s.last()) {
            let x = s.last();
            assert forall|k: int| 0 <= k < f.len() implies #[trigger] f[k] != x by {
                let a = choose|a: int| 0 <= a < sd.len() && sd[a] == f[k];
                assert(s[a] == f[k]);
                assert(s[s.len() - 1] == x);
            }
            assert(s[s.len() - 1] == x);
        }
    }
}

/// The priority group of a position: crate-root primary items, then other
/// crate-root items, then nested items.
pub open spec fn priority(idx: &DocIndex, i: usize) -> nat {
    if root_primary_pred(idx)(i) {
        0
    } else if root_other_pred(idx)(i) {
        1
    } else {
        2
    }
}

/// The sort key of a position within its priority group: the path, and
/// for nested items the depth before it.
pub open spec fn priority_entry(idx: &DocIndex, i: usize) -> crate::sort::EntryView {
    if priority(idx, i) == 2 {
        (depth(idx, i) as u64, item_at(idx, i).path@, i)
    } else {
        (0u64, item_at(idx, i).path@, i)
    }
}

/// Ambiguous candidates: no two name the same path and kind, and they come
/// in priority order, each group sorted by its key.
pub open spec fn ambiguous_ordered(idx: &DocIndex, v: Seq<usize>) -> bool {
    &&& forall|i: int, j: int| 0 <= i < j < v.len() ==> !same_path_kind(idx, #[trigger] v[i], #[trigger] v[j])
    &&& forall|i: int, j: int|
        0 <= i < j < v.len() ==> priority(idx, #[trigger] v[i]) < priority(idx, #[trigger] v[j]) || (
        priority(idx, v[i]) == priority(idx, v[j]) && !crate::sort::entry_lt(
            priority_entry(idx, v[j]),
            priority_entry(idx, v[i]),
        ))
}

/// Priority sorting of candidates that share no path and kind keeps them
/// apart and puts them in priority order.
proof fn lemma_sort_by_priority_ordered(idx: &DocIndex, d: Seq<usize>)
    requires
        forall|i: int, j: int| 0 <= i < j < d.len() ==> !same_path_kind(idx, #[trigger] d[i], #[trigger] d[j]),
    ensures
        ambiguous_ordered(idx, spec_sort_by_priority(idx, d)),
{
    assert(d.no_duplicates()) by {
        assert forall|i: int, j: int| 0 <= i < d.len() && 0 <= j < d.len() && i != j implies d[i] != d[j] by {
            if i < j {
                assert(!same_path_kind(idx, d[i], d[j]));
            } else {
                assert(!same_path_kind(idx, d[j], d[i]));
            }
        }
    }
    let p0 = root_primary_pred(idx);
    let p1 = root_other_pred(idx);
    let p2 = nested_pred(idx);
    let f0 = |x: usize| (0u64, item_at(idx, x).path@, x);
    let f2 = |x: usize| (depth(idx, x) as u64, item_at(idx, x).path@, x);
    let g0 = d.filter(p0);
    let g1 = d.filter(p1);
    let g2 = d.filter(p2);
    lemma_filter_no_dup(d, p0);
    lemma_filter_no_dup(d, p1);
    lemma_filter_no_dup(d, p2);
    assert(path_entries(idx, g0) =~= g0.map_values(f0));
    assert(path_entries(idx, g1) =~= g1.map_values(f0));
    assert(depth_path_entries(idx, g2) =~= g2.map_values(f2));
    lemma_sorted_payloads(g0, f0);
    lemma_sorted_payloads(g1, f0);
    lemma_sorted_payloads(g2, f2);
    let a = payloads(stable_sort(g0.map_values(f0)));
    let b = payloads(stable_sort(g1.map_values(f0)));
    let c = payloads(stable_sort(g2.map_values(f2)));
    let r = spec_sort_by_priority(idx, d);
    assert(r == a + b + c);
    assert forall|k: int| 0 <= k < a.len() implies #[trigger] priority(idx, a[k]) == 0 && d.contains(a[k]) && priority_entry(idx, a[k]) == f0(a[k]) by {
        assert(g0.contains(a[k]));
        let t = choose|t: int| 0 <= t < g0.len() && g0[t] == a[k];
    }
    assert forall|k: int| 0 <= k < b.len() implies #[trigger] priority(idx, b[k]) == 1 && d.contains(b[k]) && priority_entry(idx, b[k]) == f0(b[k]) by {
        assert(g1.contains(b[k]));
        let t = choose|t: int| 0 <= t < g1.len() && g1[t] == b[k];
    }
    assert forall|k: int| 0 <= k < c.len() implies #[trigger] priority(idx, c[k]) == 2 && d.contains(c[k]) && priority_entry(idx, c[k]) == f2(c[k]) by {
        assert(g2.contains(c[k]));
        let t = choose|t: int| 0 <= t < g2.len() && g2[t] == c[k];
    }
    let na = a.len() as int;
    let nb = b.len() as int;
    assert forall|i: int| 0 <= i < r.len() implies #[trigger] d.contains(r[i]) && (if i < na {
        r[i] == a[i]
    } else if i < na + nb {
        r[i] == b[i - na]
    } else {
        r[i] == c[i - na - nb]
    }) by {
        if i < na {
            assert(r[i] == a[i]);
        } else if i < na + nb {
            assert(r[i] == b[i - na]);
        } else {
            assert(r[i] == c[i - na - nb]);
        }
    }
    assert forall|i: int, j: int| 0 <= i < j < r.len() implies priority(idx, #[trigger] r[i]) < priority(idx, #[trigger] r[j]) || (
        priority(idx, r[i]) == priority(idx, r[j]) && !crate::sort::entry_lt(
            priority_entry(idx, r[j]),
            priority_entry(idx, r[i]),
        )) by {
        assert(d.contains(r[i]));
        assert(d.contains(r[j]));
        if j < na {
            assert(r[i] == a[i] && r[j] == a[j]);
        } else if i >= na && j < na + nb {
            assert(r[i] == b[i - na] && r[j] == b[j - na]);
        } else if i >= na + nb {
            assert(r[i] == c[i - na - nb] && r[j] == c[j - na - nb]);
        } else if i < na {
            assert(r[i] == a[i]);
        } else {
            assert(r[i] == b[i - na]);
        }
    }
    assert forall|i: int, j: int| 0 <= i < j < r.len() implies !same_path_kind(idx, #[trigger] r[i], #[trigger] r[j]) by {
        assert(d.contains(r[i]));
        assert(d.contains(r[j]));
        if r[i] == r[j] {
            if j < na {
                assert(r[i] == a[i] && r[j] == a[j]);
            } else if i >= na && j < na + nb {
                assert(r[i] == b[i - na] && r[j] == b[j - na]);
            } else if i >= na + nb {
                assert(r[i] == c[i - na - nb] && r[j] == c[j - na - nb]);
            } else if i < na {
                assert(r[i] == a[i]);
            } else {
                assert(r[i] == b[i - na]);
            }
        }
        let x = choose|x: int| 0 <= x < d.len() && d[x] == r[i];
        let y = choose|y: int| 0 <= y < d.len() && d[y] == r[j];
        if x < y {
            assert(!same_path_kind(idx, d[x], d[y]));
        } else {
            assert(!same_path_kind(idx, d[y], d[x]));
        }
    }
}

/// Every ambiguous answer of the lookup pipeline lists candidates that share
/// no path and kind, in priority order: crate-root primary items by path,
/// other crate-root items by path, then nested items by depth and path.
pub proof fn lemma_classify_ambiguous(idx: &DocIndex, s: Seq<usize>, q: Seq<char>)
    ensures
        spec_classify(idx, s, q) matches QueryView::Ambiguous(v, _) ==> ambiguous_ordered(idx, v),
{
    let d = spec_dedup_path_kind(idx, spec_resolve_stubs(idx, s));
    lemma_dedup_distinct(idx, spec_resolve_stubs(idx, s));
    lemma_sort_by_priority_ordered(idx, d);
}

/// Builds sort entries for positions; the major key is taken from `majors`
/// when given, else 0.
fn build_entries(idx: &DocIndex, s: &Vec<usize>, majors: &Vec<usize>, use_majors: bool) -> (r: Vec<SortEntry>)
    requires
        all_in_bounds(idx, s@),
        use_majors ==> majors@.len() == s@.len(),
        use_majors ==> forall|j: int| 0 <= j < majors@.len() ==> majors@[j] == depth(idx, s@[j]),
    ensures
        use_majors ==> entry_views(r@) == depth_path_entries(idx, s@),
        !use_majors ==> entry_views(r@) == path_entries(idx, s@),
{
    let mut r: Vec<SortEntry> = Vec::new();
    let mut k: usize = 0;
    while k < s.len()
        invariant
            k <= s@.len(),
            all_in_bounds(idx, s@),
            use_majors ==> majors@.len() == s@.len(),
            use_majors ==> forall|j: int| 0 <= j < majors@.len() ==> majors@[j] == depth(idx, s@[j]),
            use_majors ==> entry_views(r@) == depth_path_entries(idx, s@.take(k as int)),
            !use_majors ==> entry_views(r@) == path_entries(idx, s@.take(k as int)),
        decreases s.len() - k,
    {
        let x = s[k];
        let major: u64 = if use_majors { majors[k] as u64 } else { 0 };
        let ghost old_r = entry_views(r@);
        r.push(SortEntry { major, minor: chars_of(idx.items[x].path.as_str()), item: x });
        proof {
            if use_majors {
                assert(depth_path_entries(idx, s@.take(k + 1)) =~= depth_path_entries(
                    idx,
                    s@.take(k as int),
                ).push((depth(idx, x) as u64, item_at(idx, x).path@, x)));
            } else {
                assert(path_entries(idx, s@.take(k + 1)) =~= path_entries(idx, s@.take(k as int)).push(
                    (0u64, item_at(idx, x).path@, x),
                ));
            }
            assert(entry_views(r@) =~= old_r.push((major, item_at(idx, x).path@, x)));
        }
        k = k + 1;
    }
    proof {
        lemma_take_all(s@);
    }
    r
}

/// Sorts results for the Ambiguous variant by priority.
pub fn sort_by_priority(idx: &DocIndex, s: &[usize]) -> (r: Vec<usize>)
    requires
        all_in_bounds(idx, s@),
    ensures
        r@ == spec_sort_by_priority(idx, s@),
{
    let (crp, cro, nested, depths) = classify_depths(idx, s);
    let none: Vec<usize> = Vec::new();
    let e0 = build_entries(idx, &crp, &none, false);
    let e1 = build_entries(idx, &cro, &none, false);
    let e2 = build_entries(idx, &nested, &depths, true);
    let s0 = entry_payloads(&sort_entries(e0));
    let s1 = entry_payloads(&sort_entries(e1));
    let s2 = entry_payloads(&sort_entries(e2));
    let mut r = clone_positions(&s0);
    let mut i: usize = 0;
    let ghost base = r@;
    while i < s1.len()
        invariant
            i <= s1@.len(),
            r@ == base + s1@.take(i as int),
        decreases s1.len() - i,
    {
        r.push(s1[i]);
        i = i + 1;
        assert(r@ =~= base + s1@.take(i as int));
    }
    assert(s1@.take(s1@.len() as int) =~= s1@);
    let ghost base2 = r@;
    let mut i: usize = 0;
    while i < s2.len()
        invariant
            i <= s2@.len(),
            r@ == base2 + s2@.take(i as int),
        decreases s2.len() - i,
    {
        r.push(s2[i]);
        i = i + 1;
        assert(r@ =~= base2 + s2@.take(i as int));
    }
    assert(s2@.take(s2@.len() as int) =~= s2@);
    r
}

/// How a non-empty set of matches is reported: stub resolution and
/// (path, kind) dedup; one survivor is found; else crate-root
/// auto-selection; else an ambiguous result in priority order. An empty set
/// is not found, with suggestions.
pub open spec fn spec_classify(idx: &DocIndex, s: Seq<usize>, q: Seq<char>) -> QueryView {
    if s.len() == 0 {
        QueryView::NotFound(q, spec_suggestions(idx, q))
    } else {
        let d = spec_dedup_path_kind(idx, spec_resolve_stubs(idx, s));
        if d.len() == 1 {
            QueryView::Found(d[0])
        } else {
            match spec_auto_select(idx, d) {
                Some(x) => QueryView::Found(x),
                None => QueryView::Ambiguous(spec_sort_by_priority(idx, d), q),
            }
        }
    }
}

/// A found position is a position of the index.
pub open spec fn found_in_bounds(idx: &DocIndex, v: QueryView) -> bool {
    v matches QueryView::Found(x) ==> x < idx.items@.len()
}

/// Converts a list of matching positions into a [`QueryResult`].
pub fn classify_results(idx: &DocIndex, s: &[usize], q: &[char]) -> (r: QueryResult)
    requires
        all_in_bounds(idx, s@),
        idx.positions_in_bounds(),
    ensures
        qr_view(r) == spec_classify(idx, s@, q@),
        found_in_bounds(idx, qr_view(r)),
{
    if s.len() == 0 {
        return QueryResult::NotFound { query: string_of(q), suggestions: suggestions_for(idx, q) };
    }
    let resolved = resolve_reexport_stubs(idx, s);
    let deduped = deduplicate_by_path_kind(idx, resolved.as_slice());
    if deduped.len() == 1 {
        return QueryResult::Found { index: deduped[0] };
    }
    match try_auto_select(idx, deduped.as_slice()) {
        Some(x) => QueryResult::Found { index: x },
        None => {
            let sorted = sort_by_priority(idx, deduped.as_slice());
            QueryResult::Ambiguous { indices: sorted, query: string_of(q) }
        },
    }
}

// ---------------------------------------------------------------------------
// The lookup stages
// ---------------------------------------------------------------------------

/// The positions stored under a key are in bounds.
proof fn lemma_map_in_bounds(idx: &DocIndex, m: crate::keyed::KeyedIndices, k: Seq<char>)
    requires
        idx.positions_in_bounds(),
        m == idx.path_map || m == idx.name_map || m == idx.suffix_map,
    ensures
        all_in_bounds(idx, m.get_or_empty(k)),
{
    crate::keyed::lemma_get_below(m.entries(), k, idx.items@.len() as int);
}

/// Stage 1: the exact path (original case). Returns as soon as the path is
/// known, even when the kind filter removes every match.
pub open spec fn spec_stage_exact(idx: &DocIndex, qp: Seq<char>, kf: Option<ItemKind>) -> Option<
    QueryView,
> {
    match idx.path_map.spec_get(qp) {
        None => None,
        Some(v) => Some(spec_classify(idx, spec_apply_kind_filter(idx, v, kf), qp)),
    }
}

/// Case-insensitive full-path predicate of stage 2.
pub open spec fn ci_path_pred(idx: &DocIndex, qp: Seq<char>, ql: Seq<char>) -> spec_fn(usize) -> bool {
    |i: usize|
        lower(item_at(idx, i).path@) == ql && segments(item_at(idx, i).path@).len() == segments(
            qp,
        ).len()
}

/// Stage 2: case-insensitive full-path match.
pub open spec fn spec_stage_ci(idx: &DocIndex, qp: Seq<char>, ql: Seq<char>, kf: Option<ItemKind>) -> Option<
    QueryView,
> {
    match idx.suffix_map.spec_get(ql) {
        None => None,
        Some(v) => {
            let ci = v.filter(ci_path_pred(idx, qp, ql));
            if ci.len() == 0 {
                None
            } else {
                let c = spec_apply_case_sensitivity(idx, spec_apply_kind_filter(idx, ci, kf), qp);
                if c.len() == 0 {
                    None
                } else {
                    Some(spec_classify(idx, c, qp))
                }
            }
        },
    }
}

/// The item path ends with the (lowercase) query segments, compared lowercased.
pub open spec fn exact_suffix_pred(idx: &DocIndex, q: Seq<Seq<char>>) -> spec_fn(usize) -> bool {
    |i: usize|
        {
            let isegs = segments(item_at(idx, i).path@);
            isegs.len() >= q.len() && forall|j: int|
                0 <= j < q.len() ==> #[trigger] lower(isegs[isegs.len() - q.len() + j]) == q[j]
        }
}

/// For a single-segment query, the segment does not appear earlier in the
/// lowercased item path.
pub open spec fn non_duplicate_pred(idx: &DocIndex, q: Seq<char>) -> spec_fn(usize) -> bool {
    |i: usize|
        {
            let sl = segments(lower(item_at(idx, i).path@));
            sl.len() - 1 == 0 || !sl.take(sl.len() - 1).contains(q)
        }
}

/// Non-duplicate matches (multi-segment queries keep all).
pub open spec fn spec_non_duplicate(idx: &DocIndex, s: Seq<usize>, q: Seq<Seq<char>>) -> Seq<usize> {
    if q.len() != 1 {
        s
    } else {
        s.filter(non_duplicate_pred(idx, q[0]))
    }
}

/// Stage 3: suffix match, preferring exact suffixes and then non-duplicates.
pub open spec fn spec_stage_suffix(idx: &DocIndex, qp: Seq<char>, ql: Seq<char>, kf: Option<ItemKind>) -> Option<
    QueryView,
> {
    match idx.suffix_map.spec_get(ql) {
        None => None,
        Some(v) => {
            let c = spec_apply_case_sensitivity(idx, spec_apply_kind_filter(idx, v, kf), qp);
            let qsegs = segments(ql);
            let ex = c.filter(exact_suffix_pred(idx, qsegs));
            if ex.len() > 0 {
                let nd = spec_non_duplicate(idx, ex, qsegs);
                if nd.len() > 0 {
                    Some(spec_classify(idx, nd, qp))
                } else {
                    Some(spec_classify(idx, ex, qp))
                }
            } else if c.len() > 0 {
                Some(spec_classify(idx, c, qp))
            } else {
                None
            }
        },
    }
}

/// Stage 4: name match, for single-segment queries only.
pub open spec fn spec_stage_name(idx: &DocIndex, segs: Seq<Seq<char>>, qp: Seq<char>, kf: Option<ItemKind>) -> Option<
    QueryView,
> {
    if segs.len() != 1 {
        None
    } else {
        match idx.name_map.spec_get(lower(segs[0])) {
            None => None,
            Some(v) => {
                let c = spec_apply_case_sensitivity(idx, spec_apply_kind_filter(idx, v, kf), segs[0]);
                if c.len() == 0 {
                    None
                } else {
                    Some(spec_classify(idx, c, qp))
                }
            },
        }
    }
}

/// The segments of a query (none for an empty query).
pub open spec fn query_segments(q: Seq<char>) -> Seq<Seq<char>> {
    if q.len() == 0 {
        seq![]
    } else {
        segments(q)
    }
}

/// The result of the lookup pipeline: the first stage that answers, else not
/// found with suggestions.
#[verifier::opaque]
pub open spec fn spec_lookup(idx: &DocIndex, q: Seq<char>, kf: Option<ItemKind>) -> QueryView {
    let segs = query_segments(q);
    let qp = join(segs, path_sep());
    let ql = lower(qp);
    match spec_stage_exact(idx, qp, kf) {
        Some(r) => r,
        None => match spec_stage_ci(idx, qp, ql, kf) {
            Some(r) => r,
            None => match spec_stage_suffix(idx, qp, ql, kf) {
                Some(r) => r,
                None => match spec_stage_name(idx, segs, qp, kf) {
                    Some(r) => r,
                    None => QueryView::NotFound(qp, spec_suggestions(idx, qp)),
                },
            },
        },
    }
}

/// Whatever stage answers, an ambiguous lookup lists candidates that share
/// no path and kind, in priority order: crate-root primary items by path,
/// other crate-root items by path, then nested items by depth and path.
pub proof fn lemma_lookup_ambiguous(idx: &DocIndex, q: Seq<char>, kf: Option<ItemKind>)
    ensures
        spec_lookup(idx, q, kf) matches QueryView::Ambiguous(v, _) ==> ambiguous_ordered(idx, v),
{
    reveal(spec_lookup);
    let segs = query_segments(q);
    let qp = join(segs, path_sep());
    let ql = lower(qp);
    if let Some(v) = idx.path_map.spec_get(qp) {
        lemma_classify_ambiguous(idx, spec_apply_kind_filter(idx, v, kf), qp);
    }
    if let Some(v) = idx.suffix_map.spec_get(ql) {
        let ci = v.filter(ci_path_pred(idx, qp, ql));
        lemma_classify_ambiguous(
            idx,
            spec_apply_case_sensitivity(idx, spec_apply_kind_filter(idx, ci, kf), qp),
            qp,
        );
        let c = spec_apply_case_sensitivity(idx, spec_apply_kind_filter(idx, v, kf), qp);
        let qsegs = segments(ql);
        let ex = c.filter(exact_suffix_pred(idx, qsegs));
        lemma_classify_ambiguous(idx, spec_non_duplicate(idx, ex, qsegs), qp);
        lemma_classify_ambiguous(idx, ex, qp);
        lemma_classify_ambiguous(idx, c, qp);
    }
    if segs.len() == 1 {
        if let Some(v) = idx.name_map.spec_get(lower(segs[0])) {
            lemma_classify_ambiguous(
                idx,
                spec_apply_case_sensitivity(idx, spec_apply_kind_filter(idx, v, kf), segs[0]),
                qp,
            );
        }
    }
}

/// Exact paths win: a query written in canonical `a::b::c` form that names
/// exactly one item, which is no re-export stub, finds that item; a kind
/// filter that admits the item does not change this.
pub proof fn lemma_exact_path_finds(idx: &DocIndex, q: Seq<char>, p: usize, kf: Option<ItemKind>)
    requires
        join(query_segments(q), path_sep()) == q,
        idx.path_map.spec_get(q) == Some(seq![p]),
        !spec_is_reexport_stub(item_at(idx, p)),
        kf matches Some(f) ==> spec_matches_filter(item_at(idx, p).kind, f),
    ensures
        spec_lookup(idx, q, kf) == QueryView::Found(p),
{
    reveal(spec_lookup);
    let s = seq![p];
    let fs = spec_apply_kind_filter(idx, s, kf);
    if let Some(f) = kf {
        assert(s.filter(kind_pred(idx, f)) =~= s) by {
            reveal(Seq::filter);
            assert(s.drop_last() =~= Seq::<usize>::empty());
            assert(Seq::<usize>::empty().filter(kind_pred(idx, f)) =~= Seq::<usize>::empty());
        }
    }
    assert(fs =~= s);
    assert(resolved_prefix(idx, s, 0) =~= Seq::<usize>::empty());
    assert(spec_resolve_stubs(idx, s) =~= s);
    assert(s.drop_last() =~= Seq::<usize>::empty());
    assert(spec_dedup_path_kind(idx, s.drop_last()) =~= Seq::<usize>::empty());
    assert(spec_dedup_path_kind(idx, s) =~= s);
}

/// Stage 1.
fn try_exact_path_match(idx: &DocIndex, qp: &[char], kf: Option<ItemKind>) -> (r: Option<QueryResult>)
    requires
        idx.positions_in_bounds(),
    ensures
        match r {
            Some(x) => spec_stage_exact(idx, qp@, kf) == Some(qr_view(x)) && found_in_bounds(idx, qr_view(x)),
            None => spec_stage_exact(idx, qp@, kf) is None,
        },
{
    match idx.path_map.get_chars(qp) {
        None => None,
        Some(v) => {
            proof {
                lemma_map_in_bounds(idx, idx.path_map, qp@);
            }
            let f = apply_kind_filter(idx, v.as_slice(), kf);
            Some(classify_results(idx, f.as_slice(), qp))
        },
    }
}

/// Stage 2.
fn try_case_insensitive_path_match(idx: &DocIndex, qp: &[char], ql: &[char], kf: Option<ItemKind>) -> (r: Option<QueryResult>)
    requires
        idx.positions_in_bounds(),
    ensures
        match r {
            Some(x) => spec_stage_ci(idx, qp@, ql@, kf) == Some(qr_view(x)) && found_in_bounds(idx, qr_view(x)),
            None => spec_stage_ci(idx, qp@, ql@, kf) is None,
        },
{
    match idx.suffix_map.get_chars(ql) {
        None => None,
        Some(v) => {
            proof {
                lemma_map_in_bounds(idx, idx.suffix_map, ql@);
            }
            let qcount = segments_exec(qp).len();
            let ghost pred = ci_path_pred(idx, qp@, ql@);
            let mut ci: Vec<usize> = Vec::new();
            let mut k: usize = 0;
            assert(v@.take(0).filter(pred) =~= Seq::<usize>::empty()) by {
                reveal_with_fuel(Seq::<_>::filter, 1);
            }
            while k < v.len()
                invariant
                    k <= v@.len(),
                    all_in_bounds(idx, v@),
                    pred == ci_path_pred(idx, qp@, ql@),
                    qcount == segments(qp@).len(),
                    ci@ == v@.take(k as int).filter(pred),
                decreases v.len() - k,
            {
                proof {
                    lemma_filter_take_step(v@, pred, k as int);
                }
                let i = v[k];
                let pc = chars_of(idx.items[i].path.as_str());
                let pl = lower_chars_exec(pc.as_slice());
                if chars_eq(pl.as_slice(), ql) && segments_exec(pc.as_slice()).len() == qcount {
                    ci.push(i);
                }
                k = k + 1;
            }
            proof {
                lemma_take_all(v@);
                lemma_filter_in_bounds(idx, v@, pred);
            }
            if ci.len() == 0 {
                return None;
            }
            let f = apply_kind_filter(idx, ci.as_slice(), kf);
            let c = apply_case_sensitivity(idx, f.as_slice(), qp);
            if c.len() == 0 {
                return None;
            }
            Some(classify_results(idx, c.as_slice(), qp))
        },
    }
}

/// Whether the item path ends with the lowercase query segments.
fn exact_suffix_test(idx: &DocIndex, i: usize, q: &Vec<Vec<char>>) -> (r: bool)
    requires
        i < idx.items@.len(),
    ensures
        r == (exact_suffix_pred(idx, q@.map_values(|v: Vec<char>| v@)))(i),
{
    let ghost qv = q@.map_values(|v: Vec<char>| v@);
    let pc = chars_of(idx.items[i].path.as_str());
    let isegs = segments_exec(pc.as_slice());
    let ghost iv = isegs@.map_values(|v: Vec<char>| v@);
    if isegs.len() < q.len() {
        return false;
    }
    let off = isegs.len() - q.len();
    let mut j: usize = 0;
    while j < q.len()
        invariant
            off + q.len() == isegs.len(),
            j <= q@.len(),
            qv == q@.map_values(|v: Vec<char>| v@),
            iv == isegs@.map_values(|v: Vec<char>| v@),
            iv == segments(item_at(idx, i).path@),
            i < idx.items@.len(),
            forall|t: int| 0 <= t < j ==> #[trigger] lower(iv[iv.len() - qv.len() + t]) == qv[t],
        decreases q.len() - j,
    {
        let l = lower_chars_exec(isegs[off + j].as_slice());
        if !chars_eq(l.as_slice(), q[j].as_slice()) {
            assert(lower(iv[iv.len() - qv.len() + j]) != qv[j as int]);
            return false;
        }
        j = j + 1;
    }
    true
}

/// Whether a single lowercase query segment appears earlier in the item path.
fn non_duplicate_test(idx: &DocIndex, i: usize, q: &Vec<char>) -> (r: bool)
    requires
        i < idx.items@.len(),
    ensures
        r == (non_duplicate_pred(idx, q@))(i),
{
    let pc = chars_of(idx.items[i].path.as_str());
    let pl = lower_chars_exec(pc.as_slice());
    let sl = segments_exec(pl.as_slice());
    let ghost sv = sl@.map_values(|v: Vec<char>| v@);
    proof {
        crate::text::lemma_split_nonempty(pl@, path_sep());
    }
    let off = sl.len() - 1;
    if off == 0 {
        return true;
    }
    let mut j: usize = 0;
    while j < off
        invariant
            off + 1 == sl@.len(),
            j <= off,
            sv == sl@.map_values(|v: Vec<char>| v@),
            sv == segments(lower(item_at(idx, i).path@)),
            i < idx.items@.len(),
            forall|t: int| 0 <= t < j ==> sv[t] != q@,
        decreases off - j,
    {
        if chars_eq(sl[j].as_slice(), q.as_slice()) {
            assert(sv.take(off as int)[j as int] == q@);
            return false;
        }
        j = j + 1;
    }
    proof {
        if sv.take(off as int).contains(q@) {
            let t = choose|t: int| 0 <= t < off && sv.take(off as int)[t] == q@;
            assert(sv[t] != q@);
        }
    }
    true
}

/// Stage 3.
fn try_suffix_match(idx: &DocIndex, qp: &[char], ql: &[char], kf: Option<ItemKind>) -> (r: Option<QueryResult>)
    requires
        idx.positions_in_bounds(),
    ensures
        match r {
            Some(x) => spec_stage_suffix(idx, qp@, ql@, kf) == Some(qr_view(x)) && found_in_bounds(idx, qr_view(x)),
            None => spec_stage_suffix(idx, qp@, ql@, kf) is None,
        },
{
    match idx.suffix_map.get_chars(ql) {
        None => None,
        Some(v) => {
            proof {
                lemma_map_in_bounds(idx, idx.suffix_map, ql@);
            }
            let f = apply_kind_filter(idx, v.as_slice(), kf);
            let c = apply_case_sensitivity(idx, f.as_slice(), qp);
            let qsegs = segments_exec(ql);
            let ghost qv = qsegs@.map_values(|v: Vec<char>| v@);
            let ghost pred = exact_suffix_pred(idx, qv);
            let mut ex: Vec<usize> = Vec::new();
            let mut k: usize = 0;
            assert(c@.take(0).filter(pred) =~= Seq::<usize>::empty()) by {
                reveal_with_fuel(Seq::<_>::filter, 1);
            }
            while k < c.len()
                invariant
                    k <= c@.len(),
                    all_in_bounds(idx, c@),
                    qv == qsegs@.map_values(|v: Vec<char>| v@),
                    pred == exact_suffix_pred(idx, qv),
                    ex@ == c@.take(k as int).filter(pred),
                decreases c.len() - k,
            {
                proof {
                    lemma_filter_take_step(c@, pred, k as int);
                }
                let i = c[k];
                if exact_suffix_test(idx, i, &qsegs) {
                    ex.push(i);
                }
                k = k + 1;
            }
            proof {
                lemma_take_all(c@);
                lemma_filter_in_bounds(idx, c@, pred);
            }
            if ex.len() > 0 {
                let nd: Vec<usize> = if qsegs.len() != 1 {
                    clone_positions(&ex)
                } else {
                    let ghost p2 = non_duplicate_pred(idx, qv[0]);
                    let mut nd: Vec<usize> = Vec::new();
                    let mut k: usize = 0;
                    assert(ex@.take(0).filter(p2) =~= Seq::<usize>::empty()) by {
                        reveal_with_fuel(Seq::<_>::filter, 1);
                    }
                    assert(qv[0] == qsegs@[0]@);
                    while k < ex.len()
                        invariant
                            k <= ex@.len(),
                            all_in_bounds(idx, ex@),
                            qsegs@.len() == 1,
                            qv == qsegs@.map_values(|v: Vec<char>| v@),
                            p2 == non_duplicate_pred(idx, qv[0]),
                            qv[0] == qsegs@[0]@,
                            nd@ == ex@.take(k as int).filter(p2),
                        decreases ex.len() - k,
                    {
                        proof {
                            lemma_filter_take_step(ex@, p2, k as int);
                        }
                        let i = ex[k];
                        if non_duplicate_test(idx, i, &qsegs[0]) {
                            nd.push(i);
                        }
                        k = k + 1;
                    }
                    proof {
                        lemma_take_all(ex@);
                        lemma_filter_in_bounds(idx, ex@, p2);
                    }
                    nd
                };
                assert(nd@ == spec_non_duplicate(idx, ex@, qv));
                proof {
                    if qv.len() != 1 {
                    } else {
                        lemma_filter_in_bounds(idx, ex@, non_duplicate_pred(idx, qv[0]));
                    }
                }
                if nd.len() > 0 {
                    return Some(classify_results(idx, nd.as_slice(), qp));
                }
                return Some(classify_results(idx, ex.as_slice(), qp));
            }
            if c.len() > 0 {
                return Some(classify_results(idx, c.as_slice(), qp));
            }
            None
        },
    }
}

/// Stage 4.
fn try_name_match(idx: &DocIndex, segs: &Vec<Vec<char>>, qp: &[char], kf: Option<ItemKind>) -> (r: Option<QueryResult>)
    requires
        idx.positions_in_bounds(),
    ensures
        match r {
            Some(x) => spec_stage_name(idx, segs@.map_values(|v: Vec<char>| v@), qp@, kf) == Some(qr_view(x)) && found_in_bounds(idx, qr_view(x)),
            None => spec_stage_name(idx, segs@.map_values(|v: Vec<char>| v@), qp@, kf) is None,
        },
{
    let ghost sv = segs@.map_values(|v: Vec<char>| v@);
    if segs.len() != 1 {
        return None;
    }
    assert(sv[0] == segs@[0]@);
    let nl = lower_chars_exec(segs[0].as_slice());
    match idx.name_map.get_chars(nl.as_slice()) {
        None => None,
        Some(v) => {
            proof {
                lemma_map_in_bounds(idx, idx.name_map, nl@);
            }
            let f = apply_kind_filter(idx, v.as_slice(), kf);
            let c = apply_case_sensitivity(idx, f.as_slice(), segs[0].as_slice());
            if c.len() == 0 {
                return None;
            }
            Some(classify_results(idx, c.as_slice(), qp))
        },
    }
}

/// Resolves a query string against a [`DocIndex`] using the 5-stage lookup pipeline.
///
/// If `kind_filter` is set, only matching kinds are returned; when filtering
/// empties a later stage, the pipeline continues with the next stage.
pub fn lookup(idx: &DocIndex, query: &str, kind_filter: Option<ItemKind>) -> (r: QueryResult)
    requires
        idx.positions_in_bounds(),
    ensures
        qr_view(r) == spec_lookup(idx, query@, kind_filter),
        found_in_bounds(idx, qr_view(r)),
{
    let q = chars_of(query);
    lookup_chars(idx, q.as_slice(), kind_filter)
}

/// [`lookup`] on a query given as characters.
pub fn lookup_chars(idx: &DocIndex, q: &[char], kind_filter: Option<ItemKind>) -> (r: QueryResult)
    requires
        idx.positions_in_bounds(),
    ensures
        qr_view(r) == spec_lookup(idx, q@, kind_filter),
        found_in_bounds(idx, qr_view(r)),
{
    let segs: Vec<Vec<char>> = if q.len() == 0 {
        Vec::new()
    } else {
        segments_exec(q)
    };
    proof {
        reveal(spec_lookup);
    }
    assert(segs@.map_values(|v: Vec<char>| v@) =~= query_segments(q@));
    let sep = path_sep_exec();
    let qp = crate::text::join_exec(segs.as_slice(), sep.as_slice());
    let ql = lower_chars_exec(qp.as_slice());
    if let Some(r) = try_exact_path_match(idx, qp.as_slice(), kind_filter) {
        return r;
    }
    if let Some(r) = try_case_insensitive_path_match(idx, qp.as_slice(), ql.as_slice(), kind_filter) {
        return r;
    }
    if let Some(r) = try_suffix_match(idx, qp.as_slice(), ql.as_slice(), kind_filter) {
        return r;
    }
    if let Some(r) = try_name_match(idx, &segs, qp.as_slice(), kind_filter) {
        return r;
    }
    QueryResult::NotFound { query: string_of(qp.as_slice()), suggestions: suggestions_for(idx, qp.as_slice()) }
}


// ---------------------------------------------------------------------------
// Method lookup
// ---------------------------------------------------------------------------

/// The character views of a list of string slices.
pub open spec fn str_views(v: Seq<&str>) -> Seq<Seq<char>> {
    v.map_values(|x: &str| x@)
}

/// `parent::name`.
pub open spec fn method_path(parent: Seq<char>, m: Seq<char>) -> Seq<char> {
    parent + path_sep() + m
}

/// Whether a child passes the optional kind filter.
pub open spec fn child_kind_ok(c: ChildRef, kf: Option<ItemKind>) -> bool {
    match kf {
        None => true,
        Some(f) => spec_matches_filter(c.kind, f),
    }
}

/// Positions of the children whose lowercased name is `ml` and whose kind
/// passes the filter, in child order.
pub open spec fn child_matches(cs: Seq<ChildRef>, ml: Seq<char>, kf: Option<ItemKind>) -> Seq<usize>
    decreases cs.len(),
{
    if cs.len() == 0 {
        seq![]
    } else {
        let prev = child_matches(cs.drop_last(), ml, kf);
        let c = cs.last();
        if lower(c.name@) == ml && child_kind_ok(c, kf) {
            prev.push(c.index)
        } else {
            prev
        }
    }
}

/// Method suggestion candidates: `(distance, parent::child)` for each child
/// whose lowercased name is within edit distance 3 of `ml`, in child order.
pub open spec fn method_candidates(cs: Seq<ChildRef>, parent: Seq<char>, ml: Seq<char>) -> Seq<
    crate::sort::EntryView,
>
    decreases cs.len(),
{
    if cs.len() == 0 {
        seq![]
    } else {
        let prev = method_candidates(cs.drop_last(), parent, ml);
        let cl = lower(cs.last().name@);
        if spec_could_match(utf8(ml), utf8(cl), 3) && lev(ml, cl) <= 3 {
            prev.push((lev(ml, cl) as u64, method_path(parent, cs.last().name@), (cs.len() - 1) as usize))
        } else {
            prev
        }
    }
}

/// Method name suggestions on item `p`: candidates sorted by distance then
/// path, one per path, at most five.
pub open spec fn spec_method_suggestions(idx: &DocIndex, p: usize, m: Seq<char>) -> Seq<Seq<char>> {
    let it = idx.items@[p as int];
    top5_texts(stable_sort(method_candidates(it.children@, it.path@, lower(m))))
}

/// Method lookup: resolve the parent; a found parent is searched for children
/// named `m` (any case, then the case rule); an ambiguous or missing parent is
/// returned as is.
#[verifier::opaque]
pub open spec fn spec_lookup_method(idx: &DocIndex, parent_q: Seq<char>, m: Seq<char>, kf: Option<ItemKind>) -> QueryView {
    match spec_lookup(idx, parent_q, None) {
        QueryView::Found(p) => {
            let it = idx.items@[p as int];
            let cf = spec_apply_case_sensitivity(idx, child_matches(it.children@, lower(m), kf), m);
            let full = method_path(it.path@, m);
            if cf.len() > 0 {
                spec_classify(idx, cf, full)
            } else {
                QueryView::NotFound(full, spec_method_suggestions(idx, p, m))
            }
        },
        other => other,
    }
}

/// Computes method name suggestions for a parent type.
pub fn compute_method_suggestions(idx: &DocIndex, parent_idx: usize, method_name: &str) -> (r: Vec<String>)
    requires
        parent_idx < idx.items@.len(),
    ensures
        crate::cli::string_views(r@) == spec_method_suggestions(idx, parent_idx, method_name@),
{
    let m = chars_of(method_name);
    let ml = lower_chars_exec(m.as_slice());
    let ml_s = string_of(ml.as_slice());
    let item = &idx.items[parent_idx];
    let pc = chars_of(item.path.as_str());
    let sep = path_sep_exec();
    let ghost cs = item.children@;
    let mut cands: Vec<SortEntry> = Vec::new();
    let mut k: usize = 0;
    while k < item.children.len()
        invariant
            k <= cs.len(),
            cs == item.children@,
            ml@ == lower(m@),
            m@ == method_name@,
            ml_s@ == ml@,
            pc@ == item.path@,
            sep@ == path_sep(),
            entry_views(cands@) == method_candidates(cs.take(k as int), item.path@, ml@),
        decreases item.children.len() - k,
    {
        let child = &item.children[k];
        let ghost old_c = entry_views(cands@);
        assert(cs.take(k + 1).drop_last() =~= cs.take(k as int));
        assert(cs.take(k + 1).last() == cs[k as int]);
        let cl = crate::text::to_lower(child.name.as_str());
        if could_match_within_distance(ml_s.as_str(), cl.as_str(), 3) {
            let clc = chars_of(cl.as_str());
            let d = edit_distance(ml.as_slice(), clc.as_slice());
            if d <= 3 {
                let mut path = copy_chars(pc.as_slice());
                append(&mut path, sep.as_slice());
                append_str(&mut path, child.name.as_str());
                cands.push(SortEntry { major: d as u64, minor: path, item: k });
                assert(entry_views(cands@) =~= old_c.push(
                    (d as u64, method_path(item.path@, child.name@), k),
                ));
            }
        }
        k = k + 1;
    }
    assert(cs.take(cs.len() as int) =~= cs);
    let sorted = sort_entries(cands);
    top5_texts_exec(&sorted)
}

/// Positions of the children of item `p` whose lowercased name is `ml` and
/// whose kind passes the filter.
fn matching_children(idx: &DocIndex, p: usize, ml: &[char], kind_filter: Option<ItemKind>) -> (r: Vec<usize>)
    requires
        p < idx.items@.len(),
        idx.children_in_bounds(),
    ensures
        r@ == child_matches(idx.items@[p as int].children@, ml@, kind_filter),
        all_in_bounds(idx, r@),
{
    let item = &idx.items[p];
    let ghost cs = item.children@;
    let mut matching: Vec<usize> = Vec::new();
    let mut j: usize = 0;
    while j < item.children.len()
        invariant
            j <= cs.len(),
            cs == item.children@,
            p < idx.items@.len(),
            item == idx.items@[p as int],
            idx.children_in_bounds(),
            all_in_bounds(idx, matching@),
            matching@ == child_matches(cs.take(j as int), ml@, kind_filter),
        decreases item.children.len() - j,
    {
        let child = &item.children[j];
        assert(cs.take(j + 1).drop_last() =~= cs.take(j as int));
        assert(cs.take(j + 1).last() == cs[j as int]);
        let cl = lower_chars_exec(chars_of(child.name.as_str()).as_slice());
        let kind_ok = match kind_filter {
            None => true,
            Some(f) => child.kind.matches_filter(f),
        };
        if chars_eq(cl.as_slice(), ml) && kind_ok {
            assert(idx.items@[p as int].children@[j as int].index < idx.items@.len());
            matching.push(child.index);
        }
        j = j + 1;
    }
    assert(cs.take(cs.len() as int) =~= cs);
    matching
}

/// Looks up a method on a parent type.
///
/// Resolves `parent_segments` via [`lookup`], then searches the parent's
/// children for `method_name`. An ambiguous or missing parent is returned as
/// is; a found parent without such a method gives `NotFound` with
/// suggestions.
pub fn lookup_method(
    idx: &DocIndex,
    parent_segments: &[&str],
    method_name: &str,
    kind_filter: Option<ItemKind>,
) -> (r: QueryResult)
    requires
        idx.positions_in_bounds(),
        idx.children_in_bounds(),
    ensures
        qr_view(r) == spec_lookup_method(
            idx,
            join(str_views(parent_segments@), path_sep()),
            method_name@,
            kind_filter,
        ),
        found_in_bounds(idx, qr_view(r)),
{
    let mut parts: Vec<Vec<char>> = Vec::new();
    let mut k: usize = 0;
    while k < parent_segments.len()
        invariant
            k <= parent_segments@.len(),
            parts@.map_values(|v: Vec<char>| v@) == str_views(parent_segments@).take(k as int),
        decreases parent_segments.len() - k,
    {
        let ghost old_p = parts@.map_values(|v: Vec<char>| v@);
        parts.push(chars_of(parent_segments[k]));
        assert(parts@.map_values(|v: Vec<char>| v@) =~= old_p.push(parent_segments@[k as int]@));
        assert(str_views(parent_segments@).take(k + 1) =~= str_views(parent_segments@).take(
            k as int,
        ).push(parent_segments@[k as int]@));
        k = k + 1;
    }
    assert(str_views(parent_segments@).take(parent_segments@.len() as int) =~= str_views(
        parent_segments@,
    ));
    let sep = path_sep_exec();
    let pq = crate::text::join_exec(parts.as_slice(), sep.as_slice());
    lookup_method_in(idx, pq.as_slice(), method_name, kind_filter)
}

/// [`lookup_method`] with the parent query given as characters.
pub fn lookup_method_in(idx: &DocIndex, pq: &[char], method_name: &str, kind_filter: Option<ItemKind>) -> (r: QueryResult)
    requires
        idx.positions_in_bounds(),
        idx.children_in_bounds(),
    ensures
        qr_view(r) == spec_lookup_method(idx, pq@, method_name@, kind_filter),
        found_in_bounds(idx, qr_view(r)),
{
    proof {
        reveal(spec_lookup_method);
    }
    let sep = path_sep_exec();
    let parent = lookup_chars(idx, pq, None);
    match parent {
        QueryResult::Found { index: p } => {
            let m = chars_of(method_name);
            let ml = lower_chars_exec(m.as_slice());
            let item = &idx.items[p];
            let matching = matching_children(idx, p, ml.as_slice(), kind_filter);
            let cf = apply_case_sensitivity(idx, matching.as_slice(), m.as_slice());
            let mut full = chars_of(item.path.as_str());
            append(&mut full, sep.as_slice());
            append(&mut full, m.as_slice());
            if cf.len() > 0 {
                return classify_results(idx, cf.as_slice(), full.as_slice());
            }
            let suggestions = compute_method_suggestions(idx, p, method_name);
            QueryResult::NotFound { query: string_of(full.as_slice()), suggestions }
        },
        other => other,
    }
}

// ---------------------------------------------------------------------------
// Item name heuristic
// ---------------------------------------------------------------------------

/// Method names common enough to be taken as items rather than crates.
pub open spec fn common_method_names() -> Seq<Seq<char>> {
    seq![
        "clone"@, "default"@, "into"@, "from"@, "borrow"@, "deref"@, "format"@, "parse"@,
        "write"@, "read"@, "open"@, "close"@, "send"@, "recv"@,
    ]
}

/// The number of occurrences of `c` in `s`.
pub open spec fn count_char(s: Seq<char>, c: char) -> nat
    decreases s.len(),
{
    if s.len() == 0 {
        0
    } else {
        count_char(s.drop_last(), c) + if s.last() == c {
            1nat
        } else {
            0nat
        }
    }
}

/// A character of a "simple" snake-case segment: lowercase or an ASCII digit.
pub open spec fn simple_char(c: char) -> bool {
    lower_char(c) || ('0' <= c && c <= '9')
}

/// The underscore rule: an item name unless it has at most 3
/// `_`-separated segments, all lowercase or digits, averaging at most 6 bytes.
pub open spec fn spec_snake_rule(q: Seq<char>) -> bool {
    let n = count_char(q, '_');
    let all_simple = forall|i: int| 0 <= i < q.len() ==> q[i] == '_' || simple_char(#[trigger] q[i]);
    let avg = (utf8(q).len() - n) / ((n + 1) as int);
    !(n + 1 <= 3 && all_simple && avg <= 6)
}

/// Whether a single-segment query looks like an item name rather than a
/// crate name:
/// - empty, or containing `-`: no;
/// - any uppercase character: yes;
/// - with underscores: [`spec_snake_rule`];
/// - at most 4 bytes: yes;
/// - a common method name: yes; otherwise no.
pub open spec fn spec_looks_like_item_name(q: Seq<char>) -> bool {
    if q.len() == 0 {
        false
    } else if q.contains('-') {
        false
    } else if any_upper(q) {
        true
    } else if q.contains('_') {
        spec_snake_rule(q)
    } else if utf8(q).len() <= 4 {
        true
    } else {
        common_method_names().contains(q)
    }
}

fn snake_rule(q: &[char], nbytes: usize) -> (r: bool)
    requires
        nbytes == utf8(q@).len(),
    ensures
        r == spec_snake_rule(q@),
{
    let mut n: usize = 0;
    let mut all_simple = true;
    let mut i: usize = 0;
    assert(q@.take(0) =~= Seq::<char>::empty());
    while i < q.len()
        invariant
            i <= q@.len(),
            n == count_char(q@.take(i as int), '_'),
            n <= i,
            all_simple == forall|t: int|
                0 <= t < i ==> q@[t] == '_' || simple_char(#[trigger] q@[t]),
        decreases q.len() - i,
    {
        assert(q@.take(i + 1).drop_last() =~= q@.take(i as int));
        let c = q[i];
        if c == '_' {
            n = n + 1;
        } else if !(is_lower(c) || ('0' <= c && c <= '9')) {
            all_simple = false;
        }
        i = i + 1;
    }
    assert(q@.take(q@.len() as int) =~= q@);
    proof {
        lemma_utf8_len_ge(q@);
    }
    if n >= 3 {
        return true;
    }
    let avg = (nbytes - n) / (n + 1);
    !(all_simple && avg <= 6)
}

fn is_common_method_name(q: &[char]) -> (r: bool)
    ensures
        r == common_method_names().contains(q@),
{
    let names: [&str; 14] = [
        "clone", "default", "into", "from", "borrow", "deref", "format", "parse", "write", "read",
        "open", "close", "send", "recv",
    ];
    assert(names@.map_values(|x: &str| x@) =~= common_method_names());
    let mut k: usize = 0;
    while k < 14
        invariant
            k <= 14,
            names@.map_values(|x: &str| x@) == common_method_names(),
            forall|t: int| 0 <= t < k ==> common_method_names()[t] != q@,
        decreases 14 - k,
    {
        let w = chars_of(names[k]);
        assert(w@ == common_method_names()[k as int]);
        if chars_eq(w.as_slice(), q) {
            assert(common_method_names()[k as int] == q@);
            return true;
        }
        k = k + 1;
    }
    false
}

/// Determines whether a single-segment query looks like an item name.
///
/// Returns `true` if the query is likely a Rust item (type, function,
/// constant), `false` if it is likely a crate name.
pub fn looks_like_item_name(query: &str) -> (r: bool)
    ensures
        r == spec_looks_like_item_name(query@),
{
    let q = chars_of(query);
    let bytes = query.as_bytes();
    let nbytes = bytes.len();
    assert(bytes@ == utf8(query@));
    if q.len() == 0 {
        return false;
    }
    if has_char(q.as_slice(), '-') {
        return false;
    }
    if any_upper_exec(q.as_slice()) {
        return true;
    }
    if has_char(q.as_slice(), '_') {
        return snake_rule(q.as_slice(), nbytes);
    }
    if nbytes <= 4 {
        return true;
    }
    is_common_method_name(q.as_slice())
}

/// Every character takes at least one byte in UTF-8.
pub proof fn lemma_utf8_len_ge(s: Seq<char>)
    ensures
        s.len() <= utf8(s).len(),
    decreases s.len(),
{
    if s.len() > 0 {
        lemma_utf8_len_ge(s.drop_first());
    }
}

} // verus!
