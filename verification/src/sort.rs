//! A stable sort on keyed entries.
//!
//! Entries are ordered by a numeric key, then by a text key compared
//! lexicographically by code point. Comparing by code point orders strings
//! exactly as `String`'s `Ord` does (UTF-8 preserves code point order).
use vstd::prelude::*;

verus! {

/// Strict lexicographic order of character sequences, by code point.
pub open spec fn lex_lt(a: Seq<char>, b: Seq<char>) -> bool
    decreases a.len(),
{
    if a.len() == 0 {
        b.len() > 0
    } else if b.len() == 0 {
        false
    } else if (a[0] as u32) < (b[0] as u32) {
        true
    } else if (a[0] as u32) > (b[0] as u32) {
        false
    } else {
        lex_lt(a.drop_first(), b.drop_first())
    }
}

/// Whether `a` sorts strictly before `b` (by code point).
pub fn lex_lt_exec(a: &[char], b: &[char]) -> (r: bool)
    ensures
        r == lex_lt(a@, b@),
{
    let mut i: usize = 0;
    assert(a@.skip(0) =~= a@);
    assert(b@.skip(0) =~= b@);
    assert(a@.take(0) =~= b@.take(0));
    while i < a.len() && i < b.len()
        invariant
            i <= a@.len(),
            i <= b@.len(),
            a@.take(i as int) == b@.take(i as int),
            lex_lt(a@, b@) == lex_lt(a@.skip(i as int), b@.skip(i as int)),
        decreases a.len() - i,
    {
        let x = a[i] as u32;
        let y = b[i] as u32;
        if x < y {
            return true;
        }
        if x > y {
            return false;
        }
        proof {
            let sa = a@.skip(i as int);
            let sb = b@.skip(i as int);
            assert(sa.drop_first() =~= a@.skip(i + 1));
            assert(sb.drop_first() =~= b@.skip(i + 1));
            assert(a@.take(i + 1) =~= a@.take(i as int).push(a@[i as int]));
            assert(b@.take(i + 1) =~= b@.take(i as int).push(b@[i as int]));
            vstd::utf8::char_u32_cast(a@[i as int], x);
            vstd::utf8::char_u32_cast(b@[i as int], y);
            assert(a@[i as int] == b@[i as int]);
        }
        i = i + 1;
    }
    i < b.len()
}

/// An entry to sort: a numeric key, a text key and a payload position.
#[derive(Debug)]
pub struct SortEntry {
    /// Compared first, ascending.
    pub major: u64,
    /// Compared second, lexicographically ascending.
    pub minor: Vec<char>,
    /// Carried along.
    pub item: usize,
}

/// The view of an entry.
pub type EntryView = (u64, Seq<char>, usize);

/// The views of a list of entries.
pub open spec fn entry_views(v: Seq<SortEntry>) -> Seq<EntryView> {
    v.map_values(|e: SortEntry| (e.major, e.minor@, e.item))
}

/// `a` sorts strictly before `b`.
pub open spec fn entry_lt(a: EntryView, b: EntryView) -> bool {
    a.0 < b.0 || (a.0 == b.0 && lex_lt(a.1, b.1))
}

/// Inserts `x` into a sorted sequence after every element that does not sort after it.
pub open spec fn insert_sorted(s: Seq<EntryView>, x: EntryView) -> Seq<EntryView>
    decreases s.len(),
{
    if s.len() == 0 {
        seq![x]
    } else if entry_lt(x, s.last()) {
        insert_sorted(s.drop_last(), x).push(s.last())
    } else {
        s.push(x)
    }
}

/// The stable sort of `s`: insertion of each element, in order, into the
/// sorted prefix. Equal elements keep their relative order.
pub open spec fn stable_sort(s: Seq<EntryView>) -> Seq<EntryView>
    decreases s.len(),
{
    if s.len() == 0 {
        seq![]
    } else {
        insert_sorted(stable_sort(s.drop_last()), s.last())
    }
}

/// Insertion adds exactly the inserted element.
pub proof fn lemma_insert_sorted_multiset(s: Seq<EntryView>, x: EntryView)
    ensures
        insert_sorted(s, x).to_multiset() == s.to_multiset().insert(x),
    decreases s.len(),
{
    broadcast use vstd::seq_lib::group_to_multiset_ensures;
    if s.len() == 0 {
        assert(seq![x] =~= Seq::<EntryView>::empty().push(x));
    } else if entry_lt(x, s.last()) {
        lemma_insert_sorted_multiset(s.drop_last(), x);
        assert(s.drop_last().push(s.last()) =~= s);
        assert(insert_sorted(s.drop_last(), x).push(s.last()).to_multiset() =~= s.to_multiset().insert(x));
    }
}

/// Sorting is a permutation: the sorted sequence holds the same entries,
/// each as often.
pub proof fn lemma_stable_sort_multiset(s: Seq<EntryView>)
    ensures
        stable_sort(s).to_multiset() == s.to_multiset(),
    decreases s.len(),
{
    broadcast use vstd::seq_lib::group_to_multiset_ensures;
    if s.len() > 0 {
        lemma_stable_sort_multiset(s.drop_last());
        lemma_insert_sorted_multiset(stable_sort(s.drop_last()), s.last());
        assert(s.drop_last().push(s.last()) =~= s);
    }
}

/// Every entry of the sorted sequence is an entry of the input.
pub proof fn lemma_stable_sort_member(s: Seq<EntryView>, i: int)
    requires
        0 <= i < stable_sort(s).len(),
    ensures
        s.contains(stable_sort(s)[i]),
{
    broadcast use vstd::seq_lib::group_to_multiset_ensures;
    lemma_stable_sort_multiset(s);
    let x = stable_sort(s)[i];
    assert(stable_sort(s).contains(x));
    assert(stable_sort(s).to_multiset().count(x) > 0);
    assert(s.to_multiset().count(x) > 0);
}

/// Where insertion lands: `x` goes after the first `p` elements.
proof fn lemma_insert_at(s: Seq<EntryView>, x: EntryView, p: int)
    requires
        0 <= p <= s.len(),
        forall|j: int| p <= j < s.len() ==> entry_lt(x, #[trigger] s[j]),
        p > 0 ==> !entry_lt(x, s[p - 1]),
    ensures
        insert_sorted(s, x) == s.take(p) + seq![x] + s.skip(p),
    decreases s.len(),
{
    if s.len() == 0 {
        assert(s.take(p) + seq![x] + s.skip(p) =~= seq![x]);
    } else if p == s.len() {
        assert(s.take(p) + seq![x] + s.skip(p) =~= s.push(x));
    } else {
        assert(entry_lt(x, s[s.len() - 1]));
        let t = s.drop_last();
        assert forall|j: int| p <= j < t.len() implies entry_lt(x, #[trigger] t[j]) by {
            assert(t[j] == s[j]);
        }
        if p > 0 {
            assert(t[p - 1] == s[p - 1]);
        }
        lemma_insert_at(t, x, p);
        assert(t.take(p) + seq![x] + t.skip(p) + seq![s.last()] =~= s.take(p) + seq![x] + s.skip(
            p,
        ));
    }
}

/// Sorts entries stably by (major, minor).
pub fn sort_entries(v: Vec<SortEntry>) -> (r: Vec<SortEntry>)
    ensures
        entry_views(r@) == stable_sort(entry_views(v@)),
{
    let ghost vv = entry_views(v@);
    let mut out: Vec<SortEntry> = Vec::new();
    let mut rest = v;
    let mut pending: Vec<SortEntry> = Vec::new();
    // Reverse `rest` into `pending` so elements can be popped in original order.
    while rest.len() > 0
        invariant
            entry_views(rest@) + entry_views(pending@).reverse() == vv,
        decreases rest.len(),
    {
        let ghost before_r = entry_views(rest@);
        let ghost before_p = entry_views(pending@);
        let x = rest.pop().unwrap();
        pending.push(x);
        assert(entry_views(rest@) =~= before_r.drop_last());
        assert(entry_views(pending@) =~= before_p.push(before_r.last()));
        assert(entry_views(pending@).reverse() =~= seq![before_r.last()] + before_p.reverse());
        assert(entry_views(rest@) + entry_views(pending@).reverse() =~= before_r.drop_last()
            + seq![before_r.last()] + before_p.reverse());
        assert(before_r.drop_last() + seq![before_r.last()] =~= before_r);
    }
    assert(entry_views(rest@) =~= Seq::<EntryView>::empty());
    assert(entry_views(pending@).reverse() =~= vv);
    let ghost mut done: int = 0;
    assert(vv.take(0) =~= Seq::<EntryView>::empty());
    while pending.len() > 0
        invariant
            0 <= done <= vv.len(),
            entry_views(pending@).reverse() == vv.skip(done),
            entry_views(out@) == stable_sort(vv.take(done)),
        decreases pending.len(),
    {
        let ghost before_p = entry_views(pending@);
        assert(before_p.len() > 0);
        assert(before_p.reverse().len() == vv.skip(done).len());
        assert(done < vv.len());
        let x = pending.pop().unwrap();
        let ghost xv = (x.major, x.minor@, x.item);
        assert(before_p.reverse()[0] == before_p.last());
        assert(vv.skip(done)[0] == vv[done]);
        assert(xv == vv[done]);
        assert(entry_views(pending@) =~= before_p.drop_last());
        assert(before_p.drop_last().reverse() =~= before_p.reverse().drop_first());
        assert(vv.skip(done).drop_first() =~= vv.skip(done + 1));
        assert(entry_views(pending@).reverse() =~= vv.skip(done + 1));
        let ghost s = entry_views(out@);
        let mut p = out.len();
        while p > 0 && entry_lt_exec(&x, &out[p - 1])
            invariant
                0 <= p <= out@.len(),
                s == entry_views(out@),
                xv == (x.major, x.minor@, x.item),
                forall|j: int| p <= j < s.len() ==> entry_lt(xv, #[trigger] s[j]),
            decreases p,
        {
            p = p - 1;
        }
        proof {
            lemma_insert_at(s, xv, p as int);
            assert(vv.take(done + 1).drop_last() =~= vv.take(done));
            assert(vv.take(done + 1).last() == xv);
        }
        out.insert(p, x);
        assert(entry_views(out@) =~= s.take(p as int) + seq![xv] + s.skip(p as int));
        proof {
            done = done + 1;
        }
    }
    assert(vv.skip(done).len() == 0);
    assert(vv.take(done) =~= vv);
    out
}

/// Whether entry `a` sorts strictly before entry `b`.
pub fn entry_lt_exec(a: &SortEntry, b: &SortEntry) -> (r: bool)
    ensures
        r == entry_lt((a.major, a.minor@, a.item), (b.major, b.minor@, b.item)),
{
    if a.major < b.major {
        return true;
    }
    if a.major > b.major {
        return false;
    }
    lex_lt_exec(a.minor.as_slice(), b.minor.as_slice())
}

/// The payload positions of a list of entry views.
pub open spec fn payloads(s: Seq<EntryView>) -> Seq<usize> {
    s.map_values(|e: EntryView| e.2)
}

/// The payload positions of sorted entries.
pub fn entry_payloads(v: &Vec<SortEntry>) -> (r: Vec<usize>)
    ensures
        r@ == payloads(entry_views(v@)),
{
    let mut r: Vec<usize> = Vec::new();
    let mut i: usize = 0;
    while i < v.len()
        invariant
            i <= v@.len(),
            r@ == payloads(entry_views(v@)).take(i as int),
        decreases v.len() - i,
    {
        r.push(v[i].item);
        i = i + 1;
        assert(r@ =~= payloads(entry_views(v@)).take(i as int));
    }
    assert(payloads(entry_views(v@)).take(v@.len() as int) =~= payloads(entry_views(v@)));
    r
}

// ---------------------------------------------------------------------------
// Order laws
// ---------------------------------------------------------------------------

/// No sequence sorts before itself.
pub proof fn lemma_lex_irreflexive(a: Seq<char>)
    ensures
        !lex_lt(a, a),
    decreases a.len(),
{
    if a.len() > 0 {
        lemma_lex_irreflexive(a.drop_first());
    }
}

/// Sorting before is transitive.
pub proof fn lemma_lex_transitive(a: Seq<char>, b: Seq<char>, c: Seq<char>)
    requires
        lex_lt(a, b),
        lex_lt(b, c),
    ensures
        lex_lt(a, c),
    decreases a.len(),
{
    if a.len() > 0 && b.len() > 0 && c.len() > 0 {
        if (a[0] as u32) == (b[0] as u32) && (b[0] as u32) == (c[0] as u32) {
            lemma_lex_transitive(a.drop_first(), b.drop_first(), c.drop_first());
        }
    }
}

/// Of two different sequences, one sorts before the other.
pub proof fn lemma_lex_total(a: Seq<char>, b: Seq<char>)
    requires
        a != b,
    ensures
        lex_lt(a, b) || lex_lt(b, a),
    decreases a.len(),
{
    if a.len() > 0 && b.len() > 0 {
        if (a[0] as u32) == (b[0] as u32) {
            assert(a[0] == b[0]) by {
                vstd::utf8::char_u32_cast(a[0], a[0] as u32);
                vstd::utf8::char_u32_cast(b[0], b[0] as u32);
            }
            if a.drop_first() == b.drop_first() {
                assert(a =~= seq![a[0]] + a.drop_first());
                assert(b =~= seq![b[0]] + b.drop_first());
            }
            lemma_lex_total(a.drop_first(), b.drop_first());
        }
    } else if a.len() == 0 && b.len() == 0 {
        assert(a =~= b);
    }
}

/// `a` sorts before `b`, or they are equal, or `b` sorts before `a`, and
/// only one of these.
pub proof fn lemma_lex_trichotomy(a: Seq<char>, b: Seq<char>)
    ensures
        lex_lt(a, b) ==> !lex_lt(b, a),
        !lex_lt(a, b) && !lex_lt(b, a) ==> a == b,
{
    lemma_lex_irreflexive(a);
    if lex_lt(a, b) && lex_lt(b, a) {
        lemma_lex_transitive(a, b, a);
    }
    if a != b {
        lemma_lex_total(a, b);
    }
}

/// No later entry sorts strictly before an earlier one.
pub open spec fn entries_sorted(s: Seq<EntryView>) -> bool {
    forall|i: int, j: int| 0 <= i < j < s.len() ==> !entry_lt(#[trigger] s[j], #[trigger] s[i])
}

/// "Not before" is transitive: if `b` is not before `a` and `c` is not before
/// `b`, then `c` is not before `a`.
pub proof fn lemma_entry_not_lt_transitive(a: EntryView, b: EntryView, c: EntryView)
    requires
        !entry_lt(b, a),
        !entry_lt(c, b),
    ensures
        !entry_lt(c, a),
{
    lemma_lex_trichotomy(a.1, b.1);
    lemma_lex_trichotomy(b.1, c.1);
    lemma_lex_trichotomy(a.1, c.1);
    if lex_lt(c.1, a.1) {
        if lex_lt(a.1, b.1) {
            lemma_lex_transitive(c.1, a.1, b.1);
        }
        if lex_lt(b.1, c.1) {
            lemma_lex_transitive(b.1, c.1, a.1);
        }
    }
}

/// An entry before another is not after it.
pub proof fn lemma_entry_lt_asymmetric(a: EntryView, b: EntryView)
    requires
        entry_lt(a, b),
    ensures
        !entry_lt(b, a),
{
    lemma_lex_trichotomy(a.1, b.1);
}

/// Inserting into a sorted sequence keeps it sorted.
pub proof fn lemma_insert_sorted_sorted(s: Seq<EntryView>, x: EntryView)
    requires
        entries_sorted(s),
    ensures
        entries_sorted(insert_sorted(s, x)),
    decreases s.len(),
{
    broadcast use vstd::seq_lib::group_to_multiset_ensures;
    if s.len() == 0 {
    } else if entry_lt(x, s.last()) {
        let d = s.drop_last();
        let t = insert_sorted(d, x);
        lemma_insert_sorted_sorted(d, x);
        lemma_insert_sorted_multiset(d, x);
        let r = t.push(s.last());
        assert forall|i: int, j: int| 0 <= i < j < r.len() implies !entry_lt(#[trigger] r[j], #[trigger] r[i]) by {
            if j == r.len() - 1 {
                let e = t[i];
                assert(t.to_multiset().count(e) > 0);
                if e == x {
                    lemma_entry_lt_asymmetric(x, s.last());
                } else {
                    assert(d.to_multiset().count(e) > 0);
                    assert(d.contains(e));
                    let k = choose|k: int| 0 <= k < d.len() && d[k] == e;
                    assert(s[k] == e);
                    assert(s[s.len() - 1] == s.last());
                }
            } else {
                assert(r[i] == t[i] && r[j] == t[j]);
            }
        }
    } else {
        let r = s.push(x);
        assert forall|i: int, j: int| 0 <= i < j < r.len() implies !entry_lt(#[trigger] r[j], #[trigger] r[i]) by {
            if j == r.len() - 1 {
                if i < s.len() - 1 {
                    assert(!entry_lt(s[s.len() - 1], s[i]));
                    lemma_entry_not_lt_transitive(s[i], s[s.len() - 1], x);
                }
            } else {
                assert(r[i] == s[i] && r[j] == s[j]);
            }
        }
    }
}

/// The stable sort is sorted.
pub proof fn lemma_stable_sort_sorted(s: Seq<EntryView>)
    ensures
        entries_sorted(stable_sort(s)),
    decreases s.len(),
{
    if s.len() > 0 {
        lemma_stable_sort_sorted(s.drop_last());
        lemma_insert_sorted_sorted(stable_sort(s.drop_last()), s.last());
    }
}

/// No later text sorts strictly before an earlier one.
pub open spec fn texts_sorted(s: Seq<Seq<char>>) -> bool {
    forall|i: int, j: int| 0 <= i < j < s.len() ==> !lex_lt(#[trigger] s[j], #[trigger] s[i])
}

/// The texts of entries.
pub open spec fn entry_texts(s: Seq<EntryView>) -> Seq<Seq<char>> {
    s.map_values(|e: EntryView| e.1)
}

/// Two sorted sequences of the same texts, each as often, are equal.
pub proof fn lemma_sorted_texts_unique(a: Seq<Seq<char>>, b: Seq<Seq<char>>)
    requires
        texts_sorted(a),
        texts_sorted(b),
        a.to_multiset() == b.to_multiset(),
    ensures
        a == b,
    decreases a.len(),
{
    broadcast use vstd::seq_lib::group_to_multiset_ensures;
    broadcast use vstd::multiset::group_multiset_axioms;
    assert(a.to_multiset().len() == a.len());
    assert(b.to_multiset().len() == b.len());
    if a.len() == 0 {
        assert(b.len() == 0);
        assert(a =~= b);
    } else {
        assert(b.len() > 0);
        assert(a.to_multiset().count(a[0]) > 0);
        assert(b.contains(a[0]));
        let k = choose|k: int| 0 <= k < b.len() && b[k] == a[0];
        if k > 0 {
            assert(!lex_lt(b[k], b[0]));
        } else {
            lemma_lex_irreflexive(a[0]);
        }
        assert(b.to_multiset().count(b[0]) > 0);
        assert(a.contains(b[0]));
        let m = choose|m: int| 0 <= m < a.len() && a[m] == b[0];
        if m > 0 {
            assert(!lex_lt(a[m], a[0]));
        } else {
            lemma_lex_irreflexive(b[0]);
        }
        lemma_lex_trichotomy(a[0], b[0]);
        assert(a[0] == b[0]);
        let a1 = a.drop_first();
        let b1 = b.drop_first();
        assert(a.remove(0) =~= a1);
        assert(b.remove(0) =~= b1);
        assert(a1.to_multiset() == a.to_multiset().remove(a[0]));
        assert(b1.to_multiset() == b.to_multiset().remove(b[0]));
        assert forall|i: int, j: int| 0 <= i < j < a1.len() implies !lex_lt(#[trigger] a1[j], #[trigger] a1[i]) by {
            assert(a1[j] == a[j + 1] && a1[i] == a[i + 1]);
        }
        assert forall|i: int, j: int| 0 <= i < j < b1.len() implies !lex_lt(#[trigger] b1[j], #[trigger] b1[i]) by {
            assert(b1[j] == b[j + 1] && b1[i] == b[i + 1]);
        }
        lemma_sorted_texts_unique(a1, b1);
        assert forall|i: int| 0 <= i < a.len() implies a[i] == b[i] by {
            if i > 0 {
                assert(a[i] == a1[i - 1] && b[i] == b1[i - 1]);
            }
        }
        assert(a =~= b);
    }
}

/// Sequences holding the same entries hold the same texts.
pub proof fn lemma_entry_texts_multiset(a: Seq<EntryView>, b: Seq<EntryView>)
    requires
        a.to_multiset() == b.to_multiset(),
    ensures
        entry_texts(a).to_multiset() == entry_texts(b).to_multiset(),
    decreases a.len(),
{
    broadcast use vstd::seq_lib::group_to_multiset_ensures;
    broadcast use vstd::multiset::group_multiset_axioms;
    assert(a.to_multiset().len() == a.len());
    assert(b.to_multiset().len() == b.len());
    if a.len() == 0 {
        assert(b.len() == 0);
        assert(entry_texts(a) =~= entry_texts(b));
    } else {
        let x = a.last();
        assert(a.to_multiset().count(x) > 0);
        assert(b.contains(x));
        let k = choose|k: int| 0 <= k < b.len() && b[k] == x;
        let a1 = a.drop_last();
        let b1 = b.remove(k);
        assert(a1.push(x) =~= a);
        assert(a1.to_multiset() =~= a.to_multiset().remove(x));
        assert(b1.to_multiset() == b.to_multiset().remove(b[k]));
        lemma_entry_texts_multiset(a1, b1);
        assert(entry_texts(a) =~= entry_texts(a1).push(x.1));
        assert(entry_texts(b1) =~= entry_texts(b).remove(k));
        assert(entry_texts(b)[k] == x.1);
        assert(entry_texts(b1).to_multiset() == entry_texts(b).to_multiset().remove(x.1));
        assert(entry_texts(b).to_multiset().count(x.1) > 0);
        assert(entry_texts(b).to_multiset() =~= entry_texts(b1).to_multiset().insert(x.1));
    }
}

/// With equal numeric keys, sorted entries have sorted texts.
pub proof fn lemma_sorted_entry_texts(s: Seq<EntryView>)
    requires
        entries_sorted(s),
        forall|i: int, j: int| 0 <= i < s.len() && 0 <= j < s.len() ==> (#[trigger] s[i]).0 == (#[trigger] s[j]).0,
    ensures
        texts_sorted(entry_texts(s)),
{
    assert forall|i: int, j: int| 0 <= i < j < entry_texts(s).len() implies !lex_lt(
        #[trigger] entry_texts(s)[j],
        #[trigger] entry_texts(s)[i],
    ) by {
        assert(!entry_lt(s[j], s[i]));
        assert(s[i].0 == s[j].0);
    }
}

} // verus!
