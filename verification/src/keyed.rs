//! A small string-keyed multimap from keys to item positions.
//!
//! Keys keep the order in which they were first inserted; each key maps to
//! the positions pushed for it, in push order.
use vstd::prelude::*;
use crate::text::{chars_eq, chars_of};

verus! {

/// An association list: each entry is a key and the positions stored under it.
pub type Entries = Seq<(Seq<char>, Seq<usize>)>;

/// The positions stored under `k` in an association list (first match).
pub open spec fn assoc_get(e: Entries, k: Seq<char>) -> Option<Seq<usize>>
    decreases e.len(),
{
    if e.len() == 0 {
        None
    } else if e[0].0 == k {
        Some(e[0].1)
    } else {
        assoc_get(e.drop_first(), k)
    }
}

/// The association list after pushing position `n` under key `k`: an existing
/// entry for `k` grows by `n`, otherwise a new entry `(k, [n])` is appended.
pub open spec fn assoc_push(e: Entries, k: Seq<char>, n: usize) -> Entries
    decreases e.len(),
{
    if e.len() == 0 {
        seq![(k, seq![n])]
    } else if e[0].0 == k {
        e.update(0, (k, e[0].1.push(n)))
    } else {
        seq![e[0]] + assoc_push(e.drop_first(), k, n)
    }
}

/// Pushes `n` under each key of `keys`, in order.
pub open spec fn assoc_push_all(e: Entries, keys: Seq<Seq<char>>, n: usize) -> Entries
    decreases keys.len(),
{
    if keys.len() == 0 {
        e
    } else {
        assoc_push_all(assoc_push(e, keys[0], n), keys.drop_first(), n)
    }
}

/// A multimap from string keys to positions, kept as an association list.
#[derive(Debug)]
pub struct KeyedIndices {
    ents: Vec<(Vec<char>, Vec<usize>)>,
}

impl KeyedIndices {
    /// The entries, in first-insertion order of their keys.
    pub closed spec fn entries(&self) -> Entries {
        Seq::new(self.ents@.len(), |i: int| (self.ents@[i].0@, self.ents@[i].1@))
    }

    /// The positions stored under `k`, if the key is present.
    pub open spec fn spec_get(&self, k: Seq<char>) -> Option<Seq<usize>> {
        assoc_get(self.entries(), k)
    }

    /// The positions stored under `k`, or nothing.
    pub open spec fn get_or_empty(&self, k: Seq<char>) -> Seq<usize> {
        match self.spec_get(k) {
            Some(v) => v,
            None => Seq::empty(),
        }
    }

    /// An empty multimap.
    pub fn new() -> (r: Self)
        ensures
            r.entries() == Seq::<(Seq<char>, Seq<usize>)>::empty(),
    {
        let r = KeyedIndices { ents: Vec::new() };
        assert(r.entries() =~= Seq::<(Seq<char>, Seq<usize>)>::empty());
        r
    }

    /// Number of distinct keys.
    pub fn len(&self) -> (r: usize)
        ensures
            r == self.entries().len(),
    {
        self.ents.len()
    }

    /// Position of the entry for `k` in the key list.
    fn find_key(&self, k: &[char]) -> (r: Option<usize>)
        ensures
            r matches Some(i) ==> i < self.entries().len() && self.entries()[i as int].0 == k@
                && assoc_get(self.entries(), k@) == Some(self.entries()[i as int].1) && forall|
                j: int,
            |
                0 <= j < i ==> self.entries()[j].0 != k@,
            r is None ==> assoc_get(self.entries(), k@) is None,
    {
        let ghost e = self.entries();
        let mut i: usize = 0;
        while i < self.ents.len()
            invariant
                i <= self.ents@.len(),
                e == self.entries(),
                forall|j: int| 0 <= j < i ==> e[j].0 != k@,
            decreases self.ents.len() - i,
        {
            if chars_eq(self.ents[i].0.as_slice(), k) {
                proof {
                    lemma_assoc_get_at(e, k@, i as int);
                }
                return Some(i);
            }
            i = i + 1;
        }
        proof {
            lemma_assoc_get_none(e, k@);
        }
        None
    }

    /// Whether every stored position is below `n`.
    pub fn all_below(&self, n: usize) -> (r: bool)
        ensures
            r == entries_below(self.entries(), n as int),
    {
        let ghost e = self.entries();
        let mut i: usize = 0;
        while i < self.ents.len()
            invariant
                i <= self.ents@.len(),
                e == self.entries(),
                forall|a: int, b: int| 0 <= a < i && 0 <= b < e[a].1.len() ==> #[trigger] e[a].1[b] < n,
            decreases self.ents.len() - i,
        {
            let v = &self.ents[i].1;
            assert(e[i as int].1 == v@);
            let mut j: usize = 0;
            while j < v.len()
                invariant
                    j <= v@.len(),
                    e == self.entries(),
                    i < self.ents@.len(),
                    e[i as int].1 == v@,
                    forall|a: int, b: int| 0 <= a < i && 0 <= b < e[a].1.len() ==> #[trigger] e[a].1[b] < n,
                    forall|b: int| 0 <= b < j ==> #[trigger] v@[b] < n,
                decreases v.len() - j,
            {
                if v[j] >= n {
                    assert(e[i as int].1[j as int] >= n);
                    return false;
                }
                j = j + 1;
            }
            i = i + 1;
        }
        true
    }

    /// The positions stored under `k` (given as characters).
    pub fn get_chars(&self, k: &[char]) -> (r: Option<&Vec<usize>>)
        ensures
            r matches Some(v) ==> self.spec_get(k@) == Some(v@),
            r is None ==> self.spec_get(k@) is None,
    {
        match self.find_key(k) {
            Some(i) => Some(&self.ents[i].1),
            None => None,
        }
    }

    /// The positions stored under `k`.
    pub fn get(&self, k: &str) -> (r: Option<&Vec<usize>>)
        ensures
            r matches Some(v) ==> self.spec_get(k@) == Some(v@),
            r is None ==> self.spec_get(k@) is None,
    {
        let kc = chars_of(k);
        self.get_chars(kc.as_slice())
    }

    /// Whether `k` is a key.
    pub fn contains_key(&self, k: &str) -> (r: bool)
        ensures
            r == self.spec_get(k@) is Some,
    {
        self.get(k).is_some()
    }

    /// Pushes position `n` under key `k`.
    pub fn push_index(&mut self, k: Vec<char>, n: usize)
        ensures
            final(self).entries() == assoc_push(old(self).entries(), k@, n),
    {
        let ghost e = self.entries();
        match self.find_key(k.as_slice()) {
            Some(i) => {
                let (key, mut val) = self.ents.remove(i);
                val.push(n);
                self.ents.insert(i, (key, val));
                proof {
                    lemma_assoc_push_at(e, k@, n, i as int);
                }
                assert(self.entries() =~= e.update(i as int, (k@, e[i as int].1.push(n))));
            },
            None => {
                let mut v: Vec<usize> = Vec::new();
                v.push(n);
                self.ents.push((k, v));
                proof {
                    lemma_assoc_push_new(e, k@, n);
                }
                assert(self.entries() =~= e.push((k@, seq![n])));
            },
        }
    }
}

/// Every position stored in an association list is below `b`.
pub open spec fn entries_below(e: Entries, b: int) -> bool {
    forall|i: int, j: int| 0 <= i < e.len() && 0 <= j < e[i].1.len() ==> #[trigger] e[i].1[j] < b
}

/// What `assoc_get` finds in a list whose positions are below `b` is below `b`.
pub proof fn lemma_get_below(e: Entries, k: Seq<char>, b: int)
    requires
        entries_below(e, b),
    ensures
        assoc_get(e, k) matches Some(v) ==> forall|j: int| 0 <= j < v.len() ==> #[trigger] v[j] < b,
    decreases e.len(),
{
    if e.len() > 0 {
        if e[0].0 == k {
            assert forall|j: int| 0 <= j < e[0].1.len() implies #[trigger] e[0].1[j] < b by {
                assert(e[0].1[j] < b);
            }
        } else {
            let t = e.drop_first();
            assert forall|i: int, j: int| 0 <= i < t.len() && 0 <= j < t[i].1.len() implies #[trigger] t[i].1[j] < b by {
                assert(t[i] == e[i + 1]);
                assert(e[i + 1].1[j] < b);
            }
            lemma_get_below(t, k, b);
        }
    }
}

/// Pushing a position below `b` keeps every position below `b`.
pub proof fn lemma_push_below(e: Entries, k: Seq<char>, n: usize, b: int)
    requires
        entries_below(e, b),
        n < b,
    ensures
        entries_below(assoc_push(e, k, n), b),
    decreases e.len(),
{
    let r = assoc_push(e, k, n);
    if e.len() == 0 {
        assert forall|i: int, j: int| 0 <= i < r.len() && 0 <= j < r[i].1.len() implies #[trigger] r[i].1[j] < b by {
            assert(r[i].1 == seq![n]);
        }
    } else if e[0].0 == k {
        assert forall|i: int, j: int| 0 <= i < r.len() && 0 <= j < r[i].1.len() implies #[trigger] r[i].1[j] < b by {
            if i == 0 {
                if j < e[0].1.len() {
                    assert(e[0].1[j] < b);
                }
            } else {
                assert(e[i].1[j] < b);
            }
        }
    } else {
        let t = e.drop_first();
        assert forall|i: int, j: int| 0 <= i < t.len() && 0 <= j < t[i].1.len() implies #[trigger] t[i].1[j] < b by {
            assert(t[i] == e[i + 1]);
            assert(e[i + 1].1[j] < b);
        }
        lemma_push_below(t, k, n, b);
        let rt = assoc_push(t, k, n);
        assert forall|i: int, j: int| 0 <= i < r.len() && 0 <= j < r[i].1.len() implies #[trigger] r[i].1[j] < b by {
            if i == 0 {
                assert(e[0].1[j] < b);
            } else {
                assert(r[i] == rt[i - 1]);
                assert(rt[i - 1].1[j] < b);
            }
        }
    }
}

/// Pushing a position below `b` under several keys keeps every position below `b`.
pub proof fn lemma_push_all_below(e: Entries, keys: Seq<Seq<char>>, n: usize, b: int)
    requires
        entries_below(e, b),
        n < b,
    ensures
        entries_below(assoc_push_all(e, keys, n), b),
    decreases keys.len(),
{
    if keys.len() > 0 {
        lemma_push_below(e, keys[0], n, b);
        lemma_push_all_below(assoc_push(e, keys[0], n), keys.drop_first(), n, b);
    }
}

/// Every position is below a larger bound too.
pub proof fn lemma_below_mono(e: Entries, b: int, c: int)
    requires
        entries_below(e, b),
        b <= c,
    ensures
        entries_below(e, c),
{
    assert forall|i: int, j: int| 0 <= i < e.len() && 0 <= j < e[i].1.len() implies #[trigger] e[i].1[j] < c by {
        assert(e[i].1[j] < b);
    }
}

/// An entry at `i` whose key is `k`, with no earlier match, is what `assoc_get` finds.
pub proof fn lemma_assoc_get_at(e: Entries, k: Seq<char>, i: int)
    requires
        0 <= i < e.len(),
        e[i].0 == k,
        forall|j: int| 0 <= j < i ==> e[j].0 != k,
    ensures
        assoc_get(e, k) == Some(e[i].1),
    decreases i,
{
    if i > 0 {
        assert forall|j: int| 0 <= j < i - 1 implies e.drop_first()[j].0 != k by {
            assert(e.drop_first()[j] == e[j + 1]);
        }
        lemma_assoc_get_at(e.drop_first(), k, i - 1);
    }
}

/// When no entry has key `k`, `assoc_get` finds nothing.
pub proof fn lemma_assoc_get_none(e: Entries, k: Seq<char>)
    requires
        forall|j: int| 0 <= j < e.len() ==> e[j].0 != k,
    ensures
        assoc_get(e, k) is None,
    decreases e.len(),
{
    if e.len() > 0 {
        assert forall|j: int| 0 <= j < e.len() - 1 implies e.drop_first()[j].0 != k by {
            assert(e.drop_first()[j] == e[j + 1]);
        }
        lemma_assoc_get_none(e.drop_first(), k);
    }
}

/// Pushing under a key first found at `i` grows that entry in place.
pub proof fn lemma_assoc_push_at(e: Entries, k: Seq<char>, n: usize, i: int)
    requires
        0 <= i < e.len(),
        e[i].0 == k,
        forall|j: int| 0 <= j < i ==> e[j].0 != k,
    ensures
        assoc_push(e, k, n) == e.update(i, (k, e[i].1.push(n))),
    decreases i,
{
    if i > 0 {
        let t = e.drop_first();
        assert forall|j: int| 0 <= j < i - 1 implies t[j].0 != k by {
            assert(t[j] == e[j + 1]);
        }
        lemma_assoc_push_at(t, k, n, i - 1);
        assert(seq![e[0]] + t.update(i - 1, (k, t[i - 1].1.push(n))) =~= e.update(
            i,
            (k, e[i].1.push(n)),
        ));
    }
}

/// Pushing under a new key appends an entry.
pub proof fn lemma_assoc_push_new(e: Entries, k: Seq<char>, n: usize)
    requires
        assoc_get(e, k) is None,
    ensures
        assoc_push(e, k, n) == e.push((k, seq![n])),
    decreases e.len(),
{
    if e.len() > 0 {
        lemma_assoc_push_new(e.drop_first(), k, n);
        assert(seq![e[0]] + e.drop_first().push((k, seq![n])) =~= e.push((k, seq![n])));
    }
}

/// What a push does to lookups: only the pushed key changes.
pub proof fn lemma_assoc_push_get(e: Entries, k: Seq<char>, n: usize, q: Seq<char>)
    ensures
        assoc_get(assoc_push(e, k, n), q) == if q == k {
            Some(
                match assoc_get(e, k) {
                    Some(v) => v.push(n),
                    None => seq![n],
                },
            )
        } else {
            assoc_get(e, q)
        },
    decreases e.len(),
{
    let p = assoc_push(e, k, n);
    if e.len() == 0 {
        assert(p[0] == (k, seq![n]));
        assert(p.drop_first().len() == 0);
        assert(assoc_get(p.drop_first(), q) is None);
    } else {
        lemma_assoc_push_get(e.drop_first(), k, n, q);
        if e[0].0 == k {
            assert(p[0] == (k, e[0].1.push(n)));
            assert(p.drop_first() =~= e.drop_first());
            assert(assoc_get(e, k) == Some(e[0].1));
        } else {
            assert(p[0] == e[0]);
            assert(p.drop_first() =~= assoc_push(e.drop_first(), k, n));
            assert(assoc_get(e, k) == assoc_get(e.drop_first(), k));
            if q == e[0].0 {
                assert(assoc_get(p, q) == Some(e[0].1));
            } else {
                assert(assoc_get(p, q) == assoc_get(p.drop_first(), q));
                assert(assoc_get(e, q) == assoc_get(e.drop_first(), q));
            }
        }
    }
}

} // verus!
