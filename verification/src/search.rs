//! Full-text search over a [`DocIndex`].
//!
//! A query is split on `|` into OR groups and each group on whitespace into
//! AND terms. Each term is scored on five tiers: exact name (100), name
//! substring (75), signature (40), module path (30), docs (20). A group
//! scores the sum of its terms, or 0 when one term misses; an item scores
//! its best group. Results are sorted by score (descending) then path,
//! capped at 20, and deduplicated by path.
use vstd::prelude::*;
use crate::error::GroxError;
use crate::query::{dedup_minor, first_per_minor};
use crate::sort::{entry_views, sort_entries, stable_sort, EntryView, SortEntry};
use crate::render::brief::kind_word;
use crate::render::truncate::byte_len;
use crate::text::{
    append, append_padded, append_str, decimal, decimal_exec, pad_right,
    char_prefix_len, char_prefix_len_exec, chars_eq, chars_of, contains, contains_exec, lower,
    lower_chars, path_sep, path_sep_exec, rfind, rfind_exec, slice_to_vec, split, split_exec,
    string_of, words, words_exec,
};
use crate::types::{spec_matches_filter, DocIndex, IndexItem, ItemKind, SearchResult};

verus! {

/// Bytes of documentation that search looks at.
pub const SEARCH_DOC_BYTES: usize = 500;

/// Most results a search returns.
pub const MAX_RESULTS: usize = 20;

// ---------------------------------------------------------------------------
// Query parsing
// ---------------------------------------------------------------------------

/// The words of each `|`-separated part, keeping only parts with words.
pub open spec fn nonempty_groups(parts: Seq<Seq<char>>) -> Seq<Seq<Seq<char>>>
    decreases parts.len(),
{
    if parts.len() == 0 {
        seq![]
    } else {
        let prev = nonempty_groups(parts.drop_last());
        let w = words(parts.last());
        if w.len() > 0 {
            prev.push(w)
        } else {
            prev
        }
    }
}

/// The OR groups of AND terms of a search query (lowercased).
pub open spec fn search_groups(q: Seq<char>) -> Seq<Seq<Seq<char>>> {
    nonempty_groups(split(lower(q), seq!['|']))
}

/// The views of parsed groups.
pub open spec fn group_views(g: Seq<Vec<String>>) -> Seq<Seq<Seq<char>>> {
    g.map_values(|v: Vec<String>| crate::cli::string_views(v@))
}

fn strings_of(v: &Vec<Vec<char>>) -> (r: Vec<String>)
    ensures
        crate::cli::string_views(r@) == v@.map_values(|x: Vec<char>| x@),
{
    let mut r: Vec<String> = Vec::new();
    let mut i: usize = 0;
    while i < v.len()
        invariant
            i <= v@.len(),
            crate::cli::string_views(r@) == v@.map_values(|x: Vec<char>| x@).take(i as int),
        decreases v.len() - i,
    {
        let ghost old_r = crate::cli::string_views(r@);
        r.push(string_of(v[i].as_slice()));
        assert(crate::cli::string_views(r@) =~= old_r.push(v@[i as int]@));
        assert(v@.map_values(|x: Vec<char>| x@).take(i + 1) =~= v@.map_values(|x: Vec<char>| x@).take(
            i as int,
        ).push(v@[i as int]@));
        i = i + 1;
    }
    assert(v@.map_values(|x: Vec<char>| x@).take(v@.len() as int) =~= v@.map_values(
        |x: Vec<char>| x@,
    ));
    r
}

/// Parses a search query into OR groups of AND terms.
///
/// `|` splits OR groups and whitespace splits AND terms; empty terms and
/// groups are dropped. A query with no terms is an `InvalidQuery` error.
pub fn parse_query(query: &str) -> (r: Result<Vec<Vec<String>>, GroxError>)
    ensures
        match r {
            Ok(g) => group_views(g@) == search_groups(query@) && g@.len() > 0,
            Err(e) => search_groups(query@).len() == 0 && (e matches GroxError::InvalidQuery {
                message,
            } && message@ == "search query cannot be empty"@),
        },
{
    let q = chars_of(query);
    let ql = lower_chars(q.as_slice());
    let bar: Vec<char> = vec!['|'];
    let parts = split_exec(ql.as_slice(), bar.as_slice());
    let ghost pv = parts@.map_values(|v: Vec<char>| v@);
    assert(bar@ =~= seq!['|']);
    let mut result: Vec<Vec<String>> = Vec::new();
    let mut i: usize = 0;
    assert(pv.take(0) =~= Seq::<Seq<char>>::empty());
    while i < parts.len()
        invariant
            i <= parts@.len(),
            pv == parts@.map_values(|v: Vec<char>| v@),
            group_views(result@) == nonempty_groups(pv.take(i as int)),
        decreases parts.len() - i,
    {
        assert(pv.take(i + 1).drop_last() =~= pv.take(i as int));
        assert(pv.take(i + 1).last() == parts@[i as int]@);
        let terms = words_exec(parts[i].as_slice());
        if terms.len() > 0 {
            let ghost old_g = group_views(result@);
            let ts = strings_of(&terms);
            result.push(ts);
            assert(group_views(result@) =~= old_g.push(words(parts@[i as int]@)));
        }
        i = i + 1;
    }
    assert(pv.take(parts@.len() as int) =~= pv);
    if result.len() == 0 {
        return Err(GroxError::InvalidQuery { message: "search query cannot be empty".to_string() });
    }
    Ok(result)
}

// ---------------------------------------------------------------------------
// Scoring
// ---------------------------------------------------------------------------

/// Pre-lowercased search fields of one item.
pub struct SearchEntry {
    /// Lowercased name.
    pub name: String,
    /// Lowercased path.
    pub path: String,
    /// Lowercased signature.
    pub signature: String,
    /// Lowercased docs, cut to their first 500 bytes (at a character boundary).
    pub docs: String,
}

/// The docs that search reads: at most the first 500 bytes, cut at a
/// character boundary.
pub open spec fn search_docs(docs: Seq<char>) -> Seq<char> {
    docs.take(char_prefix_len(docs, SEARCH_DOC_BYTES as int) as int)
}

impl SearchEntry {
    /// Creates a search entry from an item, lowercasing every field.
    pub fn from_item(item: &IndexItem) -> (r: SearchEntry)
        ensures
            r.name@ == lower(item.name@),
            r.path@ == lower(item.path@),
            r.signature@ == lower(item.signature@),
            r.docs@ == lower(search_docs(item.docs@)),
    {
        let d = chars_of(item.docs.as_str());
        let n = char_prefix_len_exec(d.as_slice(), SEARCH_DOC_BYTES);
        let dt = slice_to_vec(d.as_slice(), 0, n);
        assert(dt@ =~= search_docs(item.docs@));
        SearchEntry {
            name: crate::text::to_lower(item.name.as_str()),
            path: crate::text::to_lower(item.path.as_str()),
            signature: crate::text::to_lower(item.signature.as_str()),
            docs: string_of(lower_chars(dt.as_slice()).as_slice()),
        }
    }
}

/// The module part of a path: everything before its last `::`.
pub open spec fn module_prefix(p: Seq<char>) -> Option<Seq<char>> {
    match rfind(p, path_sep()) {
        Some(i) => Some(p.take(i)),
        None => None,
    }
}

/// The five-tier score of one term: exact name 100, else name substring 75;
/// without a name match, a module-path match 30; a signature match raises
/// the score to at least 40; a docs match raises it to at least 20.
pub open spec fn spec_score_term(name: Seq<char>, path: Seq<char>, sig: Seq<char>, docs: Seq<char>, t: Seq<char>) -> u32 {
    let s1: u32 = if name == t {
        100
    } else if contains(name, t) {
        75
    } else {
        0
    };
    let s2: u32 = if s1 == 0 && (match module_prefix(path) {
        Some(m) => contains(m, t),
        None => false,
    }) {
        30
    } else {
        s1
    };
    let s3: u32 = if contains(sig, t) && s2 < 40 {
        40
    } else {
        s2
    };
    if contains(docs, t) && s3 < 20 {
        20
    } else {
        s3
    }
}

/// The lowercased fields (name, path, signature, docs) that scoring reads.
pub type Fields = (Seq<char>, Seq<char>, Seq<char>, Seq<char>);

/// The fields of an entry.
pub open spec fn entry_fields(e: &SearchEntry) -> Fields {
    (e.name@, e.path@, e.signature@, e.docs@)
}

/// [`spec_score_term`] on fields.
pub open spec fn entry_score(e: Fields, t: Seq<char>) -> u32 {
    spec_score_term(e.0, e.1, e.2, e.3, t)
}

/// Scores a single term against a search entry.
pub fn score_term(entry: &SearchEntry, term: &str) -> (r: u32)
    ensures
        r == entry_score(entry_fields(entry), term@),
{
    let t = chars_of(term);
    let name = chars_of(entry.name.as_str());
    let mut score: u32 = 0;
    if chars_eq(name.as_slice(), t.as_slice()) {
        score = 100;
    } else if contains_exec(name.as_slice(), t.as_slice()) {
        score = 75;
    }
    if score == 0 {
        let path = chars_of(entry.path.as_str());
        let sep = path_sep_exec();
        match rfind_exec(path.as_slice(), sep.as_slice()) {
            Some(i) => {
                let m = slice_to_vec(path.as_slice(), 0, i);
                assert(m@ =~= path@.take(i as int));
                if contains_exec(m.as_slice(), t.as_slice()) {
                    score = 30;
                }
            },
            None => {},
        }
    }
    let sig = chars_of(entry.signature.as_str());
    if contains_exec(sig.as_slice(), t.as_slice()) && score < 40 {
        score = 40;
    }
    let docs = chars_of(entry.docs.as_str());
    if contains_exec(docs.as_slice(), t.as_slice()) && score < 20 {
        score = 20;
    }
    score
}

/// The wrapping sum of the term scores.
pub open spec fn and_total(e: Fields, terms: Seq<Seq<char>>) -> u32
    decreases terms.len(),
{
    if terms.len() == 0 {
        0
    } else {
        vstd::wrapping::u32_specs::wrapping_add(and_total(e, terms.drop_last()), entry_score(e, terms.last()))
    }
}

/// An AND group's score: 0 when some term scores 0, else the sum of the
/// term scores (in `u32` arithmetic).
pub open spec fn spec_and_score(e: Fields, terms: Seq<Seq<char>>) -> u32 {
    if exists|i: int| 0 <= i < terms.len() && entry_score(e, #[trigger] terms[i]) == 0 {
        0
    } else {
        and_total(e, terms)
    }
}

/// A single term scores at most 100.
proof fn lemma_term_score_bound(e: Fields, t: Seq<char>)
    ensures
        entry_score(e, t) <= 100,
{
}

/// `u32` wrapping addition is associative.
proof fn lemma_wrapping_assoc(x: u32, y: u32, z: u32)
    ensures
        vstd::wrapping::u32_specs::wrapping_add(vstd::wrapping::u32_specs::wrapping_add(x, y), z)
            == vstd::wrapping::u32_specs::wrapping_add(x, vstd::wrapping::u32_specs::wrapping_add(y, z)),
{
}

/// The wrapping total of a split group is the wrapping sum of the parts.
proof fn lemma_and_total_concat(e: Fields, a: Seq<Seq<char>>, b: Seq<Seq<char>>)
    ensures
        and_total(e, a + b) == vstd::wrapping::u32_specs::wrapping_add(and_total(e, a), and_total(e, b)),
    decreases b.len(),
{
    if b.len() == 0 {
        assert(a + b =~= a);
    } else {
        lemma_and_total_concat(e, a, b.drop_last());
        assert((a + b).drop_last() =~= a + b.drop_last());
        assert((a + b).last() == b.last());
        lemma_wrapping_assoc(and_total(e, a), and_total(e, b.drop_last()), entry_score(e, b.last()));
    }
}

/// Without wrap-around, the total of a group of matching terms exceeds
/// each term's score by at least one per other term.
proof fn lemma_and_total_exceeds(e: Fields, terms: Seq<Seq<char>>, i: int)
    requires
        0 <= i < terms.len(),
        terms.len() * 100 <= u32::MAX,
        forall|j: int| 0 <= j < terms.len() ==> entry_score(e, #[trigger] terms[j]) > 0,
    ensures
        and_total(e, terms) >= entry_score(e, terms[i]) + terms.len() - 1,
        and_total(e, terms) <= terms.len() * 100,
    decreases terms.len(),
{
    let n = terms.len();
    let last = terms.last();
    let pre = terms.drop_last();
    lemma_term_score_bound(e, last);
    assert(entry_score(e, terms[n - 1]) > 0);
    if n == 1 {
        assert(pre.len() == 0);
        assert(terms[i] == last);
    } else {
        assert forall|j: int| 0 <= j < pre.len() implies entry_score(e, #[trigger] pre[j]) > 0 by {
            assert(pre[j] == terms[j]);
        }
        if i < n - 1 {
            lemma_and_total_exceeds(e, pre, i);
            assert(pre[i] == terms[i]);
        } else {
            lemma_and_total_exceeds(e, pre, 0);
            assert(terms[i] == last);
        }
        assert(and_total(e, pre) + entry_score(e, last) <= n * 100) by (nonlinear_arith)
            requires
                and_total(e, pre) <= (n - 1) * 100,
                entry_score(e, last) <= 100,
        ;
    }
}

/// How the terms of an AND group combine: a group of one term scores that
/// term; when every term matches, a group split in two scores the (`u32`
/// wrapping) sum of the two parts, so the group score is the sum of the
/// term scores; and, short of wrap-around, a group of two or more matching
/// terms scores more than any one of them.
pub proof fn lemma_and_score_sums(e: Fields, a: Seq<Seq<char>>, b: Seq<Seq<char>>, t: Seq<char>)
    ensures
        spec_and_score(e, seq![t]) == entry_score(e, t),
        (forall|j: int| 0 <= j < (a + b).len() ==> entry_score(e, #[trigger] (a + b)[j]) > 0) ==> spec_and_score(
            e,
            a + b,
        ) == vstd::wrapping::u32_specs::wrapping_add(spec_and_score(e, a), spec_and_score(e, b)),
        ((forall|j: int| 0 <= j < a.len() ==> entry_score(e, #[trigger] a[j]) > 0) && a.len() >= 2
            && a.len() * 100 <= u32::MAX) ==> forall|i: int|
            0 <= i < a.len() ==> spec_and_score(e, a) > entry_score(e, #[trigger] a[i]),
{
    assert(seq![t].drop_last() =~= Seq::<Seq<char>>::empty());
    assert(and_total(e, seq![t].drop_last()) == 0);
    assert(seq![t].last() == t);
    assert(and_total(e, seq![t]) == entry_score(e, t));
    if entry_score(e, t) == 0 {
        assert(entry_score(e, seq![t][0]) == 0);
    }
    lemma_and_total_concat(e, a, b);
    if forall|j: int| 0 <= j < (a + b).len() ==> entry_score(e, #[trigger] (a + b)[j]) > 0 {
        assert forall|j: int| 0 <= j < a.len() implies entry_score(e, #[trigger] a[j]) > 0 by {
            assert((a + b)[j] == a[j]);
        }
        assert forall|j: int| 0 <= j < b.len() implies entry_score(e, #[trigger] b[j]) > 0 by {
            assert((a + b)[a.len() + j] == b[j]);
        }
    }
    if (forall|j: int| 0 <= j < a.len() ==> entry_score(e, #[trigger] a[j]) > 0) && a.len() >= 2
        && a.len() * 100 <= u32::MAX {
        assert forall|i: int| 0 <= i < a.len() implies spec_and_score(e, a) > entry_score(e, #[trigger] a[i]) by {
            lemma_and_total_exceeds(e, a, i);
        }
    }
}

/// Scores an AND group of terms against a search entry.
pub fn score_and_terms(entry: &SearchEntry, terms: &[String]) -> (r: u32)
    ensures
        r == spec_and_score(entry_fields(entry), crate::cli::string_views(terms@)),
{
    let ghost tv = crate::cli::string_views(terms@);
    let mut total: u32 = 0;
    let mut i: usize = 0;
    assert(tv.take(0) =~= Seq::<Seq<char>>::empty());
    while i < terms.len()
        invariant
            i <= terms@.len(),
            tv == crate::cli::string_views(terms@),
            total == and_total(entry_fields(entry), tv.take(i as int)),
            forall|j: int| 0 <= j < i ==> entry_score(entry_fields(entry), #[trigger] tv[j]) != 0,
        decreases terms.len() - i,
    {
        let s = score_term(entry, terms[i].as_str());
        assert(tv[i as int] == terms@[i as int]@);
        if s == 0 {
            return 0;
        }
        assert(tv.take(i + 1).drop_last() =~= tv.take(i as int));
        total = total.wrapping_add(s);
        i = i + 1;
    }
    assert(tv.take(terms@.len() as int) =~= tv);
    total
}

/// The best group score.
pub open spec fn spec_entry_score(e: Fields, groups: Seq<Seq<Seq<char>>>) -> u32
    decreases groups.len(),
{
    if groups.len() == 0 {
        0
    } else {
        let prev = spec_entry_score(e, groups.drop_last());
        let s = spec_and_score(e, groups.last());
        if s > prev {
            s
        } else {
            prev
        }
    }
}

/// Scores an entry against all OR groups, returning the maximum score.
pub fn score_entry(entry: &SearchEntry, or_groups: &[Vec<String>]) -> (r: u32)
    ensures
        r == spec_entry_score(entry_fields(entry), group_views(or_groups@)),
{
    let ghost gv = group_views(or_groups@);
    let mut best: u32 = 0;
    let mut i: usize = 0;
    assert(gv.take(0) =~= Seq::<Seq<Seq<char>>>::empty());
    while i < or_groups.len()
        invariant
            i <= or_groups@.len(),
            gv == group_views(or_groups@),
            best == spec_entry_score(entry_fields(entry), gv.take(i as int)),
        decreases or_groups.len() - i,
    {
        assert(gv.take(i + 1).drop_last() =~= gv.take(i as int));
        assert(gv[i as int] == crate::cli::string_views(or_groups@[i as int]@));
        let s = score_and_terms(entry, or_groups[i].as_slice());
        if s > best {
            best = s;
        }
        i = i + 1;
    }
    assert(gv.take(or_groups@.len() as int) =~= gv);
    best
}

// ---------------------------------------------------------------------------
// Searching
// ---------------------------------------------------------------------------

/// The score of item `it` against the groups.
pub open spec fn item_score(it: IndexItem, groups: Seq<Seq<Seq<char>>>) -> u32 {
    spec_entry_score(
        (lower(it.name@), lower(it.path@), lower(it.signature@), lower(search_docs(it.docs@))),
        groups,
    )
}

/// The sort key of a score: higher scores sort first.
pub open spec fn score_key(s: u32) -> u64 {
    (u32::MAX - s) as u64
}

/// The scored items among the first `k`, in item order, as sort entries
/// `(score key, path, position)`.
pub open spec fn scored_entries(items: Seq<IndexItem>, groups: Seq<Seq<Seq<char>>>, kf: Option<ItemKind>, k: int) -> Seq<EntryView>
    decreases k,
{
    if k <= 0 {
        seq![]
    } else {
        let prev = scored_entries(items, groups, kf, k - 1);
        let it = items[k - 1];
        let ok = match kf {
            None => true,
            Some(f) => spec_matches_filter(it.kind, f),
        };
        let s = item_score(it, groups);
        if ok && s > 0 {
            prev.push((score_key(s), it.path@, (k - 1) as usize))
        } else {
            prev
        }
    }
}

/// The results for given groups: sorted by score (descending) then path,
/// the first 20 kept, then one per path; each as (position, score).
pub open spec fn search_results(items: Seq<IndexItem>, groups: Seq<Seq<Seq<char>>>, kf: Option<ItemKind>) -> Seq<(usize, u32)> {
    let sorted = stable_sort(scored_entries(items, groups, kf, items.len() as int));
    let capped = sorted.take(if sorted.len() < MAX_RESULTS { sorted.len() as int } else { MAX_RESULTS as int });
    dedup_minor(capped).map_values(|e: EntryView| (e.2, (u32::MAX - e.0) as u32))
}

/// The views of search results.
pub open spec fn result_views(r: Seq<SearchResult>) -> Seq<(usize, u32)> {
    r.map_values(|x: SearchResult| (x.index, x.score))
}

fn cap_entries(v: Vec<SortEntry>, n: usize) -> (r: Vec<SortEntry>)
    ensures
        entry_views(r@) == entry_views(v@).take(if v@.len() < n { v@.len() as int } else { n as int }),
{
    let mut v = v;
    let ghost ev = entry_views(v@);
    let mut r: Vec<SortEntry> = Vec::new();
    let lim = if v.len() < n { v.len() } else { n };
    let mut i: usize = 0;
    while i < lim
        invariant
            i <= lim <= v@.len(),
            ev == entry_views(v@),
            entry_views(r@) == ev.take(i as int),
        decreases lim - i,
    {
        let ghost old_r = entry_views(r@);
        let e = SortEntry { major: v[i].major, minor: crate::text::copy_chars(v[i].minor.as_slice()), item: v[i].item };
        r.push(e);
        assert(entry_views(r@) =~= old_r.push(ev[i as int]));
        assert(ev.take(i + 1) =~= ev.take(i as int).push(ev[i as int]));
        i = i + 1;
    }
    r
}

/// Searches all items of the index for the query.
///
/// Returns `InvalidQuery` when the query has no terms.
pub fn search(index: &DocIndex, query: &str, kind_filter: Option<ItemKind>) -> (r: Result<Vec<SearchResult>, GroxError>)
    ensures
        match r {
            Ok(v) => search_groups(query@).len() > 0 && result_views(v@) == search_results(
                index.items@,
                search_groups(query@),
                kind_filter,
            ) && results_below(v@, index.items@.len() as int),
            Err(e) => search_groups(query@).len() == 0 && (e matches GroxError::InvalidQuery {
                message,
            } && message@ == "search query cannot be empty"@),
        },
{
    let groups = match parse_query(query) {
        Ok(g) => g,
        Err(e) => {
            return Err(e);
        },
    };
    let ghost gv = group_views(groups@);
    let mut scored: Vec<SortEntry> = Vec::new();
    let mut i: usize = 0;
    while i < index.items.len()
        invariant
            i <= index.items@.len(),
            gv == group_views(groups@),
            entry_views(scored@) == scored_entries(index.items@, gv, kind_filter, i as int),
            forall|t: int| 0 <= t < scored@.len() ==> #[trigger] scored@[t].item < index.items@.len(),
        decreases index.items.len() - i,
    {
        let item = &index.items[i];
        let ok = match kind_filter {
            None => true,
            Some(f) => item.kind.matches_filter(f),
        };
        if ok {
            let entry = SearchEntry::from_item(item);
            let score = score_entry(&entry, groups.as_slice());
            if score > 0 {
                let ghost old_s = entry_views(scored@);
                let path = chars_of(item.path.as_str());
                scored.push(SortEntry { major: (u32::MAX - score) as u64, minor: path, item: i });
                assert(entry_views(scored@) =~= old_s.push((score_key(score), item.path@, i)));
            }
        }
        i = i + 1;
    }
    proof {
        lemma_scored_keys(index.items@, gv, kind_filter, index.items@.len() as int);
    }
    let ghost sv = entry_views(scored@);
    let sorted = sort_entries(scored);
    proof {
        assert forall|t: int| 0 <= t < stable_sort(sv).len() implies #[trigger] stable_sort(sv)[t].0 <= u32::MAX by {
            crate::sort::lemma_stable_sort_member(sv, t);
            let j = choose|j: int| 0 <= j < sv.len() && sv[j] == stable_sort(sv)[t];
            assert(sv[j].0 <= u32::MAX);
        }
        assert forall|t: int| 0 <= t < stable_sort(sv).len() implies #[trigger] stable_sort(sv)[t].2 < index.items@.len() by {
            crate::sort::lemma_stable_sort_member(sv, t);
            let j = choose|j: int| 0 <= j < sv.len() && sv[j] == stable_sort(sv)[t];
            assert(sv[j].2 == scored@[j].item);
        }
    }
    let ghost sorted_v = entry_views(sorted@);
    let capped = cap_entries(sorted, MAX_RESULTS);
    proof {
        assert forall|t: int| 0 <= t < capped@.len() implies #[trigger] capped@[t].major <= u32::MAX by {
            assert(sorted_v == stable_sort(sv));
            assert(entry_views(capped@).len() == capped@.len());
            assert(entry_views(capped@)[t] == sorted_v[t]);
            assert(entry_views(capped@)[t].0 == capped@[t].major);
            assert(sorted_v[t].0 <= u32::MAX);
        }
        assert forall|t: int| 0 <= t < capped@.len() implies #[trigger] capped@[t].item < index.items@.len() by {
            assert(sorted_v == stable_sort(sv));
            assert(entry_views(capped@).len() == capped@.len());
            assert(entry_views(capped@)[t] == sorted_v[t]);
            assert(sorted_v[t].2 < index.items@.len());
            assert(entry_views(capped@)[t].2 == capped@[t].item);
        }
    }
    let kept = first_per_minor(&capped);
    let ghost cv = entry_views(capped@);
    let mut out: Vec<SearchResult> = Vec::new();
    let mut k: usize = 0;
    while k < kept.len()
        invariant
            k <= kept@.len(),
            cv == entry_views(capped@),
            forall|t: int| 0 <= t < kept@.len() ==> #[trigger] kept@[t] < capped@.len(),
            forall|t: int| 0 <= t < capped@.len() ==> #[trigger] capped@[t].major <= u32::MAX,
            forall|t: int| 0 <= t < capped@.len() ==> #[trigger] capped@[t].item < index.items@.len(),
            results_below(out@, index.items@.len() as int),
            result_views(out@) == kept@.map_values(|j: usize| cv[j as int]).take(k as int).map_values(
                |e: EntryView| (e.2, (u32::MAX - e.0) as u32),
            ),
        decreases kept.len() - k,
    {
        let ghost old_o = result_views(out@);
        let e = &capped[kept[k]];
        let score = (u32::MAX as u64 - e.major) as u32;
        out.push(SearchResult { index: e.item, score });
        assert(result_views(out@) =~= old_o.push((e.item, (u32::MAX - e.major) as u32)));
        k = k + 1;
    }
    Ok(out)
}

/// Every score key is a `u32`.
proof fn lemma_scored_keys(items: Seq<IndexItem>, groups: Seq<Seq<Seq<char>>>, kf: Option<ItemKind>, k: int)
    ensures
        forall|j: int| 0 <= j < scored_entries(items, groups, kf, k).len() ==> #[trigger] scored_entries(items, groups, kf, k)[j].0 <= u32::MAX,
    decreases k,
{
    if k > 0 {
        lemma_scored_keys(items, groups, kf, k - 1);
        let prev = scored_entries(items, groups, kf, k - 1);
        let cur = scored_entries(items, groups, kf, k);
        let sc = item_score(items[k - 1], groups);
        assert(score_key(sc) <= u32::MAX);
        assert forall|j: int| 0 <= j < cur.len() implies #[trigger] cur[j].0 <= u32::MAX by {
            if j < prev.len() {
                assert(cur[j] == prev[j]);
            }
        }
    }
}

// ---------------------------------------------------------------------------
// Plain-text output
// ---------------------------------------------------------------------------

/// Every result is a position of the index.
pub open spec fn results_below(r: Seq<SearchResult>, n: int) -> bool {
    forall|j: int| 0 <= j < r.len() ==> (#[trigger] r[j]).index < n
}

/// Whether every result is a position of the index.
pub fn results_in_bounds(index: &DocIndex, results: &Vec<SearchResult>) -> (r: bool)
    ensures
        r == results_below(results@, index.items@.len() as int),
{
    let mut k: usize = 0;
    while k < results.len()
        invariant
            k <= results@.len(),
            forall|j: int| 0 <= j < k ==> (#[trigger] results@[j]).index < index.items@.len(),
        decreases results.len() - k,
    {
        if results[k].index >= index.items.len() {
            return false;
        }
        k = k + 1;
    }
    true
}

/// The widths of the kind and path columns: the longest kind name and the
/// longest path among the results, in bytes.
pub open spec fn result_widths(items: Seq<IndexItem>, r: Seq<SearchResult>) -> (nat, nat)
    decreases r.len(),
{
    if r.len() == 0 {
        (0, 0)
    } else {
        let (k, p) = result_widths(items, r.drop_last());
        let it = items[r.last().index as int];
        let k2 = byte_len(kind_word(it));
        let p2 = byte_len(it.path@);
        (if k2 > k { k2 } else { k }, if p2 > p { p2 } else { p })
    }
}

/// One result line: kind and path left-aligned in their columns, then the
/// summary where there is one.
pub open spec fn result_row(it: IndexItem, w: (nat, nat)) -> Seq<char> {
    pad_right(kind_word(it), w.0) + seq![' ', ' '] + pad_right(it.path@, w.1) + (if it.summary@.len()
        == 0 {
        seq![]
    } else {
        seq![' ', ' '] + it.summary@
    }) + seq!['\n']
}

/// The lines of the results.
pub open spec fn result_rows(items: Seq<IndexItem>, r: Seq<SearchResult>, w: (nat, nat)) -> Seq<char>
    decreases r.len(),
{
    if r.len() == 0 {
        seq![]
    } else {
        result_rows(items, r.drop_last(), w) + result_row(items[r.last().index as int], w)
    }
}

/// The plain-text search output: `N results for "q":`, then (when there are
/// results) a blank line and one aligned line per result.
pub open spec fn spec_render_search_text(items: Seq<IndexItem>, r: Seq<SearchResult>, q: Seq<char>) -> Seq<char> {
    decimal(r.len()) + " results for \""@ + q + "\":\n"@ + (if r.len() == 0 {
        seq![]
    } else {
        seq!['\n'] + result_rows(items, r, result_widths(items, r))
    })
}

fn result_widths_exec(index: &DocIndex, results: &Vec<SearchResult>) -> (r: (usize, usize))
    requires
        results_below(results@, index.items@.len() as int),
    ensures
        (r.0 as nat, r.1 as nat) == result_widths(index.items@, results@),
{
    let mut k: usize = 0;
    let mut p: usize = 0;
    let mut i: usize = 0;
    while i < results.len()
        invariant
            i <= results@.len(),
            results_below(results@, index.items@.len() as int),
            (k as nat, p as nat) == result_widths(index.items@, results@.take(i as int)),
        decreases results.len() - i,
    {
        assert(results@.take(i + 1).drop_last() =~= results@.take(i as int));
        assert(results@[i as int].index < index.items@.len());
        let it = &index.items[results[i].index];
        let kb = it.kind.short_name().as_bytes();
        assert(kb@ == vstd::utf8::encode_utf8(kind_word(*it)));
        let pb = it.path.as_str().as_bytes();
        assert(pb@ == vstd::utf8::encode_utf8(it.path@));
        if kb.len() > k {
            k = kb.len();
        }
        if pb.len() > p {
            p = pb.len();
        }
        i = i + 1;
    }
    assert(results@.take(results@.len() as int) =~= results@);
    (k, p)
}

/// Renders search results as plain text (what `--search` prints without
/// `--json`).
pub fn render_search_text(index: &DocIndex, results: &Vec<SearchResult>, query: &str) -> (r: String)
    requires
        results_below(results@, index.items@.len() as int),
    ensures
        r@ == spec_render_search_text(index.items@, results@, query@),
{
    let mut out = decimal_exec(results.len() as u64);
    append_str(&mut out, " results for \"");
    append_str(&mut out, query);
    append_str(&mut out, "\":\n");
    let ghost head = out@;
    if results.len() > 0 {
        out.push('\n');
        let w = result_widths_exec(index, results);
        let ghost wv = (w.0 as nat, w.1 as nat);
        let ghost start = out@;
        let mut i: usize = 0;
        while i < results.len()
            invariant
                i <= results@.len(),
                results_below(results@, index.items@.len() as int),
                wv == (w.0 as nat, w.1 as nat),
                out@ == start + result_rows(index.items@, results@.take(i as int), wv),
            decreases results.len() - i,
        {
            assert(results@.take(i + 1).drop_last() =~= results@.take(i as int));
            assert(results@[i as int].index < index.items@.len());
            let it = &index.items[results[i].index];
            let ghost before = out@;
            append_padded(&mut out, chars_of(it.kind.short_name()).as_slice(), w.0);
            out.push(' ');
            out.push(' ');
            append_padded(&mut out, chars_of(it.path.as_str()).as_slice(), w.1);
            if !it.summary.as_str().is_empty() {
                out.push(' ');
                out.push(' ');
                append_str(&mut out, it.summary.as_str());
            }
            out.push('\n');
            assert(out@ =~= before + result_row(*it, wv));
            i = i + 1;
        }
        assert(results@.take(results@.len() as int) =~= results@);
    }
    assert(out@ =~= spec_render_search_text(index.items@, results@, query@));
    string_of(out.as_slice())
}

/// Whether a search that found nothing is worth repeating with all features
/// (to hint at feature-gated matches): not when all features were already on,
/// nor for crates fetched from crates.io (rebuilding is too slow).
pub fn should_retry_with_all_features(total: usize, all_features: bool, external: bool) -> (r: bool)
    ensures
        r == (total == 0 && !all_features && !external),
{
    total == 0 && !all_features && !external
}

/// The hint printed when all features would give matches.
pub fn all_features_hint(n: usize) -> (r: String)
    ensures
        r@ == "hint: "@ + decimal(n as nat) + " items found with --all-features"@,
{
    let mut out = chars_of("hint: ");
    append(&mut out, decimal_exec(n as u64).as_slice());
    append_str(&mut out, " items found with --all-features");
    string_of(out.as_slice())
}

// ---------------------------------------------------------------------------
// Ranking laws
// ---------------------------------------------------------------------------

/// Every entry kept by [`dedup_minor`] is an entry of the input.
pub proof fn lemma_dedup_member(s: Seq<EntryView>, i: int)
    requires
        0 <= i < dedup_minor(s).len(),
    ensures
        s.contains(dedup_minor(s)[i]),
    decreases s.len(),
{
    if s.len() > 0 {
        let prev = dedup_minor(s.drop_last());
        if i < prev.len() {
            lemma_dedup_member(s.drop_last(), i);
            let k = choose|k: int| 0 <= k < s.drop_last().len() && s.drop_last()[k] == prev[i];
            assert(s[k] == prev[i]);
        } else {
            assert(s[s.len() - 1] == s.last());
        }
    }
}

/// Deduplication keeps no more entries than it is given.
pub proof fn lemma_dedup_len(s: Seq<EntryView>)
    ensures
        dedup_minor(s).len() <= s.len(),
    decreases s.len(),
{
    if s.len() > 0 {
        lemma_dedup_len(s.drop_last());
    }
}

/// Deduplicating a sorted sequence keeps it sorted.
pub proof fn lemma_dedup_sorted(s: Seq<EntryView>)
    requires
        crate::sort::entries_sorted(s),
    ensures
        crate::sort::entries_sorted(dedup_minor(s)),
    decreases s.len(),
{
    if s.len() > 0 {
        let d = s.drop_last();
        assert forall|i: int, j: int| 0 <= i < j < d.len() implies !crate::sort::entry_lt(#[trigger] d[j], #[trigger] d[i]) by {
            assert(d[j] == s[j] && d[i] == s[i]);
        }
        lemma_dedup_sorted(d);
        let prev = dedup_minor(d);
        let r = dedup_minor(s);
        assert forall|i: int, j: int| 0 <= i < j < r.len() implies !crate::sort::entry_lt(#[trigger] r[j], #[trigger] r[i]) by {
            if j >= prev.len() {
                lemma_dedup_member(d, i);
                let k = choose|k: int| 0 <= k < d.len() && d[k] == prev[i];
                assert(s[k] == prev[i]);
                assert(s[s.len() - 1] == s.last());
            }
        }
    }
}

/// Every scored entry carries the score key of a score.
proof fn lemma_scored_keys_bounded(items: Seq<IndexItem>, groups: Seq<Seq<Seq<char>>>, kf: Option<ItemKind>, k: int)
    ensures
        forall|j: int| 0 <= j < scored_entries(items, groups, kf, k).len() ==> (#[trigger] scored_entries(items, groups, kf, k)[j]).0 <= u32::MAX,
    decreases k,
{
    if k > 0 {
        lemma_scored_keys_bounded(items, groups, kf, k - 1);
        let sc = item_score(items[k - 1], groups);
        assert(score_key(sc) <= u32::MAX) by {
            assert((u32::MAX - sc) as u64 == u32::MAX - sc);
        }
        let prev = scored_entries(items, groups, kf, k - 1);
        let cur = scored_entries(items, groups, kf, k);
        assert forall|j: int| 0 <= j < cur.len() implies (#[trigger] cur[j]).0 <= u32::MAX by {
            if j < prev.len() {
                assert(cur[j] == prev[j]);
            }
        }
    }
}

/// The scores of a result list.
pub open spec fn result_scores(r: Seq<(usize, u32)>) -> Seq<u32> {
    r.map_values(|x: (usize, u32)| x.1)
}

/// Search returns at most [`MAX_RESULTS`] results, best score first: no
/// result scores higher than one before it.
pub proof fn lemma_search_ranked(items: Seq<IndexItem>, groups: Seq<Seq<Seq<char>>>, kf: Option<ItemKind>)
    ensures
        search_results(items, groups, kf).len() <= MAX_RESULTS,
        forall|i: int, j: int|
            0 <= i < j < search_results(items, groups, kf).len() ==> (#[trigger] search_results(items, groups, kf)[i]).1
                >= (#[trigger] search_results(items, groups, kf)[j]).1,
{
    let e = scored_entries(items, groups, kf, items.len() as int);
    let sorted = stable_sort(e);
    let n = if sorted.len() < MAX_RESULTS { sorted.len() as int } else { MAX_RESULTS as int };
    let capped = sorted.take(n);
    let d = dedup_minor(capped);
    crate::types::lemma_stable_sort_len(e);
    lemma_dedup_len(capped);
    crate::sort::lemma_stable_sort_sorted(e);
    assert forall|i: int, j: int| 0 <= i < j < capped.len() implies !crate::sort::entry_lt(#[trigger] capped[j], #[trigger] capped[i]) by {
        assert(capped[j] == sorted[j] && capped[i] == sorted[i]);
    }
    lemma_dedup_sorted(capped);
    lemma_scored_keys_bounded(items, groups, kf, items.len() as int);
    assert forall|i: int| 0 <= i < d.len() implies (#[trigger] d[i]).0 <= u32::MAX by {
        lemma_dedup_member(capped, i);
        let k = choose|k: int| 0 <= k < capped.len() && capped[k] == d[i];
        assert(capped[k] == sorted[k]);
        crate::sort::lemma_stable_sort_member(e, k);
        let m = choose|m: int| 0 <= m < e.len() && e[m] == sorted[k];
    }
    let r = search_results(items, groups, kf);
    assert forall|i: int, j: int| 0 <= i < j < r.len() implies (#[trigger] r[i]).1 >= (#[trigger] r[j]).1 by {
        assert(!crate::sort::entry_lt(d[j], d[i]));
        assert(d[i].0 <= u32::MAX && d[j].0 <= u32::MAX);
        assert(r[i] == (d[i].2, (u32::MAX - d[i].0) as u32));
        assert(r[j] == (d[j].2, (u32::MAX - d[j].0) as u32));
    }
}

} // verus!
