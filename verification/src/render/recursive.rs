//! The items of a recursive listing: everything reachable from an item
//! through child links (hidden items and what lies below them left out
//! unless private items are shown), each once, sorted by path.
use vstd::prelude::*;
use crate::sort::{entry_payloads, entry_views, payloads, sort_entries, stable_sort, SortEntry};
use crate::text::chars_of;
use crate::types::DocIndex;

verus! {

/// `p` is a child of item `q` that the listing shows.
pub open spec fn shown_child(idx: &DocIndex, q: usize, p: usize, include_private: bool) -> bool {
    &&& q < idx.items@.len()
    &&& p < idx.items@.len()
    &&& exists|j: int|
        0 <= j < idx.items@[q as int].children@.len() && #[trigger] idx.items@[q as int].children@[j].index == p
    &&& (include_private || idx.items@[p as int].is_public)
}

/// `s` is a chain of shown children from `root`.
pub open spec fn is_chain(idx: &DocIndex, root: usize, s: Seq<usize>, include_private: bool) -> bool {
    &&& s.len() >= 1
    &&& s[0] == root
    &&& forall|k: int| 0 <= k < s.len() - 1 ==> shown_child(idx, #[trigger] s[k], s[k + 1], include_private)
}

/// `p` is reached from `root` through shown children, and is not `root`.
pub open spec fn reachable(idx: &DocIndex, root: usize, p: usize, include_private: bool) -> bool {
    p != root && exists|s: Seq<usize>| #[trigger] is_chain(idx, root, s, include_private) && s.last() == p
}

/// Positions sorted by item path (stable).
pub open spec fn by_path(idx: &DocIndex, pos: Seq<usize>) -> Seq<usize> {
    payloads(stable_sort(pos.map_values(|p: usize| (0u64, idx.items@[p as int].path@, p))))
}

/// `s` holds every reachable position exactly once, and nothing else.
pub open spec fn is_reachable_set(idx: &DocIndex, root: usize, s: Seq<usize>, include_private: bool) -> bool {
    &&& forall|i: int, j: int| 0 <= i < j < s.len() ==> s[i] != s[j]
    &&& forall|i: int| 0 <= i < s.len() ==> reachable(idx, root, #[trigger] s[i], include_private)
    &&& forall|p: usize| reachable(idx, root, p, include_private) ==> s.contains(p)
}

/// Extending a chain by a shown child gives a chain.
proof fn lemma_chain_push(idx: &DocIndex, root: usize, s: Seq<usize>, c: usize, include_private: bool)
    requires
        is_chain(idx, root, s, include_private),
        shown_child(idx, s.last(), c, include_private),
    ensures
        is_chain(idx, root, s.push(c), include_private),
{
    let t = s.push(c);
    assert forall|k: int| 0 <= k < t.len() - 1 implies shown_child(idx, #[trigger] t[k], t[k + 1], include_private) by {
        if k < s.len() - 1 {
            assert(t[k] == s[k] && t[k + 1] == s[k + 1]);
        } else {
            assert(t[k] == s.last() && t[k + 1] == c);
        }
    }
}

/// With every visited item closed under shown children, every item at the
/// end of a chain is visited.
proof fn lemma_chain_visited(idx: &DocIndex, root: usize, s: Seq<usize>, visited: Seq<bool>, include_private: bool)
    requires
        is_chain(idx, root, s, include_private),
        visited.len() == idx.items@.len(),
        root < visited.len(),
        visited[root as int],
        forall|q: usize, c: usize|
            #![trigger visited[q as int], shown_child(idx, q, c, include_private)]
            q < visited.len() && visited[q as int] && shown_child(idx, q, c, include_private) ==> visited[c as int],
    ensures
        visited[s.last() as int],
    decreases s.len(),
{
    if s.len() > 1 {
        let t = s.drop_last();
        assert forall|k: int| 0 <= k < t.len() - 1 implies shown_child(idx, #[trigger] t[k], t[k + 1], include_private) by {
            assert(t[k] == s[k] && t[k + 1] == s[k + 1]);
        }
        lemma_chain_visited(idx, root, t, visited, include_private);
        assert(shown_child(idx, s[s.len() - 2], s[s.len() - 1], include_private));
        assert(t.last() == s[s.len() - 2]);
    }
}

/// Every item reachable from `idx` through shown children, each once,
/// sorted by path (stably, from an order of discovery).
pub fn collect_children_recursive(index: &DocIndex, idx: usize, include_private: bool) -> (r: Vec<usize>)
    requires
        idx < index.items@.len(),
        index.children_in_bounds(),
    ensures
        exists|s: Seq<usize>| is_reachable_set(index, idx, s, include_private) && r@ == by_path(index, s),
        forall|j: int| 0 <= j < r@.len() ==> #[trigger] r@[j] < index.items@.len(),
{
    let n = index.items.len();
    let mut visited: Vec<bool> = Vec::new();
    let mut i: usize = 0;
    while i < n
        invariant
            i <= n,
            visited@.len() == i,
            forall|k: int| 0 <= k < i ==> !(#[trigger] visited@[k]),
        decreases n - i,
    {
        visited.push(false);
        i = i + 1;
    }
    visited.set(idx, true);
    let mut found: Vec<usize> = Vec::new();
    let mut stack: Vec<usize> = Vec::new();
    stack.push(idx);
    let ghost mut count: nat = 1;
    proof {
        assert forall|p: int| 0 <= p < n implies (#[trigger] visited@[p] <==> (p == idx || found@.contains(p as usize))) by {
            if p != idx {
                assert(!visited@[p]);
            }
        }
        assert(stack@[0] == idx);
        assert(stack@.contains(idx));
    }
    while stack.len() > 0
        invariant
            n == index.items@.len(),
            idx < n,
            index.children_in_bounds(),
            visited@.len() == n,
            visited@[idx as int],
            forall|p: int| 0 <= p < n ==> (#[trigger] visited@[p] <==> (p == idx || found@.contains(p as usize))),
            forall|a: int, b: int| 0 <= a < b < found@.len() ==> found@[a] != found@[b],
            forall|a: int| 0 <= a < found@.len() ==> #[trigger] found@[a] < n,
            forall|a: int| 0 <= a < found@.len() ==> reachable(index, idx, #[trigger] found@[a], include_private),
            forall|a: int| 0 <= a < stack@.len() ==> #[trigger] stack@[a] < n && visited@[stack@[a] as int],
            forall|qq: usize, c: usize|
                #![trigger visited@[qq as int], shown_child(index, qq, c, include_private)]
                qq < n && visited@[qq as int] && !stack@.contains(qq) && shown_child(index, qq, c, include_private) ==> visited@[c as int],
            count == found@.len() + 1,
            count <= n,
        decreases n - count, stack.len(),
    {
            let ghost stack0 = stack@;
        let q = stack.pop().unwrap();
        let ghost after_pop = stack@;
        let ghost found0 = found@;
        let ghost visited0 = visited@;
        proof {
            assert(stack0 == after_pop.push(q));
            assert forall|qq: usize| #[trigger] after_pop.contains(qq) implies stack0.contains(qq) by {
                let a = choose|a: int| 0 <= a < after_pop.len() && after_pop[a] == qq;
                assert(stack0[a] == qq);
            }
        }
        let children = &index.items[q].children;
        let mut j: usize = 0;
        while j < children.len()
            invariant
                n == index.items@.len(),
                idx < n,
                q < n,
                index.children_in_bounds(),
                *children == index.items@[q as int].children,
                j <= children@.len(),
                visited@.len() == n,
                visited0.len() == n,
                visited@[idx as int],
                visited@[q as int],
                forall|p: int| 0 <= p < n ==> (#[trigger] visited@[p] <==> (p == idx || found@.contains(p as usize))),
                forall|p: int| 0 <= p < n && visited0[p] ==> #[trigger] visited@[p],
                forall|p: int| 0 <= p < n && #[trigger] visited@[p] && !visited0[p] ==> stack@.contains(p as usize),
                forall|a: int, b: int| 0 <= a < b < found@.len() ==> found@[a] != found@[b],
                forall|a: int| 0 <= a < found@.len() ==> #[trigger] found@[a] < n,
                forall|a: int| 0 <= a < found@.len() ==> reachable(index, idx, #[trigger] found@[a], include_private),
                forall|a: int| 0 <= a < stack@.len() ==> #[trigger] stack@[a] < n && visited@[stack@[a] as int],
                stack@.len() >= after_pop.len(),
                forall|a: int| 0 <= a < after_pop.len() ==> #[trigger] stack@[a] == after_pop[a],
                forall|qq: usize, c: usize|
                    #![trigger visited0[qq as int], shown_child(index, qq, c, include_private)]
                    qq < n && qq != q && visited0[qq as int] && !after_pop.contains(qq) && shown_child(index, qq, c, include_private) ==> visited@[c as int],
                forall|k: int| 0 <= k < j && (include_private || index.items@[children@[k].index as int].is_public) ==> visited@[#[trigger] children@[k].index as int],
                count == found@.len() + 1,
                count <= n,
                stack@.len() - after_pop.len() == found@.len() - found0.len(),
                found@.len() >= found0.len(),
            decreases children.len() - j,
        {
            let c = children[j].index;
            assert(index.items@[q as int].children@[j as int].index < n);
            if !visited[c] && (include_private || index.items[c].is_public) {
                proof {
                    assert(shown_child(index, q, c, include_private)) by {
                        assert(index.items@[q as int].children@[j as int].index == c);
                    }
                    assert(c != idx);
                    if q == idx {
                        let s = seq![idx, c];
                        assert(shown_child(index, s[0], s[1], include_private));
                        assert(is_chain(index, idx, s, include_private));
                        assert(reachable(index, idx, c, include_private));
                    } else {
                        assert(found@.contains(q));
                        let a = choose|a: int| 0 <= a < found@.len() && found@[a] == q;
                        assert(reachable(index, idx, found@[a], include_private));
                        let s = choose|s: Seq<usize>| #[trigger] is_chain(index, idx, s, include_private) && s.last() == q;
                        lemma_chain_push(index, idx, s, c, include_private);
                        assert(s.push(c).last() == c);
                        assert(reachable(index, idx, c, include_private));
                    }
                    assert(!found@.contains(c));
                    assert forall|a: int| 0 <= a < found@.len() implies #[trigger] found@[a] < n && found@[a] != idx by {
                        assert(reachable(index, idx, found@[a], include_private));
                    }
                    lemma_count_bound(found@, idx, c, n);
                }
                let ghost before_found = found@;
                let ghost before_stack = stack@;
                visited.set(c, true);
                found.push(c);
                stack.push(c);
                proof {
                    count = count + 1;
                    assert forall|p: int| 0 <= p < n implies (#[trigger] visited@[p] <==> (p == idx || found@.contains(p as usize))) by {
                        if p == c as int {
                            assert(found@[found@.len() - 1] == c);
                        } else {
                            assert(before_found.contains(p as usize) ==> found@.contains(p as usize)) by {
                                if before_found.contains(p as usize) {
                                    let a = choose|a: int| 0 <= a < before_found.len() && before_found[a] == p as usize;
                                    assert(found@[a] == p as usize);
                                }
                            }
                            assert(found@.contains(p as usize) ==> before_found.contains(p as usize)) by {
                                if found@.contains(p as usize) {
                                    let a = choose|a: int| 0 <= a < found@.len() && found@[a] == p as usize;
                                    if a < before_found.len() {
                                        assert(before_found[a] == p as usize);
                                    }
                                }
                            }
                        }
                    }
                    assert forall|p: int| 0 <= p < n && #[trigger] visited@[p] && !visited0[p] implies stack@.contains(p as usize) by {
                        if p == c as int {
                            assert(stack@[stack@.len() - 1] == c);
                        } else {
                            assert(before_stack.contains(p as usize));
                            let a = choose|a: int| 0 <= a < before_stack.len() && before_stack[a] == p as usize;
                            assert(stack@[a] == p as usize);
                        }
                    }
                }
            }
            j = j + 1;
        }
        proof {
            assert forall|qq: usize, cc: usize|
                #![trigger visited@[qq as int], shown_child(index, qq, cc, include_private)]
                qq < n && visited@[qq as int] && !stack@.contains(qq) && shown_child(index, qq, cc, include_private)
                implies visited@[cc as int] by {
                if qq == q {
                    let jj = choose|jj: int|
                        0 <= jj < index.items@[q as int].children@.len() && #[trigger] index.items@[q as int].children@[jj].index == cc;
                    assert(children@[jj].index == cc);
                } else if !visited0[qq as int] {
                    assert(stack@.contains(qq));
                } else {
                    if after_pop.contains(qq) {
                        let a = choose|a: int| 0 <= a < after_pop.len() && after_pop[a] == qq;
                        assert(stack@[a] == qq);
                    }
                    assert(!after_pop.contains(qq));
                    assert(!stack0.contains(qq));
                    assert(visited0[qq as int] && shown_child(index, qq, cc, include_private));
                }
            }
        }
    }
    proof {
        assert forall|p: usize| reachable(index, idx, p, include_private) implies found@.contains(p) by {
            let s = choose|s: Seq<usize>| #[trigger] is_chain(index, idx, s, include_private) && s.last() == p;
            lemma_chain_visited(index, idx, s, visited@, include_private);
            assert(s.len() > 1) by {
                if s.len() == 1 {
                    assert(s.last() == s[0]);
                }
            }
            assert(shown_child(index, s[s.len() - 2], s[s.len() - 1], include_private));
        }
    }
    let sorted = sort_by_path(index, &found);
    sorted
}

/// Fewer than `n` distinct positions other than `root` and `c` fit below `n`.
proof fn lemma_count_bound(found: Seq<usize>, root: usize, c: usize, n: usize)
    requires
        root < n,
        c < n,
        c != root,
        !found.contains(c),
        forall|a: int| 0 <= a < found.len() ==> #[trigger] found[a] < n && found[a] != root,
        forall|a: int, b: int| 0 <= a < b < found.len() ==> found[a] != found[b],
    ensures
        found.len() + 2 <= n,
{
    let s = found.push(root).push(c);
    assert forall|a: int, b: int| 0 <= a < b < s.len() implies s[a] != s[b] by {
        if b == s.len() - 1 {
            if a < found.len() {
                assert(s[a] == found[a]);
            }
        } else if b == s.len() - 2 {
            assert(s[a] == found[a]);
        } else {
            assert(s[a] == found[a] && s[b] == found[b]);
        }
    }
    let st = s.to_set();
    assert(s.no_duplicates()) by {
        assert forall|a: int, b: int| 0 <= a < s.len() && 0 <= b < s.len() && a != b implies s[a] != s[b] by {
            if a < b {
                assert(s[a] != s[b]);
            } else {
                assert(s[b] != s[a]);
            }
        }
    }
    s.unique_seq_to_set();
    assert forall|x: usize| st.contains(x) implies Set::new(|i: usize| i < n).contains(x) by {
        let a = choose|a: int| 0 <= a < s.len() && s[a] == x;
        if a < found.len() {
            assert(s[a] == found[a]);
        }
    }
    let full = Set::new(|i: usize| i < n);
    lemma_range_set_len(n);
    vstd::set_lib::lemma_len_subset(st, full);
}

proof fn lemma_range_set_len(n: usize)
    ensures
        Set::new(|i: usize| i < n).finite(),
        Set::new(|i: usize| i < n).len() == n,
    decreases n,
{
    let s = Set::new(|i: usize| i < n);
    if n == 0 {
        assert(s =~= Set::<usize>::empty());
    } else {
        let m = (n - 1) as usize;
        lemma_range_set_len(m);
        let t = Set::new(|i: usize| i < m);
        assert(s =~= t.insert(m));
    }
}

/// Sorts positions by item path (stable).
fn sort_by_path(index: &DocIndex, pos: &Vec<usize>) -> (r: Vec<usize>)
    requires
        forall|j: int| 0 <= j < pos@.len() ==> #[trigger] pos@[j] < index.items@.len(),
    ensures
        r@ == by_path(index, pos@),
        forall|j: int| 0 <= j < r@.len() ==> #[trigger] r@[j] < index.items@.len(),
{
    let ghost f = |p: usize| (0u64, index.items@[p as int].path@, p);
    let mut es: Vec<SortEntry> = Vec::new();
    let mut i: usize = 0;
    while i < pos.len()
        invariant
            i <= pos@.len(),
            forall|j: int| 0 <= j < pos@.len() ==> #[trigger] pos@[j] < index.items@.len(),
            f == (|p: usize| (0u64, index.items@[p as int].path@, p)),
            entry_views(es@) == pos@.take(i as int).map_values(f),
        decreases pos.len() - i,
    {
        let ghost old_e = entry_views(es@);
        let p = pos[i];
        es.push(SortEntry { major: 0, minor: chars_of(index.items[p].path.as_str()), item: p });
        assert(entry_views(es@) =~= old_e.push(f(p)));
        assert(pos@.take(i + 1).map_values(f) =~= pos@.take(i as int).map_values(f).push(f(p)));
        i = i + 1;
    }
    assert(pos@.take(pos@.len() as int) =~= pos@);
    let sorted = sort_entries(es);
    let r = entry_payloads(&sorted);
    proof {
        let ev = pos@.map_values(f);
        crate::sort::lemma_stable_sort_multiset(ev);
        assert forall|j: int| 0 <= j < r@.len() implies #[trigger] r@[j] < index.items@.len() by {
            let st = stable_sort(ev);
            assert(r@[j] == st[j].2);
            crate::sort::lemma_stable_sort_member(ev, j);
            let k = choose|k: int| 0 <= k < ev.len() && ev[k] == st[j];
            assert(ev[k].2 == pos@[k]);
        }
    }
    r
}

} // verus!
