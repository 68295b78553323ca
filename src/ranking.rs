use vstd::prelude::*;

verus! {

/// `i` comes before `j` when it is closer, or equally close and earlier.
pub open spec fn ranks_before(d: Seq<usize>, i: int, j: int) -> bool {
    d[i] < d[j] || (d[i] == d[j] && i < j)
}

/// Index `j` occurs somewhere in `order`.
pub open spec fn lists(order: Seq<usize>, j: int) -> bool {
    exists|k: int| 0 <= k < order.len() && order[k] == j
}

/// `order` lists each index below `m` exactly once, closest first, ties kept
/// in their original order.
pub open spec fn ranks_prefix(d: Seq<usize>, m: int, order: Seq<usize>) -> bool {
    &&& forall|k: int| 0 <= k < order.len() ==> #[trigger] order[k] < m
    &&& forall|j: int| 0 <= j < m ==> #[trigger] lists(order, j)
    &&& forall|a: int, b: int|
        0 <= a < b < order.len() ==> ranks_before(d, #[trigger] order[a] as int, #[trigger] order[b] as int)
}

/// `order` is the stable ascending ordering of all indices of `d` by their value.
pub open spec fn is_stable_ranking(d: Seq<usize>, order: Seq<usize>) -> bool {
    order.len() == d.len() && ranks_prefix(d, d.len() as int, order)
}

/// The stable ascending ordering of the indices of `d` (unique by
/// `lemma_stable_ranking_unique`).
pub open spec fn stable_ranking(d: Seq<usize>) -> Seq<usize> {
    choose|order: Seq<usize>| is_stable_ranking(d, order)
}

/// Sorting by distance is deterministic: there is at most one stable ranking.
pub proof fn lemma_stable_ranking_unique(d: Seq<usize>, o1: Seq<usize>, o2: Seq<usize>)
    requires
        is_stable_ranking(d, o1),
        is_stable_ranking(d, o2),
    ensures
        o1 == o2,
{
    let n = d.len() as int;
    assert forall|k: int| 0 <= k < o1.len() && k < o2.len() implies o1[k] == o2[k] by {
        lemma_rankings_agree_at(d, o1, o2, k);
    }
    lemma_no_extra(d, o1, o2);
    lemma_no_extra(d, o2, o1);
    assert(o1 =~= o2);
}

proof fn lemma_rankings_agree_at(d: Seq<usize>, o1: Seq<usize>, o2: Seq<usize>, k: int)
    requires
        is_stable_ranking(d, o1),
        is_stable_ranking(d, o2),
        0 <= k < o1.len(),
        k < o2.len(),
    ensures
        o1[k] == o2[k],
    decreases k,
{
    assert forall|i: int| 0 <= i < k implies o1[i] == o2[i] by {
        lemma_rankings_agree_at(d, o1, o2, i);
    }
    let a = o1[k] as int;
    let b = o2[k] as int;
    if a != b {
        assert(lists(o2, a));
        assert(lists(o1, b));
        let m2 = choose|m: int| 0 <= m < o2.len() && o2[m] == a;
        let m1 = choose|m: int| 0 <= m < o1.len() && o1[m] == b;
        if m2 < k {
            assert(o1[m2] == a);
            assert(ranks_before(d, o1[m2] as int, o1[k] as int));
        } else if m1 < k {
            assert(o2[m1] == b);
            assert(ranks_before(d, o2[m1] as int, o2[k] as int));
        } else {
            assert(ranks_before(d, o2[k] as int, o2[m2] as int));
            assert(ranks_before(d, o1[k] as int, o1[m1] as int));
        }
    }
}

proof fn lemma_no_extra(d: Seq<usize>, short: Seq<usize>, long: Seq<usize>)
    requires
        is_stable_ranking(d, short),
        is_stable_ranking(d, long),
        forall|k: int| 0 <= k < short.len() && k < long.len() ==> short[k] == long[k],
    ensures
        short.len() >= long.len(),
{
    if short.len() < long.len() {
        let x = long[short.len() as int];
        assert(lists(short, x as int));
        let m = choose|m: int| 0 <= m < short.len() && short[m] == x;
        assert(long[m] == x);
        assert(ranks_before(d, long[m] as int, long[short.len() as int] as int));
    }
}

/// The stable ordering of indices by ascending distance.
pub fn ranking_order(distances: &Vec<usize>) -> (order: Vec<usize>)
    ensures
        is_stable_ranking(distances@, order@),
        order.len() == distances.len(),
{
    let n = distances.len();
    let mut order: Vec<usize> = Vec::new();
    for m in 0..n
        invariant
            n == distances.len(),
            ranks_prefix(distances@, m as int, order@),
            order.len() == m,
    {
        let dm = distances[m];
        let mut p: usize = 0;
        while p < order.len() && distances[order[p]] <= dm
            invariant
                n == distances.len(),
                ranks_prefix(distances@, m as int, order@),
                order.len() == m,
                m < n,
                dm == distances@[m as int],
                p <= order.len(),
                forall|x: int| 0 <= x < p ==> distances@[#[trigger] order@[x] as int] <= dm,
            decreases order.len() - p,
        {
            p = p + 1;
        }
        let ghost old_order = order@;
        proof {
            old_order.insert_ensures(p as int, m);
        }
        order.insert(p, m);
        proof {
            let d = distances@;
            let o = order@;
            assert forall|k: int| 0 <= k < o.len() implies #[trigger] o[k] < m + 1 by {
                if k < p {
                    assert(o[k] == old_order[k]);
                } else if k > p {
                    assert(o[k] == old_order[k - 1]);
                }
            }
            assert forall|j: int| 0 <= j < m + 1 implies #[trigger] lists(o, j) by {
                if j == m {
                    assert(o[p as int] == j);
                } else {
                    assert(lists(old_order, j));
                    let k0 = choose|k: int| 0 <= k < old_order.len() && old_order[k] == j;
                    if k0 < p {
                        assert(o[k0] == j);
                    } else {
                        assert(o[k0 + 1] == j);
                    }
                }
            }
            assert forall|a: int, b: int| 0 <= a < b < o.len() implies ranks_before(
                d,
                #[trigger] o[a] as int,
                #[trigger] o[b] as int,
            ) by {
                if a < p && b < p {
                    assert(ranks_before(d, old_order[a] as int, old_order[b] as int));
                } else if a < p && b == p {
                    assert(o[a] == old_order[a]);
                    assert(d[old_order[a] as int] <= dm);
                } else if a < p {
                    assert(o[b] == old_order[b - 1]);
                    assert(ranks_before(d, old_order[a] as int, old_order[b - 1] as int));
                } else if a == p {
                    assert(o[b] == old_order[b - 1]);
                    assert(!(d[old_order[p as int] as int] <= dm));
                    if b - 1 > p {
                        assert(ranks_before(d, old_order[p as int] as int, old_order[b - 1] as int));
                    }
                } else {
                    assert(o[a] == old_order[a - 1]);
                    assert(o[b] == old_order[b - 1]);
                    assert(ranks_before(d, old_order[a - 1] as int, old_order[b - 1] as int));
                }
            }
        }
    }
    order
}

} // verus!
