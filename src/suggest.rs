use vstd::prelude::*;

use crate::ranking::{is_stable_ranking, lemma_stable_ranking_unique, ranking_order, stable_ranking};
use crate::types::{contains_text, texts};

verus! {

/// Classic Levenshtein distance over code points: the least number of
/// single-character insertions, deletions and substitutions turning `a` into `b`.
pub open spec fn edit_distance(a: Seq<char>, b: Seq<char>) -> nat
    decreases a.len() + b.len(),
{
    if a.len() == 0 {
        b.len()
    } else if b.len() == 0 {
        a.len()
    } else {
        let del = edit_distance(a.drop_last(), b) + 1;
        let ins = edit_distance(a, b.drop_last()) + 1;
        let sub = edit_distance(a.drop_last(), b.drop_last()) + if a.last() == b.last() {
            0nat
        } else {
            1nat
        };
        if del <= ins && del <= sub {
            del
        } else if ins <= sub {
            ins
        } else {
            sub
        }
    }
}

/// What lowercasing turns a string into (full Unicode case mapping).
pub uninterp spec fn lower_of(s: Seq<char>) -> Seq<char>;

/// Relies on str::to_lowercase: the lowercase mapping of every char of `s`.
#[verifier::external_body]
pub(crate) fn to_lowercase(s: &str) -> (r: String)
    ensures
        r@ == lower_of(s@),
{
    s.to_lowercase()
}

/// Relies on strsim::levenshtein: the minimum number of single-char insertions,
/// deletions and substitutions between the two strings, counted over chars.
#[verifier::external_body]
fn levenshtein(a: &str, b: &str) -> (r: usize)
    ensures
        r == edit_distance(a@, b@),
{
    strsim::levenshtein(a, b)
}

/// Distance of each candidate to the query, both lowercased.
pub open spec fn distance_seq(candidates: Seq<Seq<char>>, query: Seq<char>) -> Seq<usize> {
    Seq::new(
        candidates.len(),
        |i: int| edit_distance(lower_of(candidates[i]), lower_of(query)) as usize,
    )
}

/// The distance of every candidate to the query, both lowercased first.
pub fn distances_to(candidates: &Vec<String>, query: &str) -> (d: Vec<usize>)
    ensures
        d@ == distance_seq(texts(candidates@), query@),
{
    let q = to_lowercase(query);
    let mut d: Vec<usize> = Vec::new();
    let mut i: usize = 0;
    while i < candidates.len()
        invariant
            i <= candidates.len(),
            q@ == lower_of(query@),
            d@ =~= distance_seq(texts(candidates@), query@).subrange(0, i as int),
        decreases candidates.len() - i,
    {
        let c = to_lowercase(candidates[i].as_str());
        let k = levenshtein(c.as_str(), q.as_str());
        d.push(k);
        i = i + 1;
    }
    d
}

/// The first `limit` candidates in the stable ascending order of `distances`.
pub fn rank_by_distance(candidates: &Vec<String>, distances: &Vec<usize>, limit: usize) -> (r: Vec<
    String,
>)
    requires
        candidates.len() == distances.len(),
    ensures
        is_stable_ranking(distances@, stable_ranking(distances@)),
        r.len() == if limit < candidates.len() {
            limit as int
        } else {
            candidates.len() as int
        },
        forall|k: int|
            0 <= k < r.len() ==> #[trigger] r@[k]@ == candidates@[stable_ranking(
                distances@,
            )[k] as int]@,
{
    let order = ranking_order(distances);
    proof {
        lemma_stable_ranking_unique(distances@, order@, stable_ranking(distances@));
    }
    let n = if limit < order.len() {
        limit
    } else {
        order.len()
    };
    let mut r: Vec<String> = Vec::new();
    let mut k: usize = 0;
    while k < n
        invariant
            n <= order.len(),
            order.len() == candidates.len(),
            candidates.len() == distances.len(),
            is_stable_ranking(distances@, order@),
            k <= n,
            r.len() == k,
            forall|j: int| 0 <= j < k ==> #[trigger] r@[j]@ == candidates@[order@[j] as int]@,
        decreases n - k,
    {
        r.push(candidates[order[k]].clone());
        k = k + 1;
    }
    r
}

/// The `limit` candidates closest to `query`, ranked by lowercase edit
/// distance, ties in their original order.
pub fn rank_candidates(candidates: &Vec<String>, query: &str, limit: usize) -> (r: Vec<String>)
    ensures
        is_stable_ranking(
            distance_seq(texts(candidates@), query@),
            stable_ranking(distance_seq(texts(candidates@), query@)),
        ),
        r.len() == if limit < candidates.len() {
            limit as int
        } else {
            candidates.len() as int
        },
        forall|k: int|
            0 <= k < r.len() ==> #[trigger] r@[k]@ == candidates@[stable_ranking(
                distance_seq(texts(candidates@), query@),
            )[k] as int]@,
{
    let d = distances_to(candidates, query);
    rank_by_distance(candidates, &d, limit)
}

/// The candidates that are new to `seen`, in order, each compared exactly.
pub open spec fn fresh(seen: Seq<Seq<char>>, xs: Seq<Seq<char>>) -> Seq<Seq<char>>
    decreases xs.len(),
{
    if xs.len() == 0 {
        Seq::empty()
    } else {
        let f = fresh(seen, xs.drop_last());
        if seen.contains(xs.last()) {
            f
        } else {
            f.push(xs.last())
        }
    }
}

/// The candidate pool: the prefix matches, then each substring match that is
/// not already among them.
pub fn merge_candidate_pools(prefix_hits: Vec<String>, substring_hits: &Vec<String>) -> (r: Vec<
    String,
>)
    ensures
        texts(r@) == texts(prefix_hits@) + fresh(texts(prefix_hits@), texts(substring_hits@)),
{
    let ghost seen = texts(prefix_hits@);
    let mut extra: Vec<String> = Vec::new();
    let mut i: usize = 0;
    while i < substring_hits.len()
        invariant
            i <= substring_hits.len(),
            seen == texts(prefix_hits@),
            texts(extra@) == fresh(seen, texts(substring_hits@.subrange(0, i as int))),
        decreases substring_hits.len() - i,
    {
        let ghost xs = texts(substring_hits@.subrange(0, i as int + 1));
        assert(xs.drop_last() =~= texts(substring_hits@.subrange(0, i as int)));
        assert(xs.last() == substring_hits@[i as int]@);
        if !contains_text(&prefix_hits, &substring_hits[i]) {
            extra.push(substring_hits[i].clone());
            assert(texts(extra@) =~= fresh(seen, xs));
        }
        i = i + 1;
    }
    assert(substring_hits@.subrange(0, i as int) =~= substring_hits@);
    let mut r = prefix_hits;
    r.append(&mut extra);
    assert(texts(r@) =~= seen + fresh(seen, texts(substring_hits@)));
    r
}

/// The suggestions for `query`: the merged candidate pool, ranked by edit
/// distance and cut to `limit`.
pub fn fuzzy_suggestions(
    prefix_hits: Vec<String>,
    substring_hits: &Vec<String>,
    query: &str,
    limit: usize,
) -> (r: Vec<String>)
    ensures
        ({
            let pool = texts(prefix_hits@) + fresh(texts(prefix_hits@), texts(substring_hits@));
            &&& r.len() == if limit < pool.len() {
                limit as int
            } else {
                pool.len() as int
            }
            &&& forall|k: int|
                0 <= k < r.len() ==> #[trigger] r@[k]@ == pool[stable_ranking(
                    distance_seq(pool, query@),
                )[k] as int]
        }),
{
    let pool = merge_candidate_pools(prefix_hits, substring_hits);
    let r = rank_candidates(&pool, query, limit);
    proof {
        assert forall|k: int| 0 <= k < r.len() implies #[trigger] r@[k]@ == texts(pool@)[stable_ranking(
            distance_seq(texts(pool@), query@),
        )[k] as int] by {
            let dd = distance_seq(texts(pool@), query@);
            let o = stable_ranking(dd);
            assert(is_stable_ranking(dd, o));
            assert(o[k] < dd.len());
            let j = o[k] as int;
            assert(0 <= j < pool.len());
            assert(r@[k]@ == pool@[j]@);
            assert(texts(pool@)[j] == pool@[j]@);
        }
    }
    r
}

/// `n` times `limit`, or the largest `usize` where that does not fit.
pub open spec fn scaled_cap(limit: usize, n: int) -> usize {
    if n * limit > usize::MAX {
        usize::MAX
    } else {
        (n * limit) as usize
    }
}

/// How many prefix matches to fetch when `limit` suggestions are wanted.
pub fn prefix_scan_cap(limit: usize) -> (r: usize)
    ensures
        r == scaled_cap(limit, 2),
{
    if limit > usize::MAX / 2 {
        usize::MAX
    } else {
        limit * 2
    }
}

/// How many substring matches to fetch after `found` prefix matches: none when
/// the prefix matches already reach `limit`.
pub fn substring_scan_cap(found: usize, limit: usize) -> (r: Option<usize>)
    ensures
        found >= limit ==> r is None,
        found < limit ==> r == Some(scaled_cap(limit, 3)),
{
    if found >= limit {
        None
    } else if limit > usize::MAX / 3 {
        Some(usize::MAX)
    } else {
        Some(limit * 3)
    }
}

} // verus!
