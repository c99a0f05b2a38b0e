//! Putting fetched bars in time order.
//!
//! Bars come back from the provider in pages and segments; before the engine
//! sees them they are sorted by time, keeping bars with equal times in the order
//! they arrived, and, for merged segments, only the first bar of each time is kept.
//! The functions here compute the order as indices into the fetched bars.

use vstd::prelude::*;
use vstd::relations::sorted_by;
use crate::validation::strictly_increasing;

verus! {

broadcast use vstd::seq_lib::group_to_multiset_ensures;

/// Lexicographic order on `(time, index)` pairs.
pub open spec fn pair_leq() -> spec_fn((i64, usize), (i64, usize)) -> bool {
    |a: (i64, usize), b: (i64, usize)| a.0 < b.0 || (a.0 == b.0 && a.1 <= b.1)
}

/// Sorts `(time, index)` pairs in ascending lexicographic order.
///
/// Calls `<[(i64, usize)]>::sort_unstable`, which std documents as sorting in
/// ascending order of the tuples' `Ord`, lexicographic for tuples; the contract
/// claims the result is so sorted and holds the same pairs, each as often as before.
#[verifier::external_body]
fn sort_pairs(v: &mut Vec<(i64, usize)>)
    ensures
        final(v)@.to_multiset() == old(v)@.to_multiset(),
        sorted_by(final(v)@, pair_leq()),
{
    v.sort_unstable();
}

/// Index `i` occurs in `order`.
pub open spec fn listed(order: Seq<usize>, i: int) -> bool {
    exists|k: int| 0 <= k < order.len() && order[k] == i
}

/// Index `i` is the second component of some pair.
pub open spec fn paired(pairs: Seq<(i64, usize)>, i: int) -> bool {
    exists|k: int| 0 <= k < pairs.len() && pairs[k].1 == i
}

/// `order` lists every index below `n` exactly once.
pub open spec fn is_permutation_of_indices(order: Seq<usize>, n: nat) -> bool {
    &&& order.len() == n
    &&& forall|k: int| 0 <= k < order.len() ==> #[trigger] order[k] < n
    &&& forall|i: int| 0 <= i < n ==> #[trigger] listed(order, i)
}

/// `order` sorts the bars by time, earlier arrivals first among equal times.
pub open spec fn stably_ordered(ts: Seq<i64>, order: Seq<usize>) -> bool {
    forall|k: int| 0 <= k < order.len() - 1 ==>
        ts[order[k] as int] < ts[#[trigger] order[k + 1] as int]
        || (ts[order[k] as int] == ts[order[k + 1] as int] && order[k] < order[k + 1])
}

/// The `(time, index)` pairs of a series, in index order.
pub open spec fn indexed(ts: Seq<i64>) -> Seq<(i64, usize)> {
    Seq::new(ts.len(), |i: int| (ts[i], i as usize))
}

/// Sorts the pairs of `ts` and states what the result is made of.
fn sorted_pairs(ts: &Vec<i64>) -> (pairs: Vec<(i64, usize)>)
    ensures
        pairs@.len() == ts@.len(),
        sorted_by(pairs@, pair_leq()),
        forall|k: int| 0 <= k < pairs@.len() ==> (#[trigger] pairs@[k as int]).1 < ts@.len() && pairs@[k].0 == ts@[pairs@[k].1 as int],
        forall|i: int| 0 <= i < ts@.len() ==> #[trigger] paired(pairs@, i),
        forall|j: int, k: int| 0 <= j < k < pairs@.len() ==> pairs@[j].1 != pairs@[k].1,
{
    let n = ts.len();
    let mut pairs: Vec<(i64, usize)> = Vec::new();
    let mut i: usize = 0;
    while i < n
        invariant
            i <= n,
            n == ts@.len(),
            pairs@ == indexed(ts@).subrange(0, i as int),
        decreases n - i,
    {
        pairs.push((ts[i], i));
        assert(pairs@ =~= indexed(ts@).subrange(0, i as int + 1));
        i = i + 1;
    }
    let ghost before = pairs@;
    assert(before =~= indexed(ts@));
    sort_pairs(&mut pairs);
    proof {
        let after = pairs@;
        assert(after.len() == after.to_multiset().len());
        assert(before.len() == before.to_multiset().len());
        assert forall|k: int| 0 <= k < after.len() implies (#[trigger] after[k]).1 < ts@.len() && after[k].0 == ts@[after[k].1 as int] by {
            assert(after.contains(after[k]));
            assert(after.to_multiset().count(after[k]) > 0);
            assert(before.contains(after[k]));
        }
        assert forall|i: int| 0 <= i < ts@.len() implies #[trigger] paired(after, i) by {
            assert(before[i] == (ts@[i], i as usize));
            assert(before.contains(before[i]));
            assert(before.to_multiset().count(before[i]) > 0);
            assert(after.contains(before[i]));
            let k = choose|k: int| 0 <= k < after.len() && after[k] == before[i];
            assert(after[k].1 == i);
        }
        assert forall|j: int, k: int| 0 <= j < k < after.len() implies after[j].1 != after[k].1 by {
            if after[j].1 == after[k].1 {
                assert(after[j] == after[k]);
                lemma_count_two(after, j, k);
                assert(before.to_multiset().count(after[j]) >= 2);
                lemma_indexed_count(ts@, after[j]);
                assert(before.to_multiset().count(after[j]) <= 1);
            }
        }
    }
    pairs
}

/// A value at two positions of a sequence is counted at least twice.
proof fn lemma_count_two<A>(s: Seq<A>, j: int, k: int)
    requires
        0 <= j < k < s.len(),
        s[j] == s[k],
    ensures
        s.to_multiset().count(s[j]) >= 2,
{
    let t = s.remove(k);
    assert(t.to_multiset() == s.to_multiset().remove(s[k]));
    assert(t[j] == s[j]);
    assert(t.contains(s[j]));
    assert(t.to_multiset().count(s[j]) > 0);
}

/// Every pair of an indexed series occurs at most once.
proof fn lemma_indexed_count(ts: Seq<i64>, p: (i64, usize))
    requires
        ts.len() <= usize::MAX,
    ensures
        indexed(ts).to_multiset().count(p) <= 1,
    decreases ts.len(),
{
    let s = indexed(ts);
    if ts.len() > 0 {
        let pre = ts.drop_last();
        lemma_indexed_count(pre, p);
        assert(indexed(pre) =~= s.drop_last());
        assert(s =~= s.drop_last().push(s.last()));
        assert(s.to_multiset() == s.drop_last().to_multiset().insert(s.last()));
        if p == s.last() {
            assert(!s.drop_last().contains(p)) by {
                if s.drop_last().contains(p) {
                    let k = choose|k: int| 0 <= k < s.drop_last().len() && s.drop_last()[k] == p;
                    assert(s.drop_last()[k].1 == k as usize);
                }
            }
        }
    }
}

/// The order in which the bars sort by time, bars with equal times kept in the
/// order they arrived (a stable sort by timestamp).
pub fn time_order(ts: &Vec<i64>) -> (order: Vec<usize>)
    ensures
        is_permutation_of_indices(order@, ts@.len()),
        stably_ordered(ts@, order@),
{
    let pairs = sorted_pairs(ts);
    let mut order: Vec<usize> = Vec::new();
    let mut k: usize = 0;
    while k < pairs.len()
        invariant
            k <= pairs@.len(),
            order@.len() == k,
            forall|j: int| 0 <= j < k ==> #[trigger] order@[j] == pairs@[j].1,
        decreases pairs@.len() - k,
    {
        order.push(pairs[k].1);
        k = k + 1;
    }
    proof {
        assert forall|i: int| 0 <= i < ts@.len() implies #[trigger] listed(order@, i) by {
            assert(paired(pairs@, i));
            let k = choose|k: int| 0 <= k < pairs@.len() && pairs@[k].1 == i;
            assert(order@[k] == pairs@[k].1);
        }
        assert forall|k: int| 0 <= k < order@.len() - 1 implies
            ts@[order@[k] as int] < ts@[#[trigger] order@[k + 1] as int]
            || (ts@[order@[k] as int] == ts@[order@[k + 1] as int] && order@[k] < order@[k + 1]) by {
            assert(pair_leq()(pairs@[k], pairs@[k + 1]));
            assert(pairs@[k].1 != pairs@[k + 1].1);
        }
    }
    order
}

/// Some bar of `order` has time `t`.
pub open spec fn time_kept(ts: Seq<i64>, order: Seq<usize>, t: i64) -> bool {
    exists|k: int| 0 <= k < order.len() && ts[order[k] as int] == t
}

/// `order` keeps one bar per distinct time, the first to arrive, in time order.
pub open spec fn first_per_time(ts: Seq<i64>, order: Seq<usize>) -> bool {
    &&& forall|k: int| 0 <= k < order.len() ==> #[trigger] order[k] < ts.len()
    &&& forall|j: int, k: int| 0 <= j < k < order.len() ==> ts[order[j] as int] < ts[order[k] as int]
    &&& forall|k: int, i: int| 0 <= k < order.len() && 0 <= i < order[k] ==> #[trigger] ts[i] != ts[#[trigger] order[k] as int]
    &&& forall|i: int| 0 <= i < ts.len() ==> time_kept(ts, order, #[trigger] ts[i])
}

/// The bars to keep, in time order, when merged segments may repeat bars: one bar
/// per timestamp, the first to arrive (a stable sort by timestamp, then dropping
/// each bar whose timestamp equals the one before it).
pub fn first_per_time_order(ts: &Vec<i64>) -> (order: Vec<usize>)
    ensures
        first_per_time(ts@, order@),
{
    let pairs = sorted_pairs(ts);
    let mut order: Vec<usize> = Vec::new();
    let mut k: usize = 0;
    while k < pairs.len()
        invariant
            k <= pairs@.len(),
            pairs@.len() == ts@.len(),
            sorted_by(pairs@, pair_leq()),
            forall|k: int| 0 <= k < pairs@.len() ==> (#[trigger] pairs@[k as int]).1 < ts@.len() && pairs@[k].0 == ts@[pairs@[k].1 as int],
            forall|i: int| 0 <= i < ts@.len() ==> #[trigger] paired(pairs@, i),
            forall|a: int, b: int| 0 <= a < b < pairs@.len() ==> pairs@[a].1 != pairs@[b].1,
            // what is kept so far
            forall|j: int| 0 <= j < order@.len() ==> exists|m: int| 0 <= m < k && #[trigger] order@[j] == pairs@[m].1,
            forall|a: int, b: int| 0 <= a < b < order@.len() ==> ts@[order@[a] as int] < ts@[order@[b] as int],
            k > 0 ==> order@.len() > 0 && ts@[order@.last() as int] == pairs@[k - 1].0,
            forall|m: int| 0 <= m < k ==> time_kept(ts@, order@, #[trigger] pairs@[m].0),
            forall|j: int| 0 <= j < order@.len() ==> forall|m: int| 0 <= m < pairs@.len() && pairs@[m].0 == ts@[#[trigger] order@[j] as int]
                ==> order@[j] <= pairs@[m].1,
        decreases pairs@.len() - k,
    {
        let (t, i) = pairs[k];
        if k == 0 || pairs[k - 1].0 != t {
            proof {
                // pairs with time t come at or after k, sorted by index
                assert forall|m: int| 0 <= m < pairs@.len() && pairs@[m].0 == t implies i <= pairs@[m].1 by {
                    if m < k {
                        assert(pair_leq()(pairs@[m], pairs@[k - 1]));
                        assert(pair_leq()(pairs@[k - 1], pairs@[k as int]));
                    } else if m > k {
                        assert(pair_leq()(pairs@[k as int], pairs@[m]));
                    }
                }
                if k > 0 {
                    assert(pair_leq()(pairs@[k - 1], pairs@[k as int]));
                }
            }
            let ghost before = order@;
            order.push(i);
            proof {
                assert forall|j: int| 0 <= j < order@.len() implies exists|m: int| 0 <= m < k + 1 && #[trigger] order@[j] == pairs@[m].1 by {
                    if j < before.len() {
                        assert(order@[j] == before[j]);
                    } else {
                        assert(order@[j] == pairs@[k as int].1);
                    }
                }
                assert forall|m: int| 0 <= m < k + 1 implies time_kept(ts@, order@, #[trigger] pairs@[m].0) by {
                    if m < k {
                        assert(time_kept(ts@, before, pairs@[m].0));
                        let j = choose|j: int| 0 <= j < before.len() && ts@[before[j] as int] == pairs@[m].0;
                        assert(order@[j] == before[j]);
                    } else {
                        assert(order@[order@.len() - 1] == i);
                    }
                }
                assert forall|j: int| 0 <= j < order@.len() implies forall|m: int| 0 <= m < pairs@.len() && pairs@[m].0 == ts@[#[trigger] order@[j] as int]
                    ==> order@[j] <= pairs@[m].1 by {
                    if j < before.len() {
                        assert(order@[j] == before[j]);
                    }
                }
            }
        } else {
            proof {
                assert(pair_leq()(pairs@[k - 1], pairs@[k as int]));
                assert forall|m: int| 0 <= m < k + 1 implies time_kept(ts@, order@, #[trigger] pairs@[m].0) by {
                    if m == k {
                        assert(ts@[order@[order@.len() - 1] as int] == pairs@[m].0);
                    }
                }
            }
        }
        k = k + 1;
    }
    proof {
        assert forall|k: int| 0 <= k < order@.len() implies #[trigger] order@[k] < ts@.len() by {
            let m = choose|m: int| 0 <= m < pairs@.len() && #[trigger] order@[k] == pairs@[m].1;
        }
        assert forall|q: int, i: int| 0 <= q < order@.len() && 0 <= i < order@[q] implies #[trigger] ts@[i] != ts@[#[trigger] order@[q] as int] by {
            if ts@[i] == ts@[order@[q] as int] {
                assert(paired(pairs@, i));
                let m = choose|m: int| 0 <= m < pairs@.len() && pairs@[m].1 == i;
                assert(pairs@[m].0 == ts@[i]);
            }
        }
        assert forall|i: int| 0 <= i < ts@.len() implies time_kept(ts@, order@, #[trigger] ts@[i]) by {
            assert(paired(pairs@, i));
            let m = choose|m: int| 0 <= m < pairs@.len() && pairs@[m].1 == i;
            assert(time_kept(ts@, order@, pairs@[m].0));
        }
    }
    order
}

/// Merged bars come out in strictly increasing time order, so they pass the
/// engine's ordering check ([`crate::validation::check_backtest_inputs`]).
pub proof fn lemma_merged_times_increase(ts: Seq<i64>, order: Seq<usize>)
    requires
        first_per_time(ts, order),
    ensures
        strictly_increasing(order.map_values(|i: usize| ts[i as int])),
{
    let kept = order.map_values(|i: usize| ts[i as int]);
    assert forall|k: int| 0 <= k < kept.len() - 1 implies #[trigger] kept[k] < kept[k + 1] by {
        assert(ts[order[k] as int] < ts[order[k + 1] as int]);
    }
}

} // verus!
