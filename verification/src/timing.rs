//! Bar spacing: the median gap between consecutive bar timestamps.
//!
//! The gap is kept in milliseconds and doubled, so that the median of an even
//! number of gaps (the mean of the two middle gaps) stays an integer; the caller
//! divides by 2000 for seconds.

use vstd::prelude::*;
use vstd::relations::sorted_by;

verus! {

broadcast use vstd::seq_lib::group_to_multiset_ensures;

/// The order that gaps are sorted by.
pub open spec fn leq_i64() -> spec_fn(i64, i64) -> bool {
    |a: i64, b: i64| a <= b
}

/// Consecutive timestamp differences fit in `i64`.
pub open spec fn gaps_fit(ts: Seq<i64>) -> bool {
    forall|k: int| 0 <= k < ts.len() - 1 ==> i64::MIN <= #[trigger] ts[k + 1] - ts[k] <= i64::MAX
}

/// The positive differences between consecutive timestamps, in order.
pub open spec fn spec_positive_gaps(ts: Seq<i64>) -> Seq<i64>
    decreases ts.len(),
{
    if ts.len() < 2 {
        Seq::empty()
    } else {
        let prev = spec_positive_gaps(ts.drop_last());
        let d = ts[ts.len() - 1] - ts[ts.len() - 2];
        if d > 0 {
            prev.push(d as i64)
        } else {
            prev
        }
    }
}

/// Twice the median of a sorted sequence (0 when it is empty).
pub open spec fn spec_twice_median(s: Seq<i64>) -> int {
    if s.len() == 0 {
        0
    } else if s.len() % 2 == 1 {
        2 * s[(s.len() / 2) as int]
    } else {
        s[s.len() / 2 - 1] + s[(s.len() / 2) as int]
    }
}

/// Twice the median positive gap, in milliseconds, between consecutive timestamps;
/// 0 when there is no positive gap.
pub open spec fn spec_median_gap_twice_ms(ts: Seq<i64>) -> int {
    spec_twice_median(spec_positive_gaps(ts).sort_by(leq_i64()))
}

/// Sorts `v` in ascending order.
///
/// Calls `<[i64]>::sort_unstable`, which std documents as sorting the slice in
/// ascending order; the contract claims the result is sorted and holds the same
/// elements, each as often as before.
#[verifier::external_body]
fn sort_gaps(v: &mut Vec<i64>)
    ensures
        final(v)@.to_multiset() == old(v)@.to_multiset(),
        sorted_by(final(v)@, leq_i64()),
{
    v.sort_unstable();
}

/// Two sorted sequences with the same elements are equal.
pub proof fn lemma_sorted_permutation_unique(s: Seq<i64>, t: Seq<i64>)
    requires
        sorted_by(s, leq_i64()),
        sorted_by(t, leq_i64()),
        s.to_multiset() == t.to_multiset(),
    ensures
        s == t,
    decreases s.len(),
{
    assert(s.len() == s.to_multiset().len());
    assert(t.len() == t.to_multiset().len());
    if s.len() > 0 {
        assert(s.to_multiset().count(s[0]) > 0) by {
            assert(s.contains(s[0]));
        }
        assert(t.contains(s[0]));
        let k = choose|k: int| 0 <= k < t.len() && t[k] == s[0];
        assert(t[0] <= t[k]) by {
            if k > 0 {
                assert(leq_i64()(t[0], t[k]));
            }
        }
        assert(t.to_multiset().count(t[0]) > 0) by {
            assert(t.contains(t[0]));
        }
        assert(s.contains(t[0]));
        let j = choose|j: int| 0 <= j < s.len() && s[j] == t[0];
        assert(s[0] <= s[j]) by {
            if j > 0 {
                assert(leq_i64()(s[0], s[j]));
            }
        }
        assert(s[0] == t[0]);
        let s1 = s.remove(0);
        let t1 = t.remove(0);
        assert(s1.to_multiset() == s.to_multiset().remove(s[0]));
        assert(t1.to_multiset() == t.to_multiset().remove(t[0]));
        assert(sorted_by(s1, leq_i64())) by {
            assert forall|a: int, b: int| 0 <= a < b < s1.len() implies leq_i64()(s1[a], s1[b]) by {
                assert(s1[a] == s[a + 1]);
                assert(s1[b] == s[b + 1]);
            }
        }
        assert(sorted_by(t1, leq_i64())) by {
            assert forall|a: int, b: int| 0 <= a < b < t1.len() implies leq_i64()(t1[a], t1[b]) by {
                assert(t1[a] == t[a + 1]);
                assert(t1[b] == t[b + 1]);
            }
        }
        lemma_sorted_permutation_unique(s1, t1);
        assert forall|i: int| 0 <= i < s.len() implies s[i] == t[i] by {
            if i > 0 {
                assert(s[i] == s1[i - 1]);
                assert(t[i] == t1[i - 1]);
            }
        }
        assert(s =~= t);
    }
}

/// Twice the median gap, in milliseconds, between consecutive bar timestamps.
///
/// Only positive gaps count; the result is 0 when there are fewer than two
/// timestamps or no positive gap. With an even number of gaps the median is the
/// mean of the two middle ones, so twice the median is their sum.
pub fn median_gap_twice_ms(timestamps: &Vec<i64>) -> (twice_ms: i128)
    requires
        gaps_fit(timestamps@),
    ensures
        twice_ms == spec_median_gap_twice_ms(timestamps@),
        twice_ms >= 0,
        twice_ms == 0 <==> spec_positive_gaps(timestamps@).len() == 0,
{
    let n = timestamps.len();
    let mut gaps: Vec<i64> = Vec::new();
    if n >= 2 {
        let mut k: usize = 1;
        while k < n
            invariant
                1 <= k <= n,
                n == timestamps@.len(),
                gaps_fit(timestamps@),
                gaps@ == spec_positive_gaps(timestamps@.subrange(0, k as int)),
            decreases n - k,
        {
            let ghost pre = timestamps@.subrange(0, k as int);
            let ghost cur = timestamps@.subrange(0, k as int + 1);
            assert(cur.drop_last() =~= pre);
            assert(i64::MIN <= timestamps@[k as int] - timestamps@[k as int - 1] <= i64::MAX) by {
                assert(timestamps@[(k - 1) as int + 1] == timestamps@[k as int]);
            }
            let d: i64 = timestamps[k] - timestamps[k - 1];
            if d > 0 {
                gaps.push(d);
            }
            k = k + 1;
        }
        assert(timestamps@.subrange(0, n as int) =~= timestamps@);
    } else {
        assert(spec_positive_gaps(timestamps@) =~= Seq::<i64>::empty());
    }
    assert(forall|i: int| 0 <= i < gaps@.len() ==> gaps@[i] > 0) by {
        lemma_positive_gaps_positive(timestamps@);
    }
    let ghost unsorted = gaps@;
    sort_gaps(&mut gaps);
    proof {
        unsorted.lemma_sort_by_ensures(leq_i64());
        lemma_sorted_permutation_unique(gaps@, unsorted.sort_by(leq_i64()));
        assert forall|i: int| 0 <= i < gaps@.len() implies gaps@[i] > 0 by {
            assert(gaps@.contains(gaps@[i]));
            assert(gaps@.to_multiset().count(gaps@[i]) > 0);
            assert(unsorted.contains(gaps@[i]));
        }
        assert(gaps@.len() == gaps@.to_multiset().len());
        assert(unsorted.len() == unsorted.to_multiset().len());
    }
    let m = gaps.len();
    if m == 0 {
        0
    } else if m % 2 == 1 {
        2 * (gaps[m / 2] as i128)
    } else {
        (gaps[m / 2 - 1] as i128) + (gaps[m / 2] as i128)
    }
}

/// Every gap that counts is positive.
proof fn lemma_positive_gaps_positive(ts: Seq<i64>)
    requires
        gaps_fit(ts),
    ensures
        forall|i: int| 0 <= i < spec_positive_gaps(ts).len() ==> spec_positive_gaps(ts)[i] > 0,
    decreases ts.len(),
{
    if ts.len() >= 2 {
        let pre = ts.drop_last();
        assert(gaps_fit(pre)) by {
            assert forall|k: int| 0 <= k < pre.len() - 1 implies i64::MIN <= #[trigger] pre[k + 1] - pre[k] <= i64::MAX by {
                assert(pre[k + 1] == ts[k + 1]);
                assert(pre[k] == ts[k]);
            }
        }
        lemma_positive_gaps_positive(pre);
        assert(i64::MIN <= ts[ts.len() - 1] - ts[ts.len() - 2] <= i64::MAX) by {
            assert(ts[(ts.len() - 2) + 1] == ts[ts.len() - 1]);
        }
        let prev = spec_positive_gaps(pre);
        let all = spec_positive_gaps(ts);
        assert forall|i: int| 0 <= i < all.len() implies all[i] > 0 by {
            if i < prev.len() {
                assert(all[i] == prev[i]);
            }
        }
    }
}

} // verus!
