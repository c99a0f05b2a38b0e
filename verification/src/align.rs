//! Aligning two bar series on their common timestamps.

use vstd::prelude::*;

verus! {

/// A value with the time it belongs to (Unix ms).
#[derive(Clone, Copy, Debug)]
pub struct Stamped<T> {
    pub t: i64,
    pub value: T,
}

/// The merge walk over two series: equal times are kept as a pair and both
/// sides advance; otherwise the side with the earlier time advances.
pub open spec fn spec_align<T>(a: Seq<Stamped<T>>, b: Seq<Stamped<T>>) -> (Seq<Stamped<T>>, Seq<Stamped<T>>)
    decreases a.len() + b.len(),
{
    if a.len() == 0 || b.len() == 0 {
        (Seq::empty(), Seq::empty())
    } else if a[0].t == b[0].t {
        let rest = spec_align(a.drop_first(), b.drop_first());
        (seq![a[0]] + rest.0, seq![b[0]] + rest.1)
    } else if a[0].t < b[0].t {
        spec_align(a.drop_first(), b)
    } else {
        spec_align(a, b.drop_first())
    }
}

/// Keeps the bars of `a` and `b` that share a timestamp, pairwise.
///
/// Walks both series from the start: when the current timestamps are equal both
/// bars are kept and both sides move on, otherwise the side with the earlier
/// timestamp moves on. For series sorted by time this keeps exactly the bars whose
/// timestamps appear in both (see [`lemma_align_sorted`]).
pub fn align_two<T: Copy>(a: &Vec<Stamped<T>>, b: &Vec<Stamped<T>>) -> (out: (Vec<Stamped<T>>, Vec<Stamped<T>>))
    ensures
        (out.0@, out.1@) == spec_align(a@, b@),
{
    let mut i: usize = 0;
    let mut j: usize = 0;
    let mut out_a: Vec<Stamped<T>> = Vec::new();
    let mut out_b: Vec<Stamped<T>> = Vec::new();
    assert(a@.skip(0) =~= a@);
    assert(b@.skip(0) =~= b@);
    assert(out_a@ + spec_align(a@, b@).0 =~= spec_align(a@, b@).0);
    assert(out_b@ + spec_align(a@, b@).1 =~= spec_align(a@, b@).1);
    while i < a.len() && j < b.len()
        invariant
            i <= a@.len(),
            j <= b@.len(),
            out_a@ + spec_align(a@.skip(i as int), b@.skip(j as int)).0 == spec_align(a@, b@).0,
            out_b@ + spec_align(a@.skip(i as int), b@.skip(j as int)).1 == spec_align(a@, b@).1,
        decreases a@.len() - i + b@.len() - j,
    {
        let ghost sa = a@.skip(i as int);
        let ghost sb = b@.skip(j as int);
        assert(sa.drop_first() =~= a@.skip(i as int + 1));
        assert(sb.drop_first() =~= b@.skip(j as int + 1));
        assert(sa[0] == a@[i as int]);
        assert(sb[0] == b@[j as int]);
        if a[i].t == b[j].t {
            let ghost rest = spec_align(sa.drop_first(), sb.drop_first());
            assert(out_a@.push(a@[i as int]) + rest.0 =~= out_a@ + (seq![a@[i as int]] + rest.0));
            assert(out_b@.push(b@[j as int]) + rest.1 =~= out_b@ + (seq![b@[j as int]] + rest.1));
            out_a.push(a[i]);
            out_b.push(b[j]);
            i = i + 1;
            j = j + 1;
        } else if a[i].t < b[j].t {
            i = i + 1;
        } else {
            j = j + 1;
        }
    }
    assert(spec_align(a@.skip(i as int), b@.skip(j as int)).0 =~= Seq::<Stamped<T>>::empty());
    assert(spec_align(a@.skip(i as int), b@.skip(j as int)).1 =~= Seq::<Stamped<T>>::empty());
    assert(out_a@ + Seq::<Stamped<T>>::empty() =~= out_a@);
    assert(out_b@ + Seq::<Stamped<T>>::empty() =~= out_b@);
    (out_a, out_b)
}

/// The times of a series.
pub open spec fn times<T>(s: Seq<Stamped<T>>) -> Seq<i64> {
    s.map_values(|x: Stamped<T>| x.t)
}

/// Whatever the inputs, the two aligned series have the same timestamps position
/// by position, so they always pass the pairs runner's alignment check
/// ([`crate::validation::check_pair_alignment`] accepts exactly equal timestamp
/// sequences).
pub proof fn lemma_aligned_times_agree<T>(a: Seq<Stamped<T>>, b: Seq<Stamped<T>>)
    ensures
        times(spec_align(a, b).0) == times(spec_align(a, b).1),
    decreases a.len() + b.len(),
{
    if a.len() == 0 || b.len() == 0 {
        assert(times(spec_align(a, b).0) =~= times(spec_align(a, b).1));
    } else if a[0].t == b[0].t {
        lemma_aligned_times_agree(a.drop_first(), b.drop_first());
        let rest = spec_align(a.drop_first(), b.drop_first());
        let out = spec_align(a, b);
        assert(times(out.0) =~= seq![a[0].t] + times(rest.0));
        assert(times(out.1) =~= seq![b[0].t] + times(rest.1));
    } else if a[0].t < b[0].t {
        lemma_aligned_times_agree(a.drop_first(), b);
    } else {
        lemma_aligned_times_agree(a, b.drop_first());
    }
}

/// Timestamps strictly increase along the series.
pub open spec fn sorted_by_time<T>(s: Seq<Stamped<T>>) -> bool {
    forall|i: int, j: int| 0 <= i < j < s.len() ==> s[i].t < s[j].t
}

/// Whether some element of `s` has time `t`.
pub open spec fn has_time<T>(s: Seq<Stamped<T>>, t: i64) -> bool {
    exists|i: int| 0 <= i < s.len() && #[trigger] s[i].t == t
}

/// Aligning two series sorted by time keeps, pairwise and in time order, exactly
/// the bars whose timestamps both series have: the kept bars of `a` and of `b`
/// agree on time position by position, every kept time is in both inputs, every
/// time that both inputs have is kept, and the kept times strictly increase.
pub proof fn lemma_align_sorted<T>(a: Seq<Stamped<T>>, b: Seq<Stamped<T>>)
    requires
        sorted_by_time(a),
        sorted_by_time(b),
    ensures
        spec_align(a, b).0.len() == spec_align(a, b).1.len(),
        forall|k: int| 0 <= k < spec_align(a, b).0.len() ==>
            (#[trigger] spec_align(a, b).0[k]).t == spec_align(a, b).1[k].t,
        forall|t: i64| has_time(spec_align(a, b).0, t) <==> has_time(a, t) && has_time(b, t),
        sorted_by_time(spec_align(a, b).0),
        forall|k: int| 0 <= k < spec_align(a, b).0.len() ==> a.contains(#[trigger] spec_align(a, b).0[k]),
        forall|k: int| 0 <= k < spec_align(a, b).1.len() ==> b.contains(#[trigger] spec_align(a, b).1[k]),
    decreases a.len() + b.len(),
{
    if a.len() == 0 || b.len() == 0 {
        assert forall|t: i64| has_time(spec_align(a, b).0, t) <==> has_time(a, t) && has_time(b, t) by {
            if has_time(a, t) && has_time(b, t) {
                let i = choose|i: int| 0 <= i < a.len() && #[trigger] a[i].t == t;
                let j = choose|j: int| 0 <= j < b.len() && #[trigger] b[j].t == t;
            }
        }
    } else {
        let a1 = a.drop_first();
        let b1 = b.drop_first();
        assert(sorted_by_time(a1)) by {
            assert forall|i: int, j: int| 0 <= i < j < a1.len() implies a1[i].t < a1[j].t by {
                assert(a1[i] == a[i + 1]);
                assert(a1[j] == a[j + 1]);
            }
        }
        assert(sorted_by_time(b1)) by {
            assert forall|i: int, j: int| 0 <= i < j < b1.len() implies b1[i].t < b1[j].t by {
                assert(b1[i] == b[i + 1]);
                assert(b1[j] == b[j + 1]);
            }
        }
        // has_time on a drop_first
        assert forall|t: i64| has_time(a, t) <==> (a[0].t == t || has_time(a1, t)) by {
            if has_time(a, t) {
                let i = choose|i: int| 0 <= i < a.len() && #[trigger] a[i].t == t;
                if i > 0 {
                    assert(a1[i - 1] == a[i]);
                }
            }
            if has_time(a1, t) {
                let i = choose|i: int| 0 <= i < a1.len() && #[trigger] a1[i].t == t;
                assert(a[i + 1] == a1[i]);
            }
        }
        assert forall|t: i64| has_time(b, t) <==> (b[0].t == t || has_time(b1, t)) by {
            if has_time(b, t) {
                let i = choose|i: int| 0 <= i < b.len() && #[trigger] b[i].t == t;
                if i > 0 {
                    assert(b1[i - 1] == b[i]);
                }
            }
            if has_time(b1, t) {
                let i = choose|i: int| 0 <= i < b1.len() && #[trigger] b1[i].t == t;
                assert(b[i + 1] == b1[i]);
            }
        }
        // the first elements are the smallest times
        assert forall|t: i64| has_time(a1, t) implies a[0].t < t by {
            let i = choose|i: int| 0 <= i < a1.len() && #[trigger] a1[i].t == t;
            assert(a1[i] == a[i + 1]);
        }
        assert forall|t: i64| has_time(b1, t) implies b[0].t < t by {
            let i = choose|i: int| 0 <= i < b1.len() && #[trigger] b1[i].t == t;
            assert(b1[i] == b[i + 1]);
        }
        if a[0].t == b[0].t {
            lemma_align_sorted(a1, b1);
            let rest = spec_align(a1, b1);
            let out = spec_align(a, b);
            assert(out.0 == seq![a[0]] + rest.0);
            assert(out.1 == seq![b[0]] + rest.1);
            assert forall|k: int| 0 <= k < out.0.len() implies (#[trigger] out.0[k]).t == out.1[k].t by {
                if k > 0 {
                    assert(out.0[k] == rest.0[k - 1]);
                    assert(out.1[k] == rest.1[k - 1]);
                }
            }
            assert forall|t: i64| has_time(out.0, t) <==> (a[0].t == t || has_time(rest.0, t)) by {
                if has_time(out.0, t) {
                    let i = choose|i: int| 0 <= i < out.0.len() && #[trigger] out.0[i].t == t;
                    if i > 0 {
                        assert(rest.0[i - 1] == out.0[i]);
                    }
                }
                if has_time(rest.0, t) {
                    let i = choose|i: int| 0 <= i < rest.0.len() && #[trigger] rest.0[i].t == t;
                    assert(out.0[i + 1] == rest.0[i]);
                }
                if a[0].t == t {
                    assert(out.0[0].t == t);
                }
            }
            assert(sorted_by_time(out.0)) by {
                assert forall|i: int, j: int| 0 <= i < j < out.0.len() implies out.0[i].t < out.0[j].t by {
                    assert(out.0[j] == rest.0[j - 1]);
                    assert(has_time(rest.0, rest.0[j - 1].t));
                    if i > 0 {
                        assert(out.0[i] == rest.0[i - 1]);
                    }
                }
            }
            assert forall|k: int| 0 <= k < out.0.len() implies a.contains(#[trigger] out.0[k]) by {
                if k == 0 {
                    assert(a[0] == out.0[0]);
                } else {
                    assert(out.0[k] == rest.0[k - 1]);
                    let i = choose|i: int| 0 <= i < a1.len() && a1[i] == rest.0[k - 1];
                    assert(a[i + 1] == a1[i]);
                }
            }
            assert forall|k: int| 0 <= k < out.1.len() implies b.contains(#[trigger] out.1[k]) by {
                if k == 0 {
                    assert(b[0] == out.1[0]);
                } else {
                    assert(out.1[k] == rest.1[k - 1]);
                    let i = choose|i: int| 0 <= i < b1.len() && b1[i] == rest.1[k - 1];
                    assert(b[i + 1] == b1[i]);
                }
            }
        } else if a[0].t < b[0].t {
            lemma_align_sorted(a1, b);
            let out = spec_align(a, b);
            assert(out == spec_align(a1, b));
            assert forall|k: int| 0 <= k < out.0.len() implies a.contains(#[trigger] out.0[k]) by {
                let i = choose|i: int| 0 <= i < a1.len() && a1[i] == out.0[k];
                assert(a[i + 1] == a1[i]);
            }
            assert forall|t: i64| has_time(out.0, t) <==> has_time(a, t) && has_time(b, t) by {
                if has_time(a, t) && has_time(b, t) && a[0].t == t {
                    // t would be below every time of b
                    assert(t < b[0].t);
                    let j = choose|j: int| 0 <= j < b.len() && #[trigger] b[j].t == t;
                    if j > 0 {
                        assert(b[0].t < b[j].t);
                    }
                }
            }
        } else {
            lemma_align_sorted(a, b1);
            let out = spec_align(a, b);
            assert(out == spec_align(a, b1));
            assert forall|k: int| 0 <= k < out.1.len() implies b.contains(#[trigger] out.1[k]) by {
                let i = choose|i: int| 0 <= i < b1.len() && b1[i] == out.1[k];
                assert(b[i + 1] == b1[i]);
            }
            assert forall|t: i64| has_time(out.0, t) <==> has_time(a, t) && has_time(b, t) by {
                if has_time(a, t) && has_time(b, t) && b[0].t == t {
                    assert(t < a[0].t);
                    let i = choose|i: int| 0 <= i < a.len() && #[trigger] a[i].t == t;
                    if i > 0 {
                        assert(a[0].t < a[i].t);
                    }
                }
            }
        }
    }
}

} // verus!
