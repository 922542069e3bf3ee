//! Median computation and the drift-acceptance rule.

use vstd::prelude::*;
use vstd::relations::{sorted_by, total_ordering};
use vstd::seq_lib::lemma_sorted_unique;

verus! {

/// The ascending order on price samples, as a relation.
pub open spec fn price_leq() -> spec_fn(u64, u64) -> bool {
    |a: u64, b: u64| a <= b
}

/// A sequence of samples in ascending order.
pub open spec fn sorted_ascending(s: Seq<u64>) -> bool {
    sorted_by(s, price_leq())
}

/// The ascending rearrangement of a sequence of samples.
pub open spec fn sorted_of(s: Seq<u64>) -> Seq<u64> {
    s.sort_by(price_leq())
}

/// The sum of a sequence of samples, as an unbounded integer.
pub open spec fn sum_of(s: Seq<u64>) -> int
    decreases s.len(),
{
    if s.len() == 0 {
        0
    } else {
        sum_of(s.drop_last()) + s.last()
    }
}

/// The arithmetic mean with the quotient rounded toward zero.
pub open spec fn mean_spec(s: Seq<u64>) -> int
    recommends
        s.len() > 0,
{
    sum_of(s) / s.len() as int
}

/// The median of a non-empty sequence: the middle element of the
/// ascending rearrangement, or, for an even count, the integer mean
/// (floor division) of the two middle elements.
pub open spec fn median_spec(s: Seq<u64>) -> u64
    recommends
        s.len() > 0,
{
    let t = sorted_of(s);
    let mid = s.len() as int / 2;
    if s.len() % 2 == 0 {
        ((t[mid - 1] + t[mid]) / 2) as u64
    } else {
        t[mid]
    }
}

pub proof fn lemma_price_leq_total_ordering()
    ensures
        total_ordering(price_leq()),
{
    assert forall|x: u64| #[trigger] price_leq()(x, x) by {}
}

/// Prefixes of a sequence of unsigned samples never sum to more than the
/// whole sequence does.
proof fn lemma_sum_prefix_le(s: Seq<u64>, n: int)
    requires
        0 <= n <= s.len(),
    ensures
        sum_of(s.subrange(0, n)) <= sum_of(s),
    decreases s.len() - n,
{
    if n == s.len() {
        assert(s.subrange(0, n) =~= s);
    } else {
        assert(s.subrange(0, n + 1).drop_last() =~= s.subrange(0, n));
        assert(s.subrange(0, n + 1).last() == s[n]);
        lemma_sum_prefix_le(s, n + 1);
    }
}

/// Returns a new vector holding the same samples in ascending order; the
/// input is left untouched.
pub fn sort_samples(v: &Vec<u64>) -> (r: Vec<u64>)
    ensures
        r@ == sorted_of(v@),
        sorted_ascending(r@),
        r@.to_multiset() == v@.to_multiset(),
        r@.len() == v@.len(),
{
    broadcast use vstd::seq_lib::group_to_multiset_ensures;

    let mut r: Vec<u64> = Vec::new();
    let mut i: usize = 0;
    while i < v.len()
        invariant
            i <= v@.len(),
            r@.len() == i,
            sorted_ascending(r@),
            r@.to_multiset() == v@.subrange(0, i as int).to_multiset(),
        decreases v@.len() - i,
    {
        let x = v[i];
        let mut j: usize = 0;
        while j < r.len() && r[j] <= x
            invariant
                j <= r@.len(),
                forall|k: int| 0 <= k < j ==> r@[k] <= x,
            decreases r@.len() - j,
        {
            j += 1;
        }
        let ghost old_r = r@;
        r.insert(j, x);
        proof {
            old_r.insert_ensures(j as int, x);
            assert(sorted_ascending(r@)) by {
                assert forall|p: int, q: int| 0 <= p < q < r@.len() implies price_leq()(
                    r@[p],
                    r@[q],
                ) by {
                    if q < j {
                        assert(price_leq()(old_r[p], old_r[q]));
                    } else if p > j {
                        assert(price_leq()(old_r[p - 1], old_r[q - 1]));
                    } else if p < j && q > j {
                        assert(price_leq()(old_r[p], old_r[q - 1]));
                    } else if q == j {
                        assert(r@[q] == x);
                    } else {
                        assert(p == j && q > j);
                        assert(j < old_r.len());
                        assert(old_r[j as int] > x);
                        if q - 1 > j {
                            assert(price_leq()(old_r[j as int], old_r[q - 1]));
                        }
                        assert(x <= old_r[q - 1]);
                    }
                }
            }
            assert(r@ == old_r.insert(j as int, x));
            vstd::seq_lib::to_multiset_insert(old_r, j as int, x);
            vstd::seq_lib::to_multiset_build(v@.subrange(0, i as int), x);
            assert(v@.subrange(0, i + 1) =~= v@.subrange(0, i as int).push(x));
            assert(r@.to_multiset() =~= v@.subrange(0, i + 1).to_multiset());
        }
        i += 1;
    }
    proof {
        assert(v@.subrange(0, v@.len() as int) =~= v@);
        v@.lemma_sort_by_ensures(price_leq());
        lemma_price_leq_total_ordering();
        lemma_sorted_unique(r@, sorted_of(v@), price_leq());
    }
    r
}

/// The arithmetic mean of the samples, summed in 64 bits and divided by
/// the count with the quotient truncated toward zero.
pub fn mean(numbers: &Vec<u64>) -> (r: u64)
    requires
        numbers@.len() > 0,
        sum_of(numbers@) <= u64::MAX,
    ensures
        r == mean_spec(numbers@),
{
    let mut sum: u64 = 0;
    let mut i: usize = 0;
    while i < numbers.len()
        invariant
            i <= numbers@.len(),
            sum == sum_of(numbers@.subrange(0, i as int)),
            sum_of(numbers@) <= u64::MAX,
        decreases numbers@.len() - i,
    {
        proof {
            lemma_sum_prefix_le(numbers@, i + 1);
            assert(numbers@.subrange(0, i + 1).drop_last() =~= numbers@.subrange(0, i as int));
            assert(numbers@.subrange(0, i + 1).last() == numbers@[i as int]);
        }
        sum = sum + numbers[i];
        i += 1;
    }
    proof {
        assert(numbers@.subrange(0, numbers@.len() as int) =~= numbers@);
    }
    sum / (numbers.len() as u64)
}

/// The median of a non-empty vector of samples. The sort operates on a
/// copy; the input keeps its order. For an even count the two middle
/// elements are averaged as `a + (b - a) / 2`, which never overflows and
/// equals the truncated integer mean `(a + b) / 2` exactly.
pub fn median(samples: &Vec<u64>) -> (r: u64)
    requires
        samples@.len() > 0,
    ensures
        r == median_spec(samples@),
{
    let sorted = sort_samples(samples);
    let mid = sorted.len() / 2;
    if sorted.len() % 2 == 0 {
        let a = sorted[mid - 1];
        let b = sorted[mid];
        proof {
            assert(price_leq()(sorted@[mid - 1], sorted@[mid as int]));
            assert(a + (b - a) / 2 == (a + b) / 2) by (nonlinear_arith)
                requires
                    a <= b,
            ;
        }
        a + (b - a) / 2
    } else {
        sorted[mid]
    }
}

/// Law (order independence): the median depends only on the multiset of
/// samples, never on their arrival order.
pub proof fn lemma_median_order_independent(s: Seq<u64>, t: Seq<u64>)
    requires
        s.len() > 0,
        s.to_multiset() == t.to_multiset(),
    ensures
        median_spec(s) == median_spec(t),
{
    s.to_multiset_ensures();
    t.to_multiset_ensures();
    assert(s.len() == t.len());
    s.lemma_sort_by_ensures(price_leq());
    t.lemma_sort_by_ensures(price_leq());
    lemma_price_leq_total_ordering();
    lemma_sorted_unique(sorted_of(s), sorted_of(t), price_leq());
    assert(sorted_of(s) == sorted_of(t));
}

/// Outcome of checking a proposed price against the consensus reference.
#[derive(Clone, Copy, Debug, PartialEq, Eq, Structural)]
pub enum Verdict {
    Accept,
    Reject,
}

/// Absolute difference between a proposed price and the reference median.
pub open spec fn drift_of(proposed: u64, reference: u64) -> int {
    if proposed >= reference {
        proposed - reference
    } else {
        reference - proposed
    }
}

/// A proposed price is acceptable when its drift from the reference
/// median is at most the tolerance.
pub open spec fn accepts(proposed: u64, reference: u64, tolerance: u64) -> bool {
    drift_of(proposed, reference) <= tolerance
}

/// Accepts `proposed` iff its absolute difference from `reference_median`
/// is at most `tolerance`. The difference is computed by branching on the
/// larger operand, so no unsigned subtraction can underflow.
pub fn verify(proposed: u64, reference_median: u64, tolerance: u64) -> (v: Verdict)
    ensures
        v == (if accepts(proposed, reference_median, tolerance) {
            Verdict::Accept
        } else {
            Verdict::Reject
        }),
{
    let diff = if proposed >= reference_median {
        proposed - reference_median
    } else {
        reference_median - proposed
    };
    if diff <= tolerance {
        Verdict::Accept
    } else {
        Verdict::Reject
    }
}

/// Law: the acceptance boundary is exact. A proposal that drifts from the
/// median `m` by exactly the tolerance `t` is accepted, and one that
/// drifts by `t + 1` is rejected, on both sides of the median.
pub proof fn lemma_drift_acceptance_boundary(m: u64, t: u64)
    ensures
        m + t <= u64::MAX ==> accepts((m + t) as u64, m, t),
        m + t + 1 <= u64::MAX ==> !accepts((m + t + 1) as u64, m, t),
        t <= m ==> accepts((m - t) as u64, m, t),
        t + 1 <= m ==> !accepts((m - t - 1) as u64, m, t),
{
}

} // verus!
