//! Sums over a sequence of integers: the mathematical model that the tree's
//! contracts are stated in.

use vstd::prelude::*;

verus! {

/// The sum of the first `k` items of `s`.
pub open spec fn prefix_sum(s: Seq<int>, k: int) -> int
    recommends
        0 <= k <= s.len(),
    decreases k,
{
    if k <= 0 {
        0
    } else {
        prefix_sum(s, k - 1) + s[k - 1]
    }
}

/// The sum of the items of `s` at the 1-indexed positions in `(lo, hi]`.
pub open spec fn range_sum(s: Seq<int>, lo: int, hi: int) -> int
    recommends
        0 <= lo <= hi <= s.len(),
{
    prefix_sum(s, hi) - prefix_sum(s, lo)
}

/// The sequence of `n` zeros.
pub open spec fn zeros(n: nat) -> Seq<int> {
    Seq::new(n, |k: int| 0int)
}

/// `s` with `x` added to the item at the 1-indexed position `idx`.
pub open spec fn point_add(s: Seq<int>, idx: int, x: int) -> Seq<int>
    recommends
        1 <= idx <= s.len(),
{
    s.update(idx - 1, s[idx - 1] + x)
}

/// Every prefix of a sequence of zeros sums to zero.
pub proof fn lemma_prefix_sum_zeros(n: nat, k: int)
    requires
        0 <= k <= n,
    ensures
        prefix_sum(zeros(n), k) == 0,
    decreases k,
{
    if k > 0 {
        lemma_prefix_sum_zeros(n, k - 1);
    }
}

/// Adding `x` at position `idx` raises by `x` the prefix sums that reach
/// `idx`, and leaves the shorter ones as they were.
pub proof fn lemma_prefix_sum_point_add(s: Seq<int>, idx: int, x: int, k: int)
    requires
        1 <= idx <= s.len(),
        0 <= k <= s.len(),
    ensures
        prefix_sum(point_add(s, idx, x), k) == prefix_sum(s, k) + (if k >= idx { x } else { 0 }),
    decreases k,
{
    if k > 0 {
        lemma_prefix_sum_point_add(s, idx, x, k - 1);
    }
}

/// A span whose items all lie within `[-b, b]` sums to within `(hi - lo) * b`
/// of zero.
pub proof fn lemma_range_sum_bounded(s: Seq<int>, lo: int, hi: int, b: int)
    requires
        0 <= lo <= hi <= s.len(),
        forall|i: int| lo <= i < hi ==> -b <= #[trigger] s[i] <= b,
    ensures
        -((hi - lo) * b) <= range_sum(s, lo, hi) <= (hi - lo) * b,
    decreases hi - lo,
{
    if lo < hi {
        lemma_range_sum_bounded(s, lo, hi - 1, b);
        assert(-b <= s[hi - 1] <= b);
        assert((hi - lo) * b == (hi - 1 - lo) * b + b) by (nonlinear_arith);
    } else {
        assert((hi - lo) * b == 0) by (nonlinear_arith)
            requires
                hi - lo == 0,
        ;
    }
}

} // verus!
