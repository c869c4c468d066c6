//! What holds of a tree over its whole life, stated over the sequence that the
//! tree stands for: `Ftree::new` starts from `zeros`, each `Ftree::add` is one
//! `point_add`, and `Ftree::query` answers with a `prefix_sum`. And when the
//! sums that `add` and `query` form are sure to stay within the type.

use vstd::prelude::*;
use crate::low_bit::{covers, lemma_low_bit_bounds, low_bit};
use crate::summand::Summand;
use crate::sums::{
    lemma_prefix_sum_point_add, lemma_prefix_sum_zeros, lemma_range_sum_bounded, point_add,
    prefix_sum, range_sum, zeros,
};
use crate::tree::Ftree;

verus! {

/// Whether each of `calls`, a position and an amount, names a position in `1..=n`.
pub open spec fn calls_in_range(n: nat, calls: Seq<(int, int)>) -> bool {
    forall|i: int| 0 <= i < calls.len() ==> 1 <= (#[trigger] calls[i]).0 <= n
}

/// The sequence that a new tree over `n` positions stands for after the
/// additions `calls`, made in order.
pub open spec fn replay(n: nat, calls: Seq<(int, int)>) -> Seq<int>
    decreases calls.len(),
{
    if calls.len() == 0 {
        zeros(n)
    } else {
        point_add(replay(n, calls.drop_last()), calls.last().0, calls.last().1)
    }
}

/// The sum of the amounts of those of `calls` whose position lies in `(lo, hi]`.
pub open spec fn added_within(calls: Seq<(int, int)>, lo: int, hi: int) -> int
    decreases calls.len(),
{
    if calls.len() == 0 {
        0
    } else {
        added_within(calls.drop_last(), lo, hi)
            + (if lo < calls.last().0 <= hi { calls.last().1 } else { 0 })
    }
}

/// The sum of the amounts of all of `calls`.
pub open spec fn added_total(calls: Seq<(int, int)>) -> int
    decreases calls.len(),
{
    if calls.len() == 0 {
        0
    } else {
        added_total(calls.drop_last()) + calls.last().1
    }
}

/// Additions do not change the number of positions.
pub proof fn lemma_replay_len(n: nat, calls: Seq<(int, int)>)
    requires
        calls_in_range(n, calls),
    ensures
        replay(n, calls).len() == n,
    decreases calls.len(),
{
    if calls.len() > 0 {
        lemma_replay_len(n, calls.drop_last());
    }
}

/// On a tree that was just made, the query at 0 answers with the identity,
/// and so does every other query.
pub proof fn law_new_tree_sums_to_identity(n: nat, idx: int)
    requires
        0 <= idx <= n,
    ensures
        prefix_sum(zeros(n), 0) == 0,
        prefix_sum(zeros(n), idx) == 0,
{
    lemma_prefix_sum_zeros(n, idx);
}

/// After any additions at positions in `1..=n`, the query at `k` exceeds the
/// query at `j <= k` by the sum of the amounts added at positions in `(j, k]`.
pub proof fn law_difference_of_queries(n: nat, calls: Seq<(int, int)>, j: int, k: int)
    requires
        calls_in_range(n, calls),
        0 <= j <= k <= n,
    ensures
        prefix_sum(replay(n, calls), k) - prefix_sum(replay(n, calls), j)
            == added_within(calls, j, k),
        range_sum(replay(n, calls), j, k) == added_within(calls, j, k),
    decreases calls.len(),
{
    if calls.len() == 0 {
        lemma_prefix_sum_zeros(n, j);
        lemma_prefix_sum_zeros(n, k);
    } else {
        let earlier = calls.drop_last();
        let (idx, x) = calls.last();
        law_difference_of_queries(n, earlier, j, k);
        lemma_replay_len(n, earlier);
        lemma_prefix_sum_point_add(replay(n, earlier), idx, x, j);
        lemma_prefix_sum_point_add(replay(n, earlier), idx, x, k);
    }
}

/// Amounts added at positions in `1..=n` all lie within `(0, n]`.
proof fn lemma_added_within_all(n: nat, calls: Seq<(int, int)>)
    requires
        calls_in_range(n, calls),
    ensures
        added_within(calls, 0, n as int) == added_total(calls),
    decreases calls.len(),
{
    if calls.len() > 0 {
        lemma_added_within_all(n, calls.drop_last());
    }
}

/// After any additions at positions in `1..=n`, the query at `n` answers with
/// the sum of all the amounts added.
pub proof fn law_query_of_all_is_total(n: nat, calls: Seq<(int, int)>)
    requires
        calls_in_range(n, calls),
    ensures
        prefix_sum(replay(n, calls), n as int) == added_total(calls),
{
    law_difference_of_queries(n, calls, 0, n as int);
    lemma_added_within_all(n, calls);
}

/// Two answers to the same query of the same tree are the same value.
pub proof fn law_query_is_repeatable<T: Summand>(s: Seq<int>, idx: int, first: T, second: T)
    requires
        first.value() == prefix_sum(s, idx),
        second.value() == prefix_sum(s, idx),
    ensures
        first == second,
{
    T::lemma_value_injective(first, second);
}

/// Adding `-x` where `x` was added gives back the sequence, and with it every
/// prefix sum, as it was before.
pub proof fn law_negated_addition_restores(s: Seq<int>, idx: int, x: int, k: int)
    requires
        1 <= idx <= s.len(),
        0 <= k <= s.len(),
    ensures
        point_add(point_add(s, idx, x), idx, -x) == s,
        prefix_sum(point_add(point_add(s, idx, x), idx, -x), k) == prefix_sum(s, k),
{
    assert(point_add(point_add(s, idx, x), idx, -x) =~= s);
}

/// Where every item of a tree lies within `[-b, b]` and `T` holds every
/// integer within `idx * b` of zero, `query(idx)` can form its running totals.
pub proof fn law_bounded_items_can_be_queried<T: Summand>(f: Ftree<T>, idx: i64, b: int)
    requires
        0 <= idx <= f@.len(),
        forall|k: int| 0 <= k < f@.len() ==> -b <= #[trigger] f@[k] <= b,
        forall|v: int| -(idx * b) <= v <= idx * b ==> T::fits(v),
    ensures
        f.query_fits(idx),
{
    assert forall|c: int| 0 < c < idx < c + #[trigger] low_bit(c) implies T::fits(
        range_sum(f@, c - low_bit(c), idx as int),
    ) by {
        let lo = c - low_bit(c);
        lemma_low_bit_bounds(c);
        lemma_range_sum_bounded(f@, lo, idx as int, b);
        assert((idx - lo) * b <= idx * b) by (nonlinear_arith)
            requires
                0 <= lo <= idx,
                0 <= b,
        ;
    }
}

/// Where every item of a tree over `n` positions lies within `[-b, b]` and `T`
/// holds every integer within `n * b` of `x`, `add(idx, x)` can raise each
/// node that it has to.
pub proof fn law_bounded_items_can_be_added_to<T: Summand>(f: Ftree<T>, idx: i64, x: T, b: int)
    requires
        1 <= idx <= f@.len(),
        forall|k: int| 0 <= k < f@.len() ==> -b <= #[trigger] f@[k] <= b,
        forall|v: int| x.value() - f@.len() * b <= v <= x.value() + f@.len() * b ==> T::fits(v),
    ensures
        f.add_fits(idx, x),
{
    let n = f@.len() as int;
    assert forall|j: int| idx <= j <= n && #[trigger] covers(j, idx as int) implies T::fits(
        range_sum(f@, j - low_bit(j), j) + x.value(),
    ) by {
        let lo = j - low_bit(j);
        lemma_low_bit_bounds(j);
        lemma_range_sum_bounded(f@, lo, j, b);
        assert((j - lo) * b <= n * b) by (nonlinear_arith)
            requires
                0 <= lo <= j <= n,
                0 <= b,
        ;
    }
}

} // verus!
