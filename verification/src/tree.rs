//! The tree itself: an array of nodes, 1-indexed, in which node `j` holds the
//! sum of the positions in its span `(j - low_bit(j), j]`.

use vstd::prelude::*;
use crate::low_bit::{
    covers, lemma_low_bit_bounds, lemma_low_bit_gap, lemma_low_bit_step_down,
    lemma_low_bit_step_up, low_bit, lowest_set_bit,
};
use crate::summand::Summand;
use crate::sums::{lemma_prefix_sum_point_add, point_add, prefix_sum, range_sum, zeros};

verus! {

/// What a query that starts at node `i` collects: the node at `i`, then the one
/// found by stripping the lowest set bit, and so on down to 0.
spec fn collect(nodes: Seq<int>, i: int) -> int
    decreases i,
{
    if i <= 0 {
        0
    } else {
        proof {
            lemma_low_bit_bounds(i);
        }
        nodes[i] + collect(nodes, i - low_bit(i))
    }
}

/// The sequence that an array of nodes stands for: the one whose prefix sums
/// are what the queries collect.
spec fn decode(nodes: Seq<int>) -> Seq<int> {
    Seq::new((nodes.len() - 1) as nat, |k: int| collect(nodes, k + 1) - collect(nodes, k))
}

/// The prefix sums of the decoded sequence are what the queries collect.
proof fn lemma_decode_prefix(nodes: Seq<int>, k: int)
    requires
        0 <= k < nodes.len(),
    ensures
        prefix_sum(decode(nodes), k) == collect(nodes, k),
    decreases k,
{
    if k > 0 {
        lemma_decode_prefix(nodes, k - 1);
    }
}

/// Node `j` holds the sum of its span of the decoded sequence.
proof fn lemma_node_is_span_sum(nodes: Seq<int>, j: int)
    requires
        1 <= j < nodes.len(),
    ensures
        nodes[j] == range_sum(decode(nodes), j - low_bit(j), j),
{
    lemma_low_bit_bounds(j);
    lemma_decode_prefix(nodes, j);
    lemma_decode_prefix(nodes, j - low_bit(j));
}

/// Nothing is collected from nodes that are all zero.
proof fn lemma_collect_zero(nodes: Seq<int>, k: int)
    requires
        0 <= k < nodes.len(),
        forall|j: int| 0 <= j < nodes.len() ==> nodes[j] == 0,
    ensures
        collect(nodes, k) == 0,
    decreases k,
{
    if k > 0 {
        lemma_low_bit_bounds(k);
        lemma_collect_zero(nodes, k - low_bit(k));
    }
}

/// Whether `after` is `before` with `x` added to each node below `bound`
/// whose span holds `idx`.
spec fn raised(before: Seq<int>, after: Seq<int>, idx: int, x: int, bound: int) -> bool {
    &&& after.len() == before.len()
    &&& forall|j: int|
        1 <= j < before.len() ==> #[trigger] after[j] == before[j] + (if covers(j, idx)
            && j < bound { x } else { 0 })
}

/// Once every node whose span holds `idx` is raised by `x`, what is collected
/// from `idx` on is raised by `x`, and what is collected below is as before.
proof fn lemma_collect_raised(before: Seq<int>, after: Seq<int>, idx: int, x: int, k: int)
    requires
        1 <= idx,
        0 <= k < before.len(),
        raised(before, after, idx, x, before.len() as int),
    ensures
        collect(after, k) == collect(before, k) + (if k >= idx { x } else { 0 }),
    decreases k,
{
    if k > 0 {
        lemma_low_bit_bounds(k);
        lemma_collect_raised(before, after, idx, x, k - low_bit(k));
    }
}

/// A Fenwick tree over `n` positions, numbered from 1.
///
/// Slot 0 of the array is a sentinel that holds the identity and is never
/// written; slot `j` for `1 <= j <= n` is node `j`.
#[derive(Debug)]
pub struct Ftree<T: Summand> {
    n: i64,
    a: Vec<T>,
}

impl<T: Summand> View for Ftree<T> {
    type V = Seq<int>;

    /// The sequence that the tree stands for: item `k` is the net amount added
    /// at position `k + 1`.
    closed spec fn view(&self) -> Seq<int> {
        decode(self.nodes())
    }
}

impl<T: Summand> Ftree<T> {
    #[verifier::type_invariant]
    spec fn well_formed(self) -> bool {
        &&& 0 <= self.n
        &&& self.a@.len() == self.n + 1
        &&& self.a@[0].value() == 0
    }

    /// The integers that the slots of the array stand for.
    spec fn nodes(self) -> Seq<int> {
        self.a@.map_values(|t: T| t.value())
    }

    /// Whether `add(idx, x)` can raise each node that it has to without
    /// leaving `T`: the nodes from `idx` up whose span holds `idx`.
    pub open spec fn add_fits(self, idx: i64, x: T) -> bool {
        forall|j: int|
            idx <= j <= self@.len() && #[trigger] covers(j, idx as int) ==> T::fits(
                range_sum(self@, j - low_bit(j), j) + x.value(),
            )
    }

    /// Whether `query(idx)` can form each of its running totals without
    /// leaving `T`: the sums over `(c - low_bit(c), idx]` for the nodes `c`
    /// that it visits after the first.
    pub open spec fn query_fits(self, idx: i64) -> bool {
        forall|c: int|
            0 < c < idx < c + #[trigger] low_bit(c) ==> T::fits(
                range_sum(self@, c - low_bit(c), idx as int),
            )
    }

    /// A tree over `n` positions, each holding zero.
    ///
    /// `n` must not be negative, and `n + 1` slots must be within what a
    /// vector can index.
    pub fn new(n: i64) -> (f: Self)
        requires
            0 <= n < usize::MAX,
        ensures
            f@ == zeros(n as nat),
    {
        let z = T::identity();
        let mut a: Vec<T> = Vec::new();
        a.push(z);
        let mut i: i64 = 0;
        while i < n
            invariant
                0 <= i <= n,
                z.value() == 0,
                a@.len() == i + 1,
                forall|k: int| 0 <= k <= i ==> (#[trigger] a@[k]).value() == 0,
            decreases n - i,
        {
            a.push(z);
            i = i + 1;
        }
        let f = Ftree { n, a };
        proof {
            assert forall|k: int| 0 <= k <= n implies collect(f.nodes(), k) == 0 by {
                lemma_collect_zero(f.nodes(), k);
            }
            assert(f@ =~= zeros(n as nat));
        }
        f
    }

    /// Adds `x` at position `idx`: starting at node `idx`, raises each node
    /// whose span holds `idx`, stepping up by the lowest set bit.
    ///
    /// `idx` must lie in `1..=n`, and each node raised must stay within `T`.
    /// Queries that reach `idx` then answer with `x` more, the others as before.
    pub fn add(&mut self, idx: i64, x: T)
        requires
            1 <= idx <= old(self)@.len(),
            old(self).add_fits(idx, x),
        ensures
            final(self)@ == point_add(old(self)@, idx as int, x.value()),
            final(self)@.len() == old(self)@.len(),
            forall|k: int|
                0 <= k <= old(self)@.len() ==> #[trigger] prefix_sum(final(self)@, k)
                    == prefix_sum(old(self)@, k) + (if k >= idx { x.value() } else { 0 }),
    {
        proof {
            use_type_invariant(&*self);
            lemma_low_bit_bounds(idx as int);
            assert(self.a.len() == self.n + 1);
        }
        let ghost before = self.nodes();
        let mut cur: i64 = idx;
        loop
            invariant_except_break
                idx <= cur,
                covers(cur as int, idx as int),
                raised(before, self.nodes(), idx as int, x.value(), cur as int),
            invariant
                1 <= idx,
                cur <= self.n < usize::MAX,
                self.a@.len() == self.n + 1,
                self.a@[0].value() == 0,
                old(self)@.len() == self.n,
                before == old(self).nodes(),
                before.len() == self.n + 1,
                old(self).add_fits(idx, x),
            ensures
                raised(before, self.nodes(), idx as int, x.value(), self.n + 1),
            decreases self.n - cur,
        {
            let step = lowest_set_bit(cur);
            let ghost prev = self.nodes();
            proof {
                lemma_low_bit_step_up(cur as int);
                lemma_node_is_span_sum(before, cur as int);
                assert(prev[cur as int] == before[cur as int]);
            }
            let mut node = self.a[cur as usize];
            node.accumulate(x);
            self.a[cur as usize] = node;
            proof {
                assert forall|j: int| 1 <= j <= self.n implies #[trigger] self.nodes()[j]
                    == prev[j] + (if j == cur { x.value() } else { 0 }) by {}
                assert forall|j: int| cur < j < cur + step implies !covers(j, idx as int) by {
                    lemma_low_bit_gap(cur as int, j);
                }
            }
            // The next position is compared before it is formed: `cur + step`
            // may not fit where `n` is close to the largest `i64`.
            if step > self.n - cur {
                break;
            }
            cur = cur + step;
        }
        proof {
            let after = self.nodes();
            assert forall|k: int| 0 <= k <= self.n implies collect(after, k)
                == collect(before, k) + (if k >= idx { x.value() } else { 0 }) by {
                lemma_collect_raised(before, after, idx as int, x.value(), k);
            }
            assert(self@ =~= point_add(old(self)@, idx as int, x.value()));
            assert forall|k: int| 0 <= k <= self.n implies #[trigger] prefix_sum(self@, k)
                == prefix_sum(old(self)@, k) + (if k >= idx { x.value() } else { 0 }) by {
                lemma_prefix_sum_point_add(old(self)@, idx as int, x.value(), k);
            }
        }
    }

    /// The sum of the positions `1..=idx`: starting at node `idx`, totals the
    /// nodes met while stripping the lowest set bit down to 0.
    ///
    /// `idx` must lie in `0..=n`, and each running total must stay within `T`.
    /// At 0 the answer is the identity.
    pub fn query(&self, idx: i64) -> (r: T)
        requires
            0 <= idx <= self@.len(),
            self.query_fits(idx),
        ensures
            r.value() == prefix_sum(self@, idx as int),
            idx == 0 ==> r.value() == 0,
    {
        proof {
            use_type_invariant(self);
            assert(self.a.len() == self.n + 1);
            if idx > 0 {
                lemma_low_bit_bounds(idx as int);
            }
        }
        let mut total = T::identity();
        let mut cur: i64 = idx;
        while cur > 0
            invariant
                0 <= cur <= idx <= self.n < usize::MAX,
                self.a@.len() == self.n + 1,
                self.query_fits(idx),
                cur > 0 ==> idx < cur + low_bit(cur as int),
                total.value() == range_sum(self@, cur as int, idx as int),
            decreases cur,
        {
            let step = lowest_set_bit(cur);
            proof {
                lemma_low_bit_step_down(cur as int);
                lemma_node_is_span_sum(self.nodes(), cur as int);
                if cur == idx {
                    T::lemma_value_fits(self.a@[cur as int]);
                }
            }
            total.accumulate(self.a[cur as usize]);
            cur = cur - step;
        }
        total
    }
}

} // verus!
