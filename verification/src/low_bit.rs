//! The lowest set bit of a position, which decides the span of positions that
//! each node of the tree is responsible for.

use vstd::prelude::*;

verus! {

/// The largest power of two that divides `i`; 0 for `i <= 0`.
pub open spec fn low_bit(i: int) -> int
    decreases i,
{
    if i <= 0 {
        0
    } else if i % 2 != 0 {
        1
    } else {
        2 * low_bit(i / 2)
    }
}

/// Whether the span of node `j`, the positions in `(j - low_bit(j), j]`, holds
/// position `idx`.
pub open spec fn covers(j: int, idx: int) -> bool {
    j - low_bit(j) < idx <= j
}

/// The lowest set bit of a positive position is positive and at most the position.
pub proof fn lemma_low_bit_bounds(i: int)
    requires
        i > 0,
    ensures
        1 <= low_bit(i) <= i,
    decreases i,
{
    if i % 2 == 0 {
        lemma_low_bit_bounds(i / 2);
    }
}

/// Stepping up by the lowest set bit at least doubles it.
pub proof fn lemma_low_bit_step_up(i: int)
    requires
        i > 0,
    ensures
        low_bit(i + low_bit(i)) >= 2 * low_bit(i),
    decreases i,
{
    if i % 2 == 0 {
        lemma_low_bit_step_up(i / 2);
        assert((i + low_bit(i)) / 2 == i / 2 + low_bit(i / 2));
    } else {
        lemma_low_bit_bounds((i + 1) / 2);
    }
}

/// Stepping down by the lowest set bit reaches 0 or at least doubles it.
pub proof fn lemma_low_bit_step_down(i: int)
    requires
        i > 0,
    ensures
        i - low_bit(i) == 0 || low_bit(i - low_bit(i)) >= 2 * low_bit(i),
    decreases i,
{
    if i % 2 == 0 {
        lemma_low_bit_step_down(i / 2);
        assert((i - low_bit(i)) / 2 == i / 2 - low_bit(i / 2));
    } else if i > 1 {
        lemma_low_bit_bounds((i - 1) / 2);
    }
}

/// No position strictly between `i` and `i + low_bit(i)` has a span that reaches
/// down to `i` or below.
pub proof fn lemma_low_bit_gap(i: int, j: int)
    requires
        0 < i < j < i + low_bit(i),
    ensures
        j - low_bit(j) >= i,
    decreases i,
{
    if i % 2 == 0 {
        if j % 2 == 0 {
            lemma_low_bit_gap(i / 2, j / 2);
        }
    }
}

/// On a positive unsigned machine integer the lowest set bit is `u & !(u - 1)`.
proof fn lemma_low_bit_unsigned(u: u64)
    requires
        u > 0,
    ensures
        (u & !((u - 1) as u64)) == low_bit(u as int),
    decreases u,
{
    let b: u64 = u & !((u - 1) as u64);
    if u % 2 == 0 {
        let h: u64 = u / 2;
        let c: u64 = h & !((h - 1) as u64);
        lemma_low_bit_unsigned(h);
        assert(b == 2 * c) by (bit_vector)
            requires
                u > 0,
                u % 2 == 0,
                h == u / 2,
                b == u & !((u - 1) as u64),
                c == h & !((h - 1) as u64),
        ;
    } else {
        assert(b == 1) by (bit_vector)
            requires
                u % 2 == 1,
                b == u & !((u - 1) as u64),
        ;
    }
}

/// On a positive signed machine integer the lowest set bit is `i & -i`.
pub proof fn lemma_low_bit_is_and_neg(i: i64)
    requires
        i > 0,
    ensures
        (i & ((-i) as i64)) == low_bit(i as int),
{
    let b: i64 = i & ((-i) as i64);
    let u: u64 = i as u64;
    let c: u64 = u & !((u - 1) as u64);
    assert(b as u64 == c && b > 0i64) by (bit_vector)
        requires
            i > 0i64,
            u == i as u64,
            b == i & ((-i) as i64),
            c == u & !((u - 1) as u64),
    ;
    lemma_low_bit_unsigned(u);
}

/// The lowest set bit of a positive position.
pub fn lowest_set_bit(i: i64) -> (b: i64)
    requires
        i > 0,
    ensures
        b == low_bit(i as int),
{
    proof {
        lemma_low_bit_is_and_neg(i);
    }
    i & (-i)
}

} // verus!
