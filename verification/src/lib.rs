//! Fenwick tree (binary indexed tree): a fixed-size sequence of numbers with
//! point updates and prefix-sum queries, each in time logarithmic in the length.
//!
//! - [`tree`]: the tree, [`Ftree`], with `new`, `add` and `query`.
//! - [`summand`]: [`Summand`], the numbers that a tree can hold.
//! - [`sums`]: prefix and range sums of integer sequences, in which the
//!   contracts are stated.
//! - [`low_bit`]: the lowest set bit, which lays out the nodes.
//! - [`laws`]: what holds across calls.

pub mod laws;
pub mod low_bit;
pub mod summand;
pub mod sums;
pub mod tree;

pub use summand::Summand;
pub use tree::Ftree;
