//! What an interpreter leaves to its user: the numbers.

use crate::ast::{BinaryOp, Decimal};
use vstd::prelude::*;

verus! {

/// The number type of an interpreter, by its primitive operations.
///
/// The interpreter decides what is computed, in which order and on which
/// operands; what a number is and how to compute with one is left to the
/// implementation. Nothing is assumed of an implementation: what the
/// interpreter promises is stated over what these operations return.
pub trait Arithmetic<V> {
    /// The value of a literal.
    fn literal(&self, number: &Decimal) -> V;

    /// The value with its sign changed.
    fn negate(&self, value: V) -> V;

    /// The value cut down to an unsigned integer.
    fn truncate(&self, value: V) -> u64;

    /// The value of an unsigned integer.
    fn integer(&self, n: u64) -> V;

    /// The result of a binary operator on a left and a right operand.
    fn binary(&self, op: BinaryOp, lhs: V, rhs: V) -> V;
}

} // verus!
