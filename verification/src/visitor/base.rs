//! What every backend that walks a tree offers.

use crate::ast::{Atom, BinaryArithmetic, Expr, FunctionCall, Tree, UnaryArithmetic};
use vstd::prelude::*;

verus! {

/// A walk over a syntax tree, with one operation for each kind of node and
/// one that tells the kinds apart.
///
/// Operands are visited before their operator is applied, and from left to
/// right.
pub trait Visitor<T> {
    /// Whether the visitor, as it stands, can walk `tree`. Any tree, unless
    /// the visitor says otherwise.
    open spec fn admits(&self, tree: Tree) -> bool {
        true
    }

    fn visit_expr(&mut self, e: &Expr) -> T
        requires
            old(self).admits(e@),
    ;

    fn visit_unary(&mut self, u: &UnaryArithmetic) -> T
        requires
            old(self).admits(u@),
    ;

    fn visit_binary(&mut self, b: &BinaryArithmetic) -> T
        requires
            old(self).admits(b@),
    ;

    fn visit_function(&mut self, f: &FunctionCall) -> T
        requires
            old(self).admits(f@),
    ;

    fn visit_atom(&mut self, a: &Atom) -> T
        requires
            old(self).admits(a@),
    ;
}

} // verus!
