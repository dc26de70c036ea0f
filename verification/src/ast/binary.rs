//! Binary arithmetic.

use crate::ast::expr::{clone_expr, lemma_tree_of, Expr, Tree};
use vstd::prelude::*;

verus! {

/// A binary arithmetic operator.
#[derive(Debug, PartialEq, Eq, Clone, Copy, Structural)]
pub enum BinaryOp {
    Add,
    Sub,
    Mul,
    Div,
}

/// An operator between two operands, which the node owns.
#[derive(Debug, PartialEq)]
pub struct BinaryArithmetic {
    pub op: BinaryOp,
    pub lhs: Expr,
    pub rhs: Expr,
}

impl View for BinaryArithmetic {
    type V = Tree;

    open spec fn view(&self) -> Tree {
        Tree::Binary(self.op, Box::new(self.lhs@), Box::new(self.rhs@))
    }
}

impl BinaryArithmetic {
    /// The node of these parts.
    pub fn new(op: BinaryOp, lhs: Expr, rhs: Expr) -> (node: Self)
        ensures
            node.op == op,
            node.lhs == lhs,
            node.rhs == rhs,
    {
        BinaryArithmetic { op, lhs, rhs }
    }
}

impl Clone for BinaryArithmetic {
    fn clone(&self) -> (copy: Self)
        ensures
            copy@ == self@,
    {
        BinaryArithmetic { op: self.op, lhs: clone_expr(&self.lhs), rhs: clone_expr(&self.rhs) }
    }
}

impl From<BinaryArithmetic> for Expr {
    fn from(node: BinaryArithmetic) -> (e: Expr)
        ensures
            e@ == node@,
    {
        let e = Expr::BinaryArithmetic(Box::new(node));
        proof {
            lemma_tree_of(e);
        }
        e
    }
}

impl vstd::std_specs::convert::FromSpecImpl<BinaryArithmetic> for Expr {
    open spec fn obeys_from_spec() -> bool {
        true
    }

    open spec fn from_spec(node: BinaryArithmetic) -> Expr {
        Expr::BinaryArithmetic(Box::new(node))
    }
}

} // verus!
