//! Unary arithmetic.

use crate::ast::expr::{clone_expr, lemma_tree_of, Expr, Tree};
use vstd::prelude::*;

verus! {

/// A unary arithmetic operator: prefix plus, prefix minus, postfix factorial.
#[derive(Debug, PartialEq, Eq, Clone, Copy, Structural)]
pub enum UnaryOp {
    Pos,
    Neg,
    Fac,
}

/// An operator on one operand, which the node owns.
#[derive(Debug, PartialEq)]
pub struct UnaryArithmetic {
    pub op: UnaryOp,
    pub value: Expr,
}

impl View for UnaryArithmetic {
    type V = Tree;

    open spec fn view(&self) -> Tree {
        Tree::Unary(self.op, Box::new(self.value@))
    }
}

impl UnaryArithmetic {
    /// The node of these parts.
    pub fn new(op: UnaryOp, value: Expr) -> (node: Self)
        ensures
            node.op == op,
            node.value == value,
    {
        UnaryArithmetic { op, value }
    }
}

impl Clone for UnaryArithmetic {
    fn clone(&self) -> (copy: Self)
        ensures
            copy@ == self@,
    {
        UnaryArithmetic { op: self.op, value: clone_expr(&self.value) }
    }
}

impl From<UnaryArithmetic> for Expr {
    fn from(node: UnaryArithmetic) -> (e: Expr)
        ensures
            e@ == node@,
    {
        let e = Expr::UnaryArithmetic(Box::new(node));
        proof {
            lemma_tree_of(e);
        }
        e
    }
}

impl vstd::std_specs::convert::FromSpecImpl<UnaryArithmetic> for Expr {
    open spec fn obeys_from_spec() -> bool {
        true
    }

    open spec fn from_spec(node: UnaryArithmetic) -> Expr {
        Expr::UnaryArithmetic(Box::new(node))
    }
}

} // verus!
