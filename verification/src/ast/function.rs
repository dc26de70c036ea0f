//! Calls.

use crate::ast::expr::{clone_expr, lemma_tree_of, trees_of, Expr, Tree};
use vstd::prelude::*;

verus! {

/// A call of a named function on arguments in source order, which the node
/// owns.
#[derive(Debug, PartialEq)]
pub struct FunctionCall {
    pub name: String,
    pub args: Vec<Expr>,
}

impl View for FunctionCall {
    type V = Tree;

    open spec fn view(&self) -> Tree {
        Tree::Call(self.name@, trees_of(self.args@))
    }
}

impl FunctionCall {
    /// The node of these parts.
    pub fn new(name: String, args: Vec<Expr>) -> (node: Self)
        ensures
            node.name == name,
            node.args == args,
    {
        FunctionCall { name, args }
    }
}

impl Clone for FunctionCall {
    fn clone(&self) -> (copy: Self)
        ensures
            copy@ == self@,
    {
        let mut args: Vec<Expr> = Vec::new();
        let mut i: usize = 0;
        while i < self.args.len()
            invariant
                i <= self.args@.len(),
                args@.len() == i,
                forall|k: int| 0 <= k < i ==> args@[k]@ == self.args@[k]@,
            decreases self.args@.len() - i,
        {
            args.push(clone_expr(&self.args[i]));
            i += 1;
        }
        assert(trees_of(args@) =~= trees_of(self.args@));
        FunctionCall { name: self.name.clone(), args }
    }
}

impl From<FunctionCall> for Expr {
    fn from(node: FunctionCall) -> (e: Expr)
        ensures
            e@ == node@,
    {
        let e = Expr::FunctionCall(node);
        proof {
            lemma_tree_of(e);
        }
        e
    }
}

impl vstd::std_specs::convert::FromSpecImpl<FunctionCall> for Expr {
    open spec fn obeys_from_spec() -> bool {
        true
    }

    open spec fn from_spec(node: FunctionCall) -> Expr {
        Expr::FunctionCall(node)
    }
}

} // verus!
