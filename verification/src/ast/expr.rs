//! Expressions, and what they denote.

use crate::ast::atom::Atom;
use crate::ast::binary::{BinaryArithmetic, BinaryOp};
use crate::ast::function::FunctionCall;
use crate::ast::unary::{UnaryArithmetic, UnaryOp};
use vstd::prelude::*;

verus! {

/// An expression: exactly one of the four kinds of node. The tree owns its
/// nodes, each of them once.
#[derive(Debug, PartialEq)]
pub enum Expr {
    /// An operator between two operands.
    BinaryArithmetic(Box<BinaryArithmetic>),
    /// An operator on one operand.
    UnaryArithmetic(Box<UnaryArithmetic>),
    /// A name or a number.
    Atom(Atom),
    /// A call of a named function.
    FunctionCall(FunctionCall),
}

/// The mathematical shape of an expression: what a syntax tree denotes once
/// ownership and boxing are set aside.
pub enum Tree {
    /// A number, by the characters of its literal.
    Number(Seq<char>),
    /// A reference to a variable, by its name.
    Ident(Seq<char>),
    /// An operator on one operand.
    Unary(UnaryOp, Box<Tree>),
    /// An operator between a left and a right operand.
    Binary(BinaryOp, Box<Tree>, Box<Tree>),
    /// A call, by the function's name and the arguments in source order.
    Call(Seq<char>, Seq<Tree>),
}

/// What `e` denotes. (The arguments of a call are asked for by index; what
/// is named for an index outside the list is never looked at.)
pub open spec fn tree_of(e: Expr) -> Tree
    decreases e,
{
    match e {
        Expr::BinaryArithmetic(b) => Tree::Binary(
            b.op,
            Box::new(tree_of(b.lhs)),
            Box::new(tree_of(b.rhs)),
        ),
        Expr::UnaryArithmetic(u) => Tree::Unary(u.op, Box::new(tree_of(u.value))),
        Expr::Atom(Atom::Ident(name)) => Tree::Ident(name@),
        Expr::Atom(Atom::Number(number)) => Tree::Number(number@),
        Expr::FunctionCall(f) => Tree::Call(
            f.name@,
            Seq::new(
                f.args@.len(),
                |i: int|
                    if 0 <= i < f.args@.len() {
                        tree_of(f.args@[i])
                    } else {
                        Tree::Ident(Seq::empty())
                    },
            ),
        ),
    }
}

/// What each of `list` denotes, in the same order.
pub open spec fn trees_of(list: Seq<Expr>) -> Seq<Tree> {
    Seq::new(list.len(), |i: int| tree_of(list[i]))
}

impl View for Expr {
    type V = Tree;

    open spec fn view(&self) -> Tree {
        tree_of(*self)
    }
}

/// The node kinds denote what their expression does.
pub proof fn lemma_tree_of(e: Expr)
    ensures
        e matches Expr::BinaryArithmetic(b) ==> e@ == b@,
        e matches Expr::UnaryArithmetic(u) ==> e@ == u@,
        e matches Expr::Atom(a) ==> e@ == a@,
        e matches Expr::FunctionCall(f) ==> e@ == f@,
{
    match e {
        Expr::FunctionCall(f) => {
            assert(tree_of(e)->Call_1 =~= trees_of(f.args@));
        },
        _ => {},
    }
}

/// A copy of `e`.
pub(crate) fn clone_expr(e: &Expr) -> (copy: Expr)
    ensures
        copy@ == e@,
    decreases e,
{
    match e {
        Expr::BinaryArithmetic(b) => Expr::BinaryArithmetic(
            Box::new(
                BinaryArithmetic { op: b.op, lhs: clone_expr(&b.lhs), rhs: clone_expr(&b.rhs) },
            ),
        ),
        Expr::UnaryArithmetic(u) => Expr::UnaryArithmetic(
            Box::new(UnaryArithmetic { op: u.op, value: clone_expr(&u.value) }),
        ),
        Expr::Atom(Atom::Ident(name)) => Expr::Atom(Atom::Ident(name.clone())),
        Expr::Atom(Atom::Number(number)) => Expr::Atom(Atom::Number(number.clone())),
        Expr::FunctionCall(f) => {
            let mut args: Vec<Expr> = Vec::new();
            let mut i: usize = 0;
            while i < f.args.len()
                invariant
                    i <= f.args@.len(),
                    e is FunctionCall,
                    e->FunctionCall_0 == *f,
                    args@.len() == i,
                    forall|k: int| 0 <= k < i ==> args@[k]@ == f.args@[k]@,
                decreases f.args@.len() - i,
            {
                proof {
                    assert(decreases_to!(f.args => f.args@));
                    assert(decreases_to!(f.args@ => f.args@[i as int]));
                }
                args.push(clone_expr(&f.args[i]));
                i += 1;
            }
            let copy = Expr::FunctionCall(FunctionCall { name: f.name.clone(), args });
            proof {
                assert(tree_of(copy)->Call_1 =~= tree_of(*e)->Call_1);
            }
            copy
        },
    }
}

impl Clone for Expr {
    fn clone(&self) -> (copy: Self)
        ensures
            copy@ == self@,
    {
        clone_expr(self)
    }
}

} // verus!
