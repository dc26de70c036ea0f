//! How a tree lies on the page.

use crate::ast::{BinaryOp, Tree, UnaryOp};
use vstd::prelude::*;

verus! {

/// The name of a unary operator.
pub open spec fn unary_name(op: UnaryOp) -> Seq<char> {
    match op {
        UnaryOp::Pos => "Pos"@,
        UnaryOp::Neg => "Neg"@,
        UnaryOp::Fac => "Fac"@,
    }
}

/// The name of a binary operator.
pub open spec fn binary_name(op: BinaryOp) -> Seq<char> {
    match op {
        BinaryOp::Add => "Add"@,
        BinaryOp::Sub => "Sub"@,
        BinaryOp::Mul => "Mul"@,
        BinaryOp::Div => "Div"@,
    }
}

/// `width` spaces.
pub open spec fn pad(width: nat) -> Seq<char> {
    Seq::new(width, |i: int| ' ')
}

/// The lines of a tree as an expression: the line `Expr`, then the node one
/// step further in.
pub open spec fn expr_lines(tree: Tree, width: nat, step: nat) -> Seq<Seq<char>>
    decreases tree, 1nat,
{
    seq![pad(width) + "Expr"@] + node_lines(tree, width + step, step)
}

/// The lines of a tree as a node: its label, then its operands as
/// expressions one step further in, from left to right.
pub open spec fn node_lines(tree: Tree, width: nat, step: nat) -> Seq<Seq<char>>
    decreases tree, 0nat,
{
    match tree {
        Tree::Number(text) => seq![pad(width) + "Number "@ + text],
        Tree::Ident(name) => seq![pad(width) + "Identifier "@ + name],
        Tree::Unary(op, operand) => seq![pad(width) + unary_name(op), pad(width) + "Unary"@]
            + expr_lines(*operand, width + step, step),
        Tree::Binary(op, lhs, rhs) => seq![pad(width) + binary_name(op)] + expr_lines(
            *lhs,
            width + step,
            step,
        ) + expr_lines(*rhs, width + step, step),
        Tree::Call(name, args) => seq![pad(width) + "Function "@ + name] + list_lines(
            args,
            args.len(),
            width + step,
            step,
        ),
    }
}

/// The lines of the first `count` trees of `list`, one after the other.
pub open spec fn list_lines(list: Seq<Tree>, count: nat, width: nat, step: nat) -> Seq<Seq<char>>
    decreases list, count,
{
    if count == 0 || count > list.len() {
        Seq::empty()
    } else {
        list_lines(list, (count - 1) as nat, width, step) + expr_lines(
            list[count - 1],
            width,
            step,
        )
    }
}

/// The furthest in that the lines of a tree as an expression go.
pub open spec fn expr_reach(tree: Tree, width: nat, step: nat) -> nat
    decreases tree, 1nat,
{
    node_reach(tree, width + step, step)
}

/// The furthest in that the lines of a tree as a node go. A node with
/// operands reckons with a step further in even where it has none.
pub open spec fn node_reach(tree: Tree, width: nat, step: nat) -> nat
    decreases tree, 0nat,
{
    match tree {
        Tree::Number(_) => width,
        Tree::Ident(_) => width,
        Tree::Unary(_, operand) => expr_reach(*operand, width + step, step),
        Tree::Binary(_, lhs, rhs) => {
            let left = expr_reach(*lhs, width + step, step);
            let right = expr_reach(*rhs, width + step, step);
            if left >= right {
                left
            } else {
                right
            }
        },
        Tree::Call(_, args) => list_reach(args, args.len(), width + step, step),
    }
}

/// The furthest in that the lines of the first `count` trees of `list` go;
/// `width` where there are none.
pub open spec fn list_reach(list: Seq<Tree>, count: nat, width: nat, step: nat) -> nat
    decreases list, count,
{
    if count == 0 || count > list.len() {
        width
    } else {
        let before = list_reach(list, (count - 1) as nat, width, step);
        let last = expr_reach(list[count - 1], width, step);
        if before >= last {
            before
        } else {
            last
        }
    }
}

/// No line starts further out than the first.
pub proof fn lemma_reach_grows(tree: Tree, width: nat, step: nat)
    ensures
        expr_reach(tree, width, step) >= width + step,
        node_reach(tree, width, step) >= width,
    decreases tree,
{
    match tree {
        Tree::Number(_) => {},
        Tree::Ident(_) => {},
        Tree::Unary(_, operand) => {
            lemma_reach_grows(*operand, width + step, step);
            lemma_reach_grows(*operand, width + step + step, step);
        },
        Tree::Binary(_, lhs, rhs) => {
            lemma_reach_grows(*lhs, width + step, step);
            lemma_reach_grows(*lhs, width + step + step, step);
            lemma_reach_grows(*rhs, width + step, step);
            lemma_reach_grows(*rhs, width + step + step, step);
        },
        Tree::Call(_, args) => {
            lemma_list_reach_grows(args, args.len(), width + step, step);
            lemma_list_reach_grows(args, args.len(), width + step + step, step);
        },
    }
}

/// The lines of a list start no further out than where the list stands, and
/// go as far in as each of them.
pub proof fn lemma_list_reach_grows(list: Seq<Tree>, count: nat, width: nat, step: nat)
    ensures
        list_reach(list, count, width, step) >= width,
        forall|i: int|
            0 <= i < count <= list.len() ==> list_reach(list, count, width, step) >= expr_reach(
                #[trigger] list[i],
                width,
                step,
            ),
    decreases list, count,
{
    if count != 0 && count <= list.len() {
        lemma_list_reach_grows(list, (count - 1) as nat, width, step);
    }
}

/// Standing further in, the lines go no less far in.
pub proof fn lemma_reach_monotone(tree: Tree, near: nat, far: nat, step: nat)
    requires
        near <= far,
    ensures
        expr_reach(tree, near, step) <= expr_reach(tree, far, step),
        node_reach(tree, near, step) <= node_reach(tree, far, step),
    decreases tree,
{
    match tree {
        Tree::Number(_) => {},
        Tree::Ident(_) => {},
        Tree::Unary(_, operand) => {
            lemma_reach_monotone(*operand, near + step, far + step, step);
            lemma_reach_monotone(*operand, near + step + step, far + step + step, step);
        },
        Tree::Binary(_, lhs, rhs) => {
            lemma_reach_monotone(*lhs, near + step, far + step, step);
            lemma_reach_monotone(*lhs, near + step + step, far + step + step, step);
            lemma_reach_monotone(*rhs, near + step, far + step, step);
            lemma_reach_monotone(*rhs, near + step + step, far + step + step, step);
        },
        Tree::Call(_, args) => {
            lemma_list_reach_monotone(args, args.len(), near + step, far + step, step);
            lemma_list_reach_monotone(
                args,
                args.len(),
                near + step + step,
                far + step + step,
                step,
            );
        },
    }
}

/// Standing further in, the lines of a list go no less far in.
pub proof fn lemma_list_reach_monotone(
    list: Seq<Tree>,
    count: nat,
    near: nat,
    far: nat,
    step: nat,
)
    requires
        near <= far,
    ensures
        list_reach(list, count, near, step) <= list_reach(list, count, far, step),
    decreases list, count,
{
    if count != 0 && count <= list.len() {
        lemma_list_reach_monotone(list, (count - 1) as nat, near, far, step);
        lemma_reach_monotone(list[count - 1], near, far, step);
    }
}

/// The text of each of `lines`.
pub open spec fn texts(lines: Seq<String>) -> Seq<Seq<char>> {
    Seq::new(lines.len(), |i: int| lines[i]@)
}

} // verus!
