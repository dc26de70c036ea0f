//! The printer: a tree as indented lines.

use crate::ast::expr::{lemma_tree_of, trees_of};
use crate::ast::{
    Atom, BinaryArithmetic, BinaryOp, Expr, FunctionCall, Tree, UnaryArithmetic, UnaryOp,
};
use crate::visitor::base::Visitor;
use crate::visitor::layout::{
    binary_name, expr_lines, expr_reach, lemma_list_reach_grows, lemma_reach_grows,
    lemma_reach_monotone, list_lines, list_reach, node_lines, node_reach, pad, texts, unary_name,
};
use vstd::prelude::*;
use vstd::string::StringExecFns;

verus! {

/// A line: `width` spaces, then `label`, then `name`.
fn line(width: usize, label: &str, name: &str) -> (text: String)
    ensures
        text@ == pad(width as nat) + label@ + name@,
{
    let mut text = String::new();
    let mut done: usize = 0;
    while done < width
        invariant
            done <= width,
            text@ == pad(done as nat),
        decreases width - done,
    {
        proof {
            reveal_strlit(" ");
        }
        text.append(" ");
        done += 1;
        assert(text@ =~= pad(done as nat));
    }
    text.append(label);
    text.append(name);
    text
}

fn unary_label(op: UnaryOp) -> (label: &'static str)
    ensures
        label@ == unary_name(op),
{
    match op {
        UnaryOp::Pos => "Pos",
        UnaryOp::Neg => "Neg",
        UnaryOp::Fac => "Fac",
    }
}

fn binary_label(op: BinaryOp) -> (label: &'static str)
    ensures
        label@ == binary_name(op),
{
    match op {
        BinaryOp::Add => "Add",
        BinaryOp::Sub => "Sub",
        BinaryOp::Mul => "Mul",
        BinaryOp::Div => "Div",
    }
}

/// Appends `text` to `lines`.
fn emit(lines: &mut Vec<String>, text: String)
    ensures
        texts(final(lines)@) == texts(old(lines)@) + seq![text@],
{
    lines.push(text);
    assert(texts(lines@) =~= texts(old(lines)@) + seq![text@]);
}

/// Appends the lines of `e` as an expression to `lines`.
fn print_expr(e: &Expr, width: usize, step: usize, lines: &mut Vec<String>)
    requires
        expr_reach(e@, width as nat, step as nat) <= usize::MAX,
    ensures
        texts(final(lines)@) == texts(old(lines)@) + expr_lines(e@, width as nat, step as nat),
    decreases e, 1nat,
{
    proof {
        lemma_reach_grows(e@, width as nat, step as nat);
        lemma_tree_of(*e);
    }
    emit(lines, line(width, "Expr", ""));
    assert(pad(width as nat) + "Expr"@ + ""@ =~= pad(width as nat) + "Expr"@) by {
        reveal_strlit("");
    }
    let ghost first = texts(lines@);
    match e {
        Expr::UnaryArithmetic(u) => print_unary(u, width + step, step, lines),
        Expr::BinaryArithmetic(b) => print_binary(b, width + step, step, lines),
        Expr::FunctionCall(f) => print_function(f, width + step, step, lines),
        Expr::Atom(a) => print_atom(a, width + step, lines),
    }
    proof {
        let head = seq![pad(width as nat) + "Expr"@];
        let rest = node_lines(e@, (width + step) as nat, step as nat);
        assert(first == texts(old(lines)@) + head);
        assert(texts(lines@) == first + rest);
        assert(expr_lines(e@, width as nat, step as nat) == head + rest);
        assert((texts(old(lines)@) + head) + rest =~= texts(old(lines)@) + (head + rest));
    }
}

/// Appends the lines of a unary node to `lines`.
fn print_unary(u: &UnaryArithmetic, width: usize, step: usize, lines: &mut Vec<String>)
    requires
        node_reach(u@, width as nat, step as nat) <= usize::MAX,
    ensures
        texts(final(lines)@) == texts(old(lines)@) + node_lines(u@, width as nat, step as nat),
    decreases u, 0nat,
{
    proof {
        lemma_reach_grows(u.value@, (width + step) as nat, step as nat);
        reveal_strlit("");
    }
    emit(lines, line(width, unary_label(u.op), ""));
    emit(lines, line(width, "Unary", ""));
    assert(pad(width as nat) + unary_name(u.op) + ""@ =~= pad(width as nat) + unary_name(u.op));
    assert(pad(width as nat) + "Unary"@ + ""@ =~= pad(width as nat) + "Unary"@);
    print_expr(&u.value, width + step, step, lines);
    assert(texts(lines@) =~= texts(old(lines)@) + node_lines(u@, width as nat, step as nat));
}

/// Appends the lines of a binary node to `lines`.
fn print_binary(b: &BinaryArithmetic, width: usize, step: usize, lines: &mut Vec<String>)
    requires
        node_reach(b@, width as nat, step as nat) <= usize::MAX,
    ensures
        texts(final(lines)@) == texts(old(lines)@) + node_lines(b@, width as nat, step as nat),
    decreases b, 0nat,
{
    proof {
        lemma_reach_grows(b.lhs@, (width + step) as nat, step as nat);
        reveal_strlit("");
    }
    emit(lines, line(width, binary_label(b.op), ""));
    assert(pad(width as nat) + binary_name(b.op) + ""@ =~= pad(width as nat) + binary_name(b.op));
    print_expr(&b.lhs, width + step, step, lines);
    print_expr(&b.rhs, width + step, step, lines);
    assert(texts(lines@) =~= texts(old(lines)@) + node_lines(b@, width as nat, step as nat));
}

/// Appends the lines of a call to `lines`.
fn print_function(f: &FunctionCall, width: usize, step: usize, lines: &mut Vec<String>)
    requires
        node_reach(f@, width as nat, step as nat) <= usize::MAX,
    ensures
        texts(final(lines)@) == texts(old(lines)@) + node_lines(f@, width as nat, step as nat),
    decreases f, 0nat,
{
    let ghost args = trees_of(f.args@);
    proof {
        lemma_list_reach_grows(args, args.len(), (width + step) as nat, step as nat);
    }
    emit(lines, line(width, "Function ", f.name.as_str()));
    let ghost first = texts(lines@);
    let inner = width + step;
    let mut done: usize = 0;
    while done < f.args.len()
        invariant
            done <= f.args@.len(),
            args == trees_of(f.args@),
            inner == width + step,
            list_reach(args, args.len(), inner as nat, step as nat) <= usize::MAX,
            texts(lines@) == first + list_lines(args, done as nat, inner as nat, step as nat),
        decreases f.args@.len() - done,
    {
        proof {
            assert(decreases_to!(f.args => f.args@));
            assert(decreases_to!(f.args@ => f.args@[done as int]));
            lemma_list_reach_grows(args, args.len(), inner as nat, step as nat);
            assert(args[done as int] == f.args@[done as int]@);
        }
        let ghost before = texts(lines@);
        print_expr(&f.args[done], inner, step, lines);
        done += 1;
        assert(texts(lines@) =~= first + list_lines(args, done as nat, inner as nat, step as nat));
    }
    assert(texts(lines@) =~= texts(old(lines)@) + node_lines(f@, width as nat, step as nat));
}

/// Appends the line of a leaf to `lines`.
fn print_atom(a: &Atom, width: usize, lines: &mut Vec<String>)
    ensures
        forall|step: nat|
            texts(final(lines)@) == texts(old(lines)@) + #[trigger] node_lines(a@, width as nat, step),
{
    match a {
        Atom::Ident(name) => emit(lines, line(width, "Identifier ", name.as_str())),
        Atom::Number(number) => emit(lines, line(width, "Number ", number.as_str())),
    }
}

/// Whether `a + b` fits in a `usize`, and the sum if it does.
fn step_in(a: usize, b: usize) -> (sum: Option<usize>)
    ensures
        a + b <= usize::MAX ==> sum == Some((a + b) as usize),
        a + b > usize::MAX ==> sum is None,
{
    if b > usize::MAX - a {
        None
    } else {
        Some(a + b)
    }
}

/// Whether the lines of `e` as an expression stay within what a `usize` can
/// count.
fn expr_fits(e: &Expr, width: usize, step: usize) -> (fits: bool)
    ensures
        fits == (expr_reach(e@, width as nat, step as nat) <= usize::MAX),
    decreases e, 1nat,
{
    proof {
        lemma_reach_grows(e@, width as nat, step as nat);
        lemma_tree_of(*e);
    }
    let inner = match step_in(width, step) {
        Some(inner) => inner,
        None => {
            return false;
        },
    };
    match e {
        Expr::UnaryArithmetic(u) => unary_fits(u, inner, step),
        Expr::BinaryArithmetic(b) => binary_fits(b, inner, step),
        Expr::FunctionCall(f) => function_fits(f, inner, step),
        Expr::Atom(_) => true,
    }
}

/// Whether the lines of a unary node stay within what a `usize` can count.
fn unary_fits(u: &UnaryArithmetic, width: usize, step: usize) -> (fits: bool)
    ensures
        fits == (node_reach(u@, width as nat, step as nat) <= usize::MAX),
    decreases u, 0nat,
{
    proof {
        lemma_reach_grows(u.value@, (width + step) as nat, step as nat);
    }
    match step_in(width, step) {
        Some(inner) => expr_fits(&u.value, inner, step),
        None => false,
    }
}

/// Whether the lines of a binary node stay within what a `usize` can count.
fn binary_fits(b: &BinaryArithmetic, width: usize, step: usize) -> (fits: bool)
    ensures
        fits == (node_reach(b@, width as nat, step as nat) <= usize::MAX),
    decreases b, 0nat,
{
    proof {
        lemma_reach_grows(b.lhs@, (width + step) as nat, step as nat);
    }
    match step_in(width, step) {
        Some(inner) => expr_fits(&b.lhs, inner, step) && expr_fits(&b.rhs, inner, step),
        None => false,
    }
}

/// Whether the lines of a call stay within what a `usize` can count.
fn function_fits(f: &FunctionCall, width: usize, step: usize) -> (fits: bool)
    ensures
        fits == (node_reach(f@, width as nat, step as nat) <= usize::MAX),
    decreases f, 0nat,
{
    let ghost args = trees_of(f.args@);
    proof {
        lemma_list_reach_grows(args, args.len(), (width + step) as nat, step as nat);
    }
    let inner = match step_in(width, step) {
        Some(inner) => inner,
        None => {
            return false;
        },
    };
    let mut done: usize = 0;
    while done < f.args.len()
        invariant
            done <= f.args@.len(),
            args == trees_of(f.args@),
            inner == width + step,
            list_reach(args, done as nat, inner as nat, step as nat) <= usize::MAX,
            node_reach(f@, width as nat, step as nat) == list_reach(
                args,
                args.len(),
                inner as nat,
                step as nat,
            ),
        decreases f.args@.len() - done,
    {
        proof {
            assert(decreases_to!(f.args => f.args@));
            assert(decreases_to!(f.args@ => f.args@[done as int]));
            assert(args[done as int] == f.args@[done as int]@);
        }
        if !expr_fits(&f.args[done], inner, step) {
            proof {
                lemma_list_reach_grows(args, args.len(), inner as nat, step as nat);
            }
            return false;
        }
        done += 1;
    }
    true
}

/// A printer: the lines it has made so far, and how far in it puts them.
pub struct PrettyPrinter {
    indent_level: u32,
    indent: u32,
    lines: Vec<String>,
}

impl PrettyPrinter {
    /// How many levels in the printer stands.
    pub closed spec fn level(&self) -> nat {
        self.indent_level as nat
    }

    /// How many spaces a level is.
    pub closed spec fn step(&self) -> nat {
        self.indent as nat
    }

    /// How many spaces in the printer stands.
    pub open spec fn width(&self) -> nat {
        self.level() * self.step()
    }

    /// The lines made so far.
    pub closed spec fn printed(&self) -> Seq<Seq<char>> {
        texts(self.lines@)
    }

    /// A printer that has made no line, stands at the margin, and goes
    /// `indent` spaces in with each level.
    pub fn new(indent: u32) -> (printer: Self)
        ensures
            printer.level() == 0,
            printer.step() == indent,
            printer.printed() == Seq::<Seq<char>>::empty(),
    {
        let printer = PrettyPrinter { indent_level: 0, indent, lines: Vec::new() };
        assert(printer.printed() =~= Seq::<Seq<char>>::empty());
        printer
    }

    /// How many spaces in the printer stands.
    pub fn get_indent(&self) -> (width: usize)
        requires
            self.width() <= usize::MAX,
        ensures
            width == self.width(),
    {
        let level = self.indent_level as u64;
        let step = self.indent as u64;
        assert(level * step <= 0xffff_ffff * 0xffff_ffff) by (nonlinear_arith)
            requires
                level <= 0xffff_ffff,
                step <= 0xffff_ffff,
        ;
        (level * step) as usize
    }

    /// The lines made so far, in the order in which they were made.
    pub fn lines(&self) -> (lines: &Vec<String>)
        ensures
            texts(lines@) == self.printed(),
    {
        &self.lines
    }

    /// Whether the printer, as it stands, can walk `e`.
    pub fn fits(&self, e: &Expr) -> (fits: bool)
        ensures
            fits == self.admits(e@),
    {
        let level = self.indent_level as u64;
        let step = self.indent as u64;
        assert(level * step <= 0xffff_ffff * 0xffff_ffff) by (nonlinear_arith)
            requires
                level <= 0xffff_ffff,
                step <= 0xffff_ffff,
        ;
        let width = level * step;
        proof {
            lemma_reach_grows(e@, self.width(), self.step());
        }
        if width > usize::MAX as u64 {
            return false;
        }
        expr_fits(e, width as usize, self.indent as usize)
    }
}

impl Visitor<()> for PrettyPrinter {
    /// The printer walks a tree whose lines, from where the printer stands,
    /// go no further in than a `usize` can count.
    open spec fn admits(&self, tree: Tree) -> bool {
        expr_reach(tree, self.width(), self.step()) <= usize::MAX
    }

    /// Makes the lines of `e` as an expression.
    fn visit_expr(&mut self, e: &Expr)
        ensures
            final(self).level() == old(self).level(),
            final(self).step() == old(self).step(),
            final(self).printed() == old(self).printed() + expr_lines(
                e@,
                old(self).width(),
                old(self).step(),
            ),
    {
        proof {
            lemma_reach_grows(e@, self.width(), self.step());
        }
        let width = self.get_indent();
        print_expr(e, width, self.indent as usize, &mut self.lines);
    }

    /// Makes the lines of a unary node.
    fn visit_unary(&mut self, u: &UnaryArithmetic)
        ensures
            final(self).level() == old(self).level(),
            final(self).step() == old(self).step(),
            final(self).printed() == old(self).printed() + node_lines(
                u@,
                old(self).width(),
                old(self).step(),
            ),
    {
        proof {
            lemma_reach_grows(u@, self.width(), self.step());
            lemma_reach_monotone(u@, self.width(), self.width() + self.step(), self.step());
        }
        let width = self.get_indent();
        print_unary(u, width, self.indent as usize, &mut self.lines);
    }

    /// Makes the lines of a binary node.
    fn visit_binary(&mut self, b: &BinaryArithmetic)
        ensures
            final(self).level() == old(self).level(),
            final(self).step() == old(self).step(),
            final(self).printed() == old(self).printed() + node_lines(
                b@,
                old(self).width(),
                old(self).step(),
            ),
    {
        proof {
            lemma_reach_grows(b@, self.width(), self.step());
            lemma_reach_monotone(b@, self.width(), self.width() + self.step(), self.step());
        }
        let width = self.get_indent();
        print_binary(b, width, self.indent as usize, &mut self.lines);
    }

    /// Makes the lines of a call.
    fn visit_function(&mut self, f: &FunctionCall)
        ensures
            final(self).level() == old(self).level(),
            final(self).step() == old(self).step(),
            final(self).printed() == old(self).printed() + node_lines(
                f@,
                old(self).width(),
                old(self).step(),
            ),
    {
        proof {
            lemma_reach_grows(f@, self.width(), self.step());
            lemma_reach_monotone(f@, self.width(), self.width() + self.step(), self.step());
        }
        let width = self.get_indent();
        print_function(f, width, self.indent as usize, &mut self.lines);
    }

    /// Makes the line of a leaf.
    fn visit_atom(&mut self, a: &Atom)
        ensures
            final(self).level() == old(self).level(),
            final(self).step() == old(self).step(),
            final(self).printed() == old(self).printed() + node_lines(
                a@,
                old(self).width(),
                old(self).step(),
            ),
    {
        proof {
            lemma_reach_grows(a@, self.width(), self.step());
        }
        let width = self.get_indent();
        print_atom(a, width, &mut self.lines);
    }
}

} // verus!
