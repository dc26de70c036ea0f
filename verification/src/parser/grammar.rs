//! The grammar, as mathematics.
//!
//! Every rule is a function of the input and a position. It says whether the
//! rule matches there, what tree it builds, how many characters it takes, and
//! how far the attempt reached: the furthest position at which a token was
//! asked for in vain, with all the tokens asked for there.
//!
//! From the tightest binding to the loosest:
//!
//! ```text
//! factor  :=  number | call | identifier | "(" _ sum _ ")"
//! unary   :=  ("+" | "-") _ unary  |  factor "!"*
//! product :=  unary   (_ ("*" | "/") _ unary)*
//! sum     :=  product (_ ("+" | "-") _ product)*
//! call    :=  identifier _ "(" _ (sum (_ "," _ sum)*)? ","? _ ")"
//! ```
//!
//! where `_` is any number of spaces. Choices are ordered and repetitions are
//! greedy: a rule never gives back what it has taken, except that an operator
//! or a comma whose operand fails to follow is left where it stands.

use crate::ast::atom::is_digit;
use crate::ast::{BinaryOp, Tree, UnaryOp};
use crate::parser::expected::{join, miss, quiet, Frontier, Token};
use vstd::prelude::*;

verus! {

/// What a rule made of the input at one position.
pub struct Outcome<T> {
    /// The value built and the number of characters taken, if the rule matched.
    pub matched: Option<(T, nat)>,
    /// How far the attempt reached, whether it matched or not.
    pub frontier: Frontier,
}

/// The outcome of a rule that does not match.
pub open spec fn fail<T>(frontier: Frontier) -> Outcome<T> {
    Outcome { matched: None, frontier }
}

/// The outcome of a rule that matches `len` characters as `value`.
pub open spec fn done<T>(value: T, len: nat, frontier: Frontier) -> Outcome<T> {
    Outcome { matched: Some((value, len)), frontier }
}

/// The outcome of going on with `next` after `len` characters that left
/// `before` behind.
pub open spec fn then<T>(len: nat, before: Frontier, next: Outcome<T>) -> Outcome<T> {
    Outcome {
        matched: match next.matched {
            Some((value, more)) => Some((value, len + more)),
            None => None,
        },
        frontier: join(before, next.frontier),
    }
}

/// How many characters are left from `pos` on.
pub open spec fn room(s: Seq<char>, pos: nat) -> nat {
    if pos <= s.len() {
        (s.len() - pos) as nat
    } else {
        0
    }
}

/// Whether the character at `pos` is `c`.
pub open spec fn stands(s: Seq<char>, pos: nat, c: char) -> bool {
    pos < s.len() && s[pos as int] == c
}

/// Whether `c` is a digit other than `0`.
pub open spec fn is_nonzero_digit(c: char) -> bool {
    '1' <= c <= '9'
}

/// Whether `c` can open an identifier: a letter or `_`.
pub open spec fn is_ident_start(c: char) -> bool {
    ('a' <= c <= 'z') || ('A' <= c <= 'Z') || c == '_'
}

/// Whether `c` can continue an identifier: a letter, a digit or `_`.
pub open spec fn is_ident_continue(c: char) -> bool {
    is_ident_start(c) || is_digit(c)
}

/// A kind of character that the grammar takes in runs.
#[derive(Debug, PartialEq, Eq, Clone, Copy, Structural)]
pub enum Class {
    /// A space.
    Space,
    /// A space, a line feed or a carriage return.
    Blank,
    /// A digit.
    Digit,
    /// A letter, a digit or `_`.
    IdentContinue,
    /// `!`
    Bang,
}

impl Class {
    /// Whether `c` is of this class.
    pub open spec fn holds(self, c: char) -> bool {
        match self {
            Class::Space => c == ' ',
            Class::Blank => c == ' ' || c == '\n' || c == '\r',
            Class::Digit => is_digit(c),
            Class::IdentContinue => is_ident_continue(c),
            Class::Bang => c == '!',
        }
    }
}

/// The length of the longest run of characters of `class` that starts at `pos`.
pub open spec fn run(s: Seq<char>, pos: nat, class: Class) -> nat
    decreases room(s, pos),
{
    if pos < s.len() && class.holds(s[pos as int]) {
        1 + run(s, pos + 1, class)
    } else {
        0
    }
}

/// The number of spaces that start at `pos`.
pub open spec fn spaces(s: Seq<char>, pos: nat) -> nat {
    run(s, pos, Class::Space)
}

/// What is asked for in vain where a run of blanks ends.
pub open spec fn blank_misses(at: nat) -> Frontier {
    join(miss(at, Token::Space), join(miss(at, Token::LineFeed), miss(at, Token::CarriageReturn)))
}

/// A number: an optional `-`, then `0` or digits that do not start with `0`,
/// then optionally `.` and at least one digit. The tree holds the characters
/// of the literal.
pub open spec fn number(s: Seq<char>, pos: nat) -> Outcome<Tree> {
    let sign: nat = if stands(s, pos, '-') {
        1
    } else {
        0
    };
    let before = if sign == 0 {
        miss(pos, Token::Minus)
    } else {
        quiet()
    };
    let whole = pos + sign;
    if stands(s, whole, '0') {
        fraction(s, pos, whole + 1, before)
    } else if whole < s.len() && is_nonzero_digit(s[whole as int]) {
        let end = whole + 1 + run(s, whole + 1, Class::Digit);
        fraction(s, pos, end, join(before, join(miss(whole, Token::Zero), miss(end, Token::Digit))))
    } else {
        fail(join(before, join(miss(whole, Token::Zero), miss(whole, Token::NonZeroDigit))))
    }
}

/// The rest of a number that began at `start` and whose integer part ends at
/// `point`: a `.` with digits after it belongs to the number, a `.` without
/// does not.
pub open spec fn fraction(s: Seq<char>, start: nat, point: nat, before: Frontier) -> Outcome<
    Tree,
> {
    let digits = run(s, point + 1, Class::Digit);
    if !stands(s, point, '.') {
        done(
            Tree::Number(s.subrange(start as int, point as int)),
            (point - start) as nat,
            join(before, miss(point, Token::Dot)),
        )
    } else if digits == 0 {
        done(
            Tree::Number(s.subrange(start as int, point as int)),
            (point - start) as nat,
            join(before, miss(point + 1, Token::Digit)),
        )
    } else {
        let end = point + 1 + digits;
        done(
            Tree::Number(s.subrange(start as int, end as int)),
            (end - start) as nat,
            join(before, miss(end, Token::Digit)),
        )
    }
}

/// An identifier: a letter or `_`, then letters, digits and `_`. The value is
/// the name.
pub open spec fn identifier(s: Seq<char>, pos: nat) -> Outcome<Seq<char>> {
    if pos < s.len() && is_ident_start(s[pos as int]) {
        let len = 1 + run(s, pos + 1, Class::IdentContinue);
        done(s.subrange(pos as int, (pos + len) as int), len, miss(pos + len, Token::IdentContinue))
    } else {
        fail(miss(pos, Token::IdentStart))
    }
}

/// An identifier as a tree.
pub open spec fn variable(s: Seq<char>, pos: nat) -> Outcome<Tree> {
    let id = identifier(s, pos);
    Outcome {
        matched: match id.matched {
            Some((name, len)) => Some((Tree::Ident(name), len)),
            None => None,
        },
        frontier: id.frontier,
    }
}

/// One of the two levels of left-associative binary operators.
#[derive(Debug, PartialEq, Eq, Clone, Copy, Structural)]
pub enum Level {
    /// `+` and `-`, over products.
    Sum,
    /// `*` and `/`, over unary expressions.
    Product,
}

impl Level {
    /// The operator of this level that `c` stands for.
    pub open spec fn operator(self, c: char) -> Option<BinaryOp> {
        match self {
            Level::Sum => if c == '+' {
                Some(BinaryOp::Add)
            } else if c == '-' {
                Some(BinaryOp::Sub)
            } else {
                None
            },
            Level::Product => if c == '*' {
                Some(BinaryOp::Mul)
            } else if c == '/' {
                Some(BinaryOp::Div)
            } else {
                None
            },
        }
    }

    /// What is asked for in vain where no operator of this level stands.
    pub open spec fn misses(self, at: nat) -> Frontier {
        match self {
            Level::Sum => join(miss(at, Token::Plus), miss(at, Token::Minus)),
            Level::Product => join(miss(at, Token::Star), miss(at, Token::Slash)),
        }
    }

    /// Orders the rules that start at one position.
    pub open spec fn rank(self) -> nat {
        match self {
            Level::Sum => 8,
            Level::Product => 6,
        }
    }
}

/// The operator of `level` at `at`, if one stands there.
pub open spec fn operator_at(s: Seq<char>, at: nat, level: Level) -> Option<BinaryOp> {
    if at < s.len() {
        level.operator(s[at as int])
    } else {
        None
    }
}

/// The prefix operator at `at`, if one stands there.
pub open spec fn sign_at(s: Seq<char>, at: nat) -> Option<UnaryOp> {
    if stands(s, at, '+') {
        Some(UnaryOp::Pos)
    } else if stands(s, at, '-') {
        Some(UnaryOp::Neg)
    } else {
        None
    }
}

/// `tree` under `count` factorials.
pub open spec fn factorials(tree: Tree, count: nat) -> Tree
    decreases count,
{
    if count == 0 {
        tree
    } else {
        Tree::Unary(UnaryOp::Fac, Box::new(factorials(tree, (count - 1) as nat)))
    }
}

/// A chain of one level: an operand, then operators with an operand each,
/// combined from the left.
pub open spec fn chain(s: Seq<char>, pos: nat, level: Level) -> Outcome<Tree>
    decreases room(s, pos), level.rank() + 1,
{
    let first = match level {
        Level::Sum => chain(s, pos, Level::Product),
        Level::Product => unary(s, pos),
    };
    match first.matched {
        Some((lhs, len)) => then(len, first.frontier, chain_tail(s, pos + len, lhs, level)),
        None => first,
    }
}

/// What follows `lhs` in a chain: as many operators with their operand as
/// stand at `pos`. It always matches, if only the empty text.
pub open spec fn chain_tail(s: Seq<char>, pos: nat, lhs: Tree, level: Level) -> Outcome<Tree>
    decreases room(s, pos), level.rank(),
{
    let at = pos + spaces(s, pos);
    match operator_at(s, at, level) {
        Some(op) => {
            let start = at + 1 + spaces(s, at + 1);
            let rhs = match level {
                Level::Sum => chain(s, start, Level::Product),
                Level::Product => unary(s, start),
            };
            let reach = join(miss(start, Token::Space), rhs.frontier);
            match rhs.matched {
                Some((operand, len)) => then(
                    (start + len - pos) as nat,
                    reach,
                    chain_tail(
                        s,
                        start + len,
                        Tree::Binary(op, Box::new(lhs), Box::new(operand)),
                        level,
                    ),
                ),
                None => done(lhs, 0, reach),
            }
        },
        None => done(lhs, 0, join(miss(at, Token::Space), level.misses(at))),
    }
}

/// A unary expression: a sign before a unary expression, or a factor with
/// any number of `!` after it.
pub open spec fn unary(s: Seq<char>, pos: nat) -> Outcome<Tree>
    decreases room(s, pos), 5nat,
{
    match sign_at(s, pos) {
        Some(op) => {
            let start = pos + 1 + spaces(s, pos + 1);
            let inner = unary(s, start);
            let reach = join(miss(start, Token::Space), inner.frontier);
            match inner.matched {
                Some((operand, len)) => done(
                    Tree::Unary(op, Box::new(operand)),
                    (start + len - pos) as nat,
                    reach,
                ),
                None => fail(reach),
            }
        },
        None => {
            let base = factor(s, pos);
            let reach = join(join(miss(pos, Token::Plus), miss(pos, Token::Minus)), base.frontier);
            match base.matched {
                Some((operand, len)) => {
                    let bangs = run(s, pos + len, Class::Bang);
                    done(
                        factorials(operand, bangs),
                        len + bangs,
                        join(reach, miss(pos + len + bangs, Token::Bang)),
                    )
                },
                None => fail(reach),
            }
        },
    }
}

/// A factor: the first that matches of a number, a call, an identifier and
/// an expression in parentheses.
pub open spec fn factor(s: Seq<char>, pos: nat) -> Outcome<Tree>
    decreases room(s, pos), 4nat,
{
    let literal = number(s, pos);
    if literal.matched is Some {
        literal
    } else {
        let called = call(s, pos);
        let reach = join(literal.frontier, called.frontier);
        if called.matched is Some {
            Outcome { matched: called.matched, frontier: reach }
        } else {
            let named = variable(s, pos);
            let reach = join(reach, named.frontier);
            if named.matched is Some {
                Outcome { matched: named.matched, frontier: reach }
            } else if stands(s, pos, '(') {
                let start = pos + 1 + spaces(s, pos + 1);
                let inner = chain(s, start, Level::Sum);
                let reach = join(join(reach, miss(start, Token::Space)), inner.frontier);
                match inner.matched {
                    Some((tree, len)) => {
                        let close = start + len + spaces(s, start + len);
                        let reach = join(reach, miss(close, Token::Space));
                        if stands(s, close, ')') {
                            done(tree, (close + 1 - pos) as nat, reach)
                        } else {
                            fail(join(reach, miss(close, Token::RightParen)))
                        }
                    },
                    None => fail(reach),
                }
            } else {
                fail(join(reach, miss(pos, Token::LeftParen)))
            }
        }
    }
}

/// A call: a name, then the arguments in parentheses, separated by commas,
/// with at most one comma right after the last of them.
pub open spec fn call(s: Seq<char>, pos: nat) -> Outcome<Tree>
    decreases room(s, pos), 3nat,
{
    let id = identifier(s, pos);
    match id.matched {
        Some((name, len)) => {
            let open = pos + len + spaces(s, pos + len);
            let reach = join(id.frontier, miss(open, Token::Space));
            if stands(s, open, '(') {
                let start = open + 1 + spaces(s, open + 1);
                let args = arguments(s, start);
                let reach = join(join(reach, miss(start, Token::Space)), args.frontier);
                match args.matched {
                    Some((list, taken)) => close_call(
                        s,
                        pos,
                        start + taken,
                        Tree::Call(name, list),
                        reach,
                    ),
                    None => fail(reach),
                }
            } else {
                fail(join(reach, miss(open, Token::LeftParen)))
            }
        },
        None => fail(id.frontier),
    }
}

/// The end of a call that began at `pos` and whose arguments end at `after`:
/// at most one comma at once, then the closing parenthesis.
pub open spec fn close_call(
    s: Seq<char>,
    pos: nat,
    after: nat,
    tree: Tree,
    before: Frontier,
) -> Outcome<Tree> {
    let comma: nat = if stands(s, after, ',') {
        1
    } else {
        0
    };
    let reach = if comma == 0 {
        join(before, miss(after, Token::Comma))
    } else {
        before
    };
    let close = after + comma + spaces(s, after + comma);
    let reach = join(reach, miss(close, Token::Space));
    if stands(s, close, ')') {
        done(tree, (close + 1 - pos) as nat, reach)
    } else {
        fail(join(reach, miss(close, Token::RightParen)))
    }
}

/// The arguments of a call, in source order. It always matches, if only the
/// empty list.
pub open spec fn arguments(s: Seq<char>, pos: nat) -> Outcome<Seq<Tree>>
    decreases room(s, pos), 10nat,
{
    let first = chain(s, pos, Level::Sum);
    match first.matched {
        Some((tree, len)) => then(len, first.frontier, more_arguments(s, pos + len, seq![tree])),
        None => done(Seq::empty(), 0, first.frontier),
    }
}

/// The arguments that follow `list`, each after a comma.
pub open spec fn more_arguments(s: Seq<char>, pos: nat, list: Seq<Tree>) -> Outcome<Seq<Tree>>
    decreases room(s, pos), 2nat,
{
    let at = pos + spaces(s, pos);
    if stands(s, at, ',') {
        let start = at + 1 + spaces(s, at + 1);
        let next = chain(s, start, Level::Sum);
        let reach = join(miss(start, Token::Space), next.frontier);
        match next.matched {
            Some((tree, len)) => then(
                (start + len - pos) as nat,
                reach,
                more_arguments(s, start + len, list.push(tree)),
            ),
            None => done(list, 0, reach),
        }
    } else {
        done(list, 0, join(miss(at, Token::Space), miss(at, Token::Comma)))
    }
}

/// A whole program: an expression with blanks around it.
pub open spec fn program(s: Seq<char>, pos: nat) -> Outcome<Tree> {
    let start = pos + run(s, pos, Class::Blank);
    let body = chain(s, start, Level::Sum);
    let reach = join(blank_misses(start), body.frontier);
    match body.matched {
        Some((tree, len)) => {
            let end = start + len + run(s, start + len, Class::Blank);
            done(tree, (end - pos) as nat, join(reach, blank_misses(end)))
        },
        None => fail(reach),
    }
}

/// A rule that can be asked to match a whole input.
#[derive(Debug, PartialEq, Eq, Clone, Copy, Structural)]
pub enum Rule {
    Program,
    Expr,
    Term,
    FactorWithUnaryOp,
    Factor,
    FunctionCall,
    Number,
    Identifier,
}

impl Rule {
    /// What the rule makes of `s` at `pos`.
    pub open spec fn at(self, s: Seq<char>, pos: nat) -> Outcome<Tree> {
        match self {
            Rule::Program => program(s, pos),
            Rule::Expr => chain(s, pos, Level::Sum),
            Rule::Term => chain(s, pos, Level::Product),
            Rule::FactorWithUnaryOp => unary(s, pos),
            Rule::Factor => factor(s, pos),
            Rule::FunctionCall => call(s, pos),
            Rule::Number => number(s, pos),
            Rule::Identifier => variable(s, pos),
        }
    }

    /// What the rule makes of the whole of `s`: its tree if it matches all of
    /// it, else how far the attempt reached. An input that goes on after a
    /// match should have ended there.
    pub open spec fn parse(self, s: Seq<char>) -> Result<Tree, Frontier> {
        let outcome = self.at(s, 0);
        match outcome.matched {
            Some((tree, len)) => if len >= s.len() {
                Ok(tree)
            } else {
                Err(join(outcome.frontier, miss(len, Token::EndOfInput)))
            },
            None => Err(outcome.frontier),
        }
    }
}

/// The line of position `at`, counted from 1: one more than the line feeds
/// before it.
pub open spec fn line_of(s: Seq<char>, at: nat) -> nat
    decreases at,
{
    if at == 0 || at > s.len() {
        1
    } else if s[at - 1] == '\n' {
        line_of(s, (at - 1) as nat) + 1
    } else {
        line_of(s, (at - 1) as nat)
    }
}

/// The column of position `at`, counted from 1: one more than the characters
/// between it and the line feed before it.
pub open spec fn column_of(s: Seq<char>, at: nat) -> nat
    decreases at,
{
    if at == 0 || at > s.len() || s[at - 1] == '\n' {
        1
    } else {
        column_of(s, (at - 1) as nat) + 1
    }
}

} // verus!
