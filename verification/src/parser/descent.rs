//! The rules that nest: chains of operators, signs and factorials, factors,
//! calls.

use crate::ast::expr::trees_of;
use crate::ast::{BinaryArithmetic, BinaryOp, Expr, FunctionCall, Tree, UnaryArithmetic, UnaryOp};
use crate::parser::expected::{join, lemma_join_associative, Frontier, Token};
use crate::parser::grammar;
use crate::parser::grammar::{then, Class, Level, Outcome};
use crate::parser::lexical::{identifier, number, skip, stands, variable, Parsed, Reach};
use vstd::prelude::*;

verus! {

/// Going on after going on is going on once, over both stretches.
pub proof fn lemma_then_then<T>(
    first: nat,
    before: Frontier,
    second: nat,
    between: Frontier,
    next: Outcome<T>,
)
    ensures
        then(first, before, then(second, between, next)) == then(
            first + second,
            join(before, between),
            next,
        ),
{
    lemma_join_associative(before, between, next.frontier);
}

impl Level {
    /// The operator of this level at `at`, if one stands there.
    pub fn operator_at(self, s: &Vec<char>, at: usize) -> (op: Option<BinaryOp>)
        ensures
            op == grammar::operator_at(s@, at as nat, self),
    {
        if at >= s.len() {
            return None;
        }
        let c = s[at];
        match self {
            Level::Sum => if c == '+' {
                Some(BinaryOp::Add)
            } else if c == '-' {
                Some(BinaryOp::Sub)
            } else {
                None
            },
            Level::Product => if c == '*' {
                Some(BinaryOp::Mul)
            } else if c == '/' {
                Some(BinaryOp::Div)
            } else {
                None
            },
        }
    }

    /// What is asked for in vain where no operator of this level stands.
    pub fn misses_at(self, at: usize) -> (reach: Reach)
        ensures
            reach@ == self.misses(at as nat),
            reach.at == at,
    {
        match self {
            Level::Sum => Reach::miss(at, Token::Plus).join(Reach::miss(at, Token::Minus)),
            Level::Product => Reach::miss(at, Token::Star).join(Reach::miss(at, Token::Slash)),
        }
    }
}

/// The prefix operator at `at`, if one stands there.
pub fn sign_at(s: &Vec<char>, at: usize) -> (op: Option<UnaryOp>)
    ensures
        op == grammar::sign_at(s@, at as nat),
{
    if stands(s, at, '+') {
        Some(UnaryOp::Pos)
    } else if stands(s, at, '-') {
        Some(UnaryOp::Neg)
    } else {
        None
    }
}

/// A chain of `level` at `pos`.
pub fn chain(s: &Vec<char>, pos: usize, level: Level) -> (parsed: Parsed<Expr>)
    requires
        pos <= s.len(),
    ensures
        parsed.agrees(pos as nat, grammar::chain(s@, pos as nat, level)),
        parsed.within(s@.len()),
    decreases s@.len() - pos, level.rank() + 1,
{
    let first = match level {
        Level::Sum => chain(s, pos, Level::Product),
        Level::Product => unary(s, pos),
    };
    let (mut lhs, mut cur) = match first.matched {
        Some((e, end)) => (e, end),
        None => {
            return Parsed { matched: None, reach: first.reach };
        },
    };
    let mut reach = first.reach;
    loop
        invariant
            pos <= cur <= s.len(),
            reach.at <= s.len(),
            grammar::chain(s@, pos as nat, level) == then(
                (cur - pos) as nat,
                reach@,
                grammar::chain_tail(s@, cur as nat, lhs@, level),
            ),
        decreases s.len() - cur,
    {
        let at = skip(s, cur, Class::Space);
        match level.operator_at(s, at) {
            Some(op) => {
                let start = skip(s, at + 1, Class::Space);
                let rhs = match level {
                    Level::Sum => chain(s, start, Level::Product),
                    Level::Product => unary(s, start),
                };
                let step = Reach::miss(start, Token::Space).join(rhs.reach);
                match rhs.matched {
                    Some((operand, end)) => {
                        proof {
                            lemma_then_then(
                                (cur - pos) as nat,
                                reach@,
                                (end - cur) as nat,
                                step@,
                                grammar::chain_tail(
                                    s@,
                                    end as nat,
                                    Tree::Binary(op, Box::new(lhs@), Box::new(operand@)),
                                    level,
                                ),
                            );
                        }
                        lhs = Expr::from(BinaryArithmetic::new(op, lhs, operand));
                        reach = reach.join(step);
                        cur = end;
                    },
                    None => {
                        return Parsed { matched: Some((lhs, cur)), reach: reach.join(step) };
                    },
                }
            },
            None => {
                let stop = Reach::miss(at, Token::Space).join(level.misses_at(at));
                return Parsed { matched: Some((lhs, cur)), reach: reach.join(stop) };
            },
        }
    }
}

/// `operand` under `count` factorials.
fn wrap_factorials(operand: Expr, count: usize) -> (e: Expr)
    ensures
        e@ == grammar::factorials(operand@, count as nat),
{
    let mut e = operand;
    let mut done: usize = 0;
    while done < count
        invariant
            done <= count,
            e@ == grammar::factorials(operand@, done as nat),
        decreases count - done,
    {
        e = Expr::from(UnaryArithmetic::new(UnaryOp::Fac, e));
        done += 1;
    }
    e
}

/// A unary expression at `pos`.
pub fn unary(s: &Vec<char>, pos: usize) -> (parsed: Parsed<Expr>)
    requires
        pos <= s.len(),
    ensures
        parsed.agrees(pos as nat, grammar::unary(s@, pos as nat)),
        parsed.within(s@.len()),
    decreases s@.len() - pos, 5nat,
{
    match sign_at(s, pos) {
        Some(op) => {
            let start = skip(s, pos + 1, Class::Space);
            let inner = unary(s, start);
            let reach = Reach::miss(start, Token::Space).join(inner.reach);
            match inner.matched {
                Some((operand, end)) => Parsed {
                    matched: Some((Expr::from(UnaryArithmetic::new(op, operand)), end)),
                    reach,
                },
                None => Parsed { matched: None, reach },
            }
        },
        None => {
            let base = factor(s, pos);
            let reach = Reach::miss(pos, Token::Plus).join(Reach::miss(pos, Token::Minus)).join(
                base.reach,
            );
            match base.matched {
                Some((operand, after)) => {
                    let end = skip(s, after, Class::Bang);
                    Parsed {
                        matched: Some((wrap_factorials(operand, end - after), end)),
                        reach: reach.join(Reach::miss(end, Token::Bang)),
                    }
                },
                None => Parsed { matched: None, reach },
            }
        },
    }
}

/// A factor at `pos`.
pub fn factor(s: &Vec<char>, pos: usize) -> (parsed: Parsed<Expr>)
    requires
        pos <= s.len(),
    ensures
        parsed.agrees(pos as nat, grammar::factor(s@, pos as nat)),
        parsed.within(s@.len()),
    decreases s@.len() - pos, 4nat,
{
    let literal = number(s, pos);
    if literal.matched.is_some() {
        return literal;
    }
    let called = call(s, pos);
    let reach = literal.reach.join(called.reach);
    if called.matched.is_some() {
        return Parsed { matched: called.matched, reach };
    }
    let named = variable(s, pos);
    let reach = reach.join(named.reach);
    if named.matched.is_some() {
        return Parsed { matched: named.matched, reach };
    }
    if !stands(s, pos, '(') {
        return Parsed { matched: None, reach: reach.join(Reach::miss(pos, Token::LeftParen)) };
    }
    let start = skip(s, pos + 1, Class::Space);
    let inner = chain(s, start, Level::Sum);
    let reach = reach.join(Reach::miss(start, Token::Space)).join(inner.reach);
    match inner.matched {
        Some((e, end)) => {
            let close = skip(s, end, Class::Space);
            let reach = reach.join(Reach::miss(close, Token::Space));
            if stands(s, close, ')') {
                Parsed { matched: Some((e, close + 1)), reach }
            } else {
                Parsed { matched: None, reach: reach.join(Reach::miss(close, Token::RightParen)) }
            }
        },
        None => Parsed { matched: None, reach },
    }
}

/// A call at `pos`.
pub fn call(s: &Vec<char>, pos: usize) -> (parsed: Parsed<Expr>)
    requires
        pos <= s.len(),
    ensures
        parsed.agrees(pos as nat, grammar::call(s@, pos as nat)),
        parsed.within(s@.len()),
    decreases s@.len() - pos, 3nat,
{
    let (found, reach) = identifier(s, pos);
    let (name, after_name) = match found {
        Some((name, end)) => (name, end),
        None => {
            return Parsed { matched: None, reach };
        },
    };
    let open = skip(s, after_name, Class::Space);
    let reach = reach.join(Reach::miss(open, Token::Space));
    if !stands(s, open, '(') {
        return Parsed { matched: None, reach: reach.join(Reach::miss(open, Token::LeftParen)) };
    }
    let start = skip(s, open + 1, Class::Space);
    let Listed { list, end: after, reach: inner } = arguments(s, start);
    let reach = reach.join(Reach::miss(start, Token::Space)).join(inner);
    close_call(s, pos, after, Expr::from(FunctionCall::new(name, list)), reach)
}

/// The end of a call that began at `pos` and whose arguments end at `after`.
fn close_call(s: &Vec<char>, pos: usize, after: usize, e: Expr, before: Reach) -> (parsed: Parsed<
    Expr,
>)
    requires
        pos <= after <= s.len(),
        before.at <= s.len(),
    ensures
        parsed.agrees(
            pos as nat,
            grammar::close_call(s@, pos as nat, after as nat, e@, before@),
        ),
        parsed.within(s@.len()),
{
    let (reach, after_comma) = if stands(s, after, ',') {
        (before, after + 1)
    } else {
        (before.join(Reach::miss(after, Token::Comma)), after)
    };
    let close = skip(s, after_comma, Class::Space);
    let reach = reach.join(Reach::miss(close, Token::Space));
    if stands(s, close, ')') {
        Parsed { matched: Some((e, close + 1)), reach }
    } else {
        Parsed { matched: None, reach: reach.join(Reach::miss(close, Token::RightParen)) }
    }
}

/// The arguments of a call, as the parser holds them.
pub struct Listed {
    /// The arguments in source order.
    pub list: Vec<Expr>,
    /// The position after the last of them.
    pub end: usize,
    /// How far the attempt reached.
    pub reach: Reach,
}

/// The arguments at `pos`.
pub fn arguments(s: &Vec<char>, pos: usize) -> (found: Listed)
    requires
        pos <= s.len(),
    ensures
        grammar::arguments(s@, pos as nat) == grammar::done(
            trees_of(found.list@),
            (found.end - pos) as nat,
            found.reach@,
        ),
        pos <= found.end <= s.len(),
        found.reach.at <= s.len(),
    decreases s@.len() - pos, 10nat,
{
    let mut list: Vec<Expr> = Vec::new();
    let first = chain(s, pos, Level::Sum);
    let mut cur = match first.matched {
        Some((e, end)) => {
            assert(trees_of(list@.push(e)) =~= seq![e@]);
            list.push(e);
            end
        },
        None => {
            assert(trees_of(list@) =~= Seq::<Tree>::empty());
            return Listed { list, end: pos, reach: first.reach };
        },
    };
    let mut reach = first.reach;
    loop
        invariant
            pos <= cur <= s.len(),
            reach.at <= s.len(),
            grammar::arguments(s@, pos as nat) == then(
                (cur - pos) as nat,
                reach@,
                grammar::more_arguments(s@, cur as nat, trees_of(list@)),
            ),
        decreases s.len() - cur,
    {
        let at = skip(s, cur, Class::Space);
        if !stands(s, at, ',') {
            let stop = Reach::miss(at, Token::Space).join(Reach::miss(at, Token::Comma));
            return Listed { list, end: cur, reach: reach.join(stop) };
        }
        let start = skip(s, at + 1, Class::Space);
        let next = chain(s, start, Level::Sum);
        let step = Reach::miss(start, Token::Space).join(next.reach);
        match next.matched {
            Some((e, end)) => {
                proof {
                    lemma_then_then(
                        (cur - pos) as nat,
                        reach@,
                        (end - cur) as nat,
                        step@,
                        grammar::more_arguments(s@, end as nat, trees_of(list@).push(e@)),
                    );
                    assert(trees_of(list@.push(e)) =~= trees_of(list@).push(e@));
                }
                list.push(e);
                reach = reach.join(step);
                cur = end;
            },
            None => {
                return Listed { list, end: cur, reach: reach.join(step) };
            },
        }
    }
}

} // verus!
