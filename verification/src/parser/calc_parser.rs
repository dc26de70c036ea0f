//! The rules that can be asked to parse a whole input.

use crate::ast::Expr;
use crate::parser::descent::{call, chain, factor as factor_at, unary};
use crate::parser::error::{locate, renders, ParseError};
use crate::parser::expected::Token;
use crate::parser::grammar;
use crate::parser::grammar::{Class, Level, Rule};
use crate::parser::lexical::{chars_of, number as number_at, skip, variable, Parsed, Reach};
use vstd::prelude::*;

verus! {

/// What is asked for in vain where a run of blanks ends.
fn blank_misses(at: usize) -> (reach: Reach)
    ensures
        reach@ == grammar::blank_misses(at as nat),
        reach.at == at,
{
    Reach::miss(at, Token::Space).join(
        Reach::miss(at, Token::LineFeed).join(Reach::miss(at, Token::CarriageReturn)),
    )
}

/// A whole program at `pos`.
fn program_at(s: &Vec<char>, pos: usize) -> (parsed: Parsed<Expr>)
    requires
        pos <= s.len(),
    ensures
        parsed.agrees(pos as nat, grammar::program(s@, pos as nat)),
        parsed.within(s@.len()),
{
    let start = skip(s, pos, Class::Blank);
    let body = chain(s, start, Level::Sum);
    let reach = blank_misses(start).join(body.reach);
    match body.matched {
        Some((e, after)) => {
            let end = skip(s, after, Class::Blank);
            Parsed { matched: Some((e, end)), reach: reach.join(blank_misses(end)) }
        },
        None => Parsed { matched: None, reach },
    }
}

impl Rule {
    /// What the rule makes of `s` at `pos`.
    fn parse_at(self, s: &Vec<char>, pos: usize) -> (parsed: Parsed<Expr>)
        requires
            pos <= s.len(),
        ensures
            parsed.agrees(pos as nat, self.at(s@, pos as nat)),
            parsed.within(s@.len()),
    {
        match self {
            Rule::Program => program_at(s, pos),
            Rule::Expr => chain(s, pos, Level::Sum),
            Rule::Term => chain(s, pos, Level::Product),
            Rule::FactorWithUnaryOp => unary(s, pos),
            Rule::Factor => factor_at(s, pos),
            Rule::FunctionCall => call(s, pos),
            Rule::Number => number_at(s, pos),
            Rule::Identifier => variable(s, pos),
        }
    }
}

/// Parses the whole of `input` by `rule`.
///
/// Gives the tree if the rule matches all of the input. Otherwise gives the
/// line and column of the furthest position at which the input did not offer
/// what the grammar asked for, with everything that was asked for there;
/// where the rule matched only a part, the end of the input is among it.
pub fn parse(rule: Rule, input: &str) -> (result: Result<Expr, ParseError>)
    requires
        input@.len() < usize::MAX,
    ensures
        renders(result, input@, rule.parse(input@)),
{
    let s = chars_of(input);
    let parsed = rule.parse_at(&s, 0);
    let reach = match parsed.matched {
        Some((e, end)) => {
            if end >= s.len() {
                return Ok(e);
            }
            parsed.reach.join(Reach::miss(end, Token::EndOfInput))
        },
        None => parsed.reach,
    };
    Err(ParseError { location: locate(&s, reach.at), expected: reach.set })
}

/// Parses `input` as an expression with blanks, line ends among them,
/// before and after it.
pub fn program(input: &str) -> (result: Result<Expr, ParseError>)
    requires
        input@.len() < usize::MAX,
    ensures
        renders(result, input@, Rule::Program.parse(input@)),
{
    parse(Rule::Program, input)
}

/// Parses `input` as an expression: terms joined by `+` and `-`, from the
/// left.
pub fn expr(input: &str) -> (result: Result<Expr, ParseError>)
    requires
        input@.len() < usize::MAX,
    ensures
        renders(result, input@, Rule::Expr.parse(input@)),
{
    parse(Rule::Expr, input)
}

/// Parses `input` as a term: unary expressions joined by `*` and `/`, from
/// the left.
pub fn term(input: &str) -> (result: Result<Expr, ParseError>)
    requires
        input@.len() < usize::MAX,
    ensures
        renders(result, input@, Rule::Term.parse(input@)),
{
    parse(Rule::Term, input)
}

/// Parses `input` as a factor under signs or factorials.
pub fn factor_with_unary_op(input: &str) -> (result: Result<Expr, ParseError>)
    requires
        input@.len() < usize::MAX,
    ensures
        renders(result, input@, Rule::FactorWithUnaryOp.parse(input@)),
{
    parse(Rule::FactorWithUnaryOp, input)
}

/// Parses `input` as a factor: a number, a call, an identifier, or an
/// expression in parentheses.
pub fn factor(input: &str) -> (result: Result<Expr, ParseError>)
    requires
        input@.len() < usize::MAX,
    ensures
        renders(result, input@, Rule::Factor.parse(input@)),
{
    parse(Rule::Factor, input)
}

/// Parses `input` as a call.
pub fn function_call(input: &str) -> (result: Result<Expr, ParseError>)
    requires
        input@.len() < usize::MAX,
    ensures
        renders(result, input@, Rule::FunctionCall.parse(input@)),
{
    parse(Rule::FunctionCall, input)
}

/// Parses `input` as a number.
pub fn number(input: &str) -> (result: Result<Expr, ParseError>)
    requires
        input@.len() < usize::MAX,
    ensures
        renders(result, input@, Rule::Number.parse(input@)),
{
    parse(Rule::Number, input)
}

/// Parses `input` as an identifier.
pub fn identifier(input: &str) -> (result: Result<Expr, ParseError>)
    requires
        input@.len() < usize::MAX,
    ensures
        renders(result, input@, Rule::Identifier.parse(input@)),
{
    parse(Rule::Identifier, input)
}

} // verus!
