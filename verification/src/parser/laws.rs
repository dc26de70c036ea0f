//! What holds of the grammar on every input.

use crate::ast::atom::{decimal_shape, is_decimal, is_digit};
use crate::ast::Tree;
use crate::parser::expected::{join, miss, quiet, Frontier, Token};
use crate::parser::grammar;
use crate::parser::grammar::{
    is_ident_continue, is_ident_start, Class, Level, Outcome, Rule,
};
use vstd::prelude::*;

verus! {

/// A run ends within the input, holds only characters of its class, and
/// stops at the first that is not.
pub proof fn lemma_run(s: Seq<char>, pos: nat, class: Class)
    requires
        pos <= s.len(),
    ensures
        pos + grammar::run(s, pos, class) <= s.len(),
        forall|i: int|
            pos <= i < pos + grammar::run(s, pos, class) ==> class.holds(#[trigger] s[i]),
        pos + grammar::run(s, pos, class) < s.len() ==> !class.holds(
            s[(pos + grammar::run(s, pos, class)) as int],
        ),
    decreases s.len() - pos,
{
    if pos < s.len() && class.holds(s[pos as int]) {
        lemma_run(s, pos + 1, class);
    }
}

/// What the grammar calls a number is a decimal literal.
pub proof fn lemma_number_is_decimal(s: Seq<char>, pos: nat)
    requires
        pos <= s.len(),
    ensures
        grammar::number(s, pos).matched matches Some((tree, len)) ==> {
            &&& pos + len <= s.len()
            &&& tree == Tree::Number(s.subrange(pos as int, (pos + len) as int))
            &&& is_decimal(s.subrange(pos as int, (pos + len) as int))
        },
{
    let outcome = grammar::number(s, pos);
    if let Some((tree, len)) = outcome.matched {
        let sign: nat = if grammar::stands(s, pos, '-') {
            1
        } else {
            0
        };
        let first = pos + sign;
        let whole: nat = if grammar::stands(s, first, '0') {
            1
        } else {
            1 + grammar::run(s, first + 1, Class::Digit)
        };
        let point = first + whole;
        lemma_run(s, first + 1, Class::Digit);
        let digits = grammar::run(s, point + 1, Class::Digit);
        if point + 1 <= s.len() {
            lemma_run(s, point + 1, Class::Digit);
        }
        let frac: nat = if grammar::stands(s, point, '.') && digits > 0 {
            1 + digits
        } else {
            0
        };
        assert(len == sign + whole + frac);
        let text = s.subrange(pos as int, (pos + len) as int);
        assert forall|i: int| sign <= i < sign + whole implies is_digit(#[trigger] text[i]) by {
            assert(text[i] == s[pos + i]);
        }
        if frac >= 2 {
            assert forall|i: int| sign + whole + 1 <= i < text.len() implies is_digit(
                #[trigger] text[i],
            ) by {
                assert(text[i] == s[pos + i]);
            }
        }
        assert(decimal_shape(text, sign as int, whole as int, frac as int));
    }
}

/// A stretch of characters of one class that ends at the end of the input or
/// before a character of another class is a run.
pub proof fn lemma_run_exact(s: Seq<char>, pos: nat, end: nat, class: Class)
    requires
        pos <= end <= s.len(),
        forall|i: int| pos <= i < end ==> class.holds(#[trigger] s[i]),
        end == s.len() || !class.holds(s[end as int]),
    ensures
        grammar::run(s, pos, class) == end - pos,
    decreases end - pos,
{
    if pos < end {
        assert(class.holds(s[pos as int]));
        lemma_run_exact(s, pos + 1, end, class);
    }
}

/// Every decimal literal parses as a number, and the tree holds the literal
/// character for character.
pub proof fn law_decimal_parses(text: Seq<char>)
    requires
        is_decimal(text),
    ensures
        Rule::Number.parse(text) == Ok::<Tree, crate::parser::expected::Frontier>(
            Tree::Number(text),
        ),
{
    let (sign, whole, frac): (int, int, int) = choose|sign: int, whole: int, frac: int|
        decimal_shape(text, sign, whole, frac);
    assert(decimal_shape(text, sign, whole, frac));
    let first = sign as nat;
    let point = (sign + whole) as nat;
    assert(is_digit(text[sign]));
    assert(grammar::stands(text, 0, '-') <==> sign == 1);
    if text[sign] != '0' {
        assert forall|i: int| first + 1 <= i < point implies Class::Digit.holds(
            #[trigger] text[i],
        ) by {
            assert(is_digit(text[i]));
        }
        lemma_run_exact(text, first + 1, point, Class::Digit);
    }
    if frac >= 2 {
        assert forall|i: int| point + 1 <= i < text.len() implies Class::Digit.holds(
            #[trigger] text[i],
        ) by {
            assert(is_digit(text[i]));
        }
        lemma_run_exact(text, point + 1, text.len(), Class::Digit);
    }
    assert(text.subrange(0, text.len() as int) =~= text);
}

/// Whether `name` is an identifier: a letter or `_`, then letters, digits
/// and `_`.
pub open spec fn is_identifier(name: Seq<char>) -> bool {
    &&& name.len() >= 1
    &&& is_ident_start(name[0])
    &&& forall|i: int| 1 <= i < name.len() ==> is_ident_continue(#[trigger] name[i])
}

/// Whether every number of `tree` is a decimal literal and every name an
/// identifier.
pub open spec fn well_formed(tree: Tree) -> bool
    decreases tree,
{
    match tree {
        Tree::Number(text) => is_decimal(text),
        Tree::Ident(name) => is_identifier(name),
        Tree::Unary(_, operand) => well_formed(*operand),
        Tree::Binary(_, lhs, rhs) => well_formed(*lhs) && well_formed(*rhs),
        Tree::Call(name, args) => is_identifier(name) && forall|i: int|
            0 <= i < args.len() ==> well_formed(#[trigger] args[i]),
    }
}

/// Whether `frontier` lies within an input of `len` characters and holds at
/// least one token.
pub open spec fn specific(frontier: Frontier, len: nat) -> bool {
    &&& frontier.at <= len
    &&& exists|token: Token| frontier.tokens.contains(token)
}

/// Whether `outcome`, of a rule that started at `pos` in `s`, stays within
/// `s`.
pub open spec fn within<T>(outcome: Outcome<T>, s: Seq<char>, pos: nat) -> bool {
    &&& specific(outcome.frontier, s.len())
    &&& outcome.matched matches Some((_, len)) ==> pos + len <= s.len()
}

/// Whether `outcome` stays within `s` and any tree it holds is well formed.
pub open spec fn sound(outcome: Outcome<Tree>, s: Seq<char>, pos: nat) -> bool {
    &&& within(outcome, s, pos)
    &&& outcome.matched matches Some((tree, _)) ==> well_formed(tree)
}

/// A frontier joined to a specific one is specific, if it is specific too or
/// lies no further.
proof fn lemma_join_specific(a: Frontier, b: Frontier, len: nat)
    requires
        specific(b, len),
        specific(a, len) || a.at <= b.at,
    ensures
        specific(join(a, b), len),
{
    reveal(join);
    if a.at > b.at {
        let token = choose|token: Token| a.tokens.contains(token);
        assert(join(a, b).tokens.contains(token));
    } else {
        let token = choose|token: Token| b.tokens.contains(token);
        assert(join(a, b).tokens.contains(token));
    }
}

/// Joining keeps frontiers specific, and so does joining one to the quiet
/// frontier; a miss within the input is specific.
proof fn lemma_specific(len: nat)
    ensures
        forall|a: Frontier, b: Frontier|
            specific(a, len) && specific(b, len) ==> specific(#[trigger] join(a, b), len),
        forall|b: Frontier| specific(b, len) ==> specific(#[trigger] join(quiet(), b), len),
        forall|at: nat, token: Token| at <= len ==> specific(#[trigger] miss(at, token), len),
{
    assert forall|a: Frontier, b: Frontier| specific(a, len) && specific(b, len) implies specific(
        #[trigger] join(a, b),
        len,
    ) by {
        lemma_join_specific(a, b, len);
    }
    assert forall|b: Frontier| specific(b, len) implies specific(
        #[trigger] join(quiet(), b),
        len,
    ) by {
        lemma_join_specific(quiet(), b, len);
    }
    assert forall|at: nat, token: Token| at <= len implies specific(
        #[trigger] miss(at, token),
        len,
    ) by {
        assert(miss(at, token).tokens.contains(token));
    }
}

/// A number stays within the input, and its tree is well formed.
pub proof fn lemma_number_sound(s: Seq<char>, pos: nat)
    requires
        pos <= s.len(),
    ensures
        sound(grammar::number(s, pos), s, pos),
{
    lemma_specific(s.len());
    lemma_number_is_decimal(s, pos);
    let sign: nat = if grammar::stands(s, pos, '-') {
        1
    } else {
        0
    };
    let whole = pos + sign;
    if whole + 1 <= s.len() {
        lemma_run(s, whole + 1, Class::Digit);
        let end = whole + 1 + grammar::run(s, whole + 1, Class::Digit);
        if end + 1 <= s.len() {
            lemma_run(s, end + 1, Class::Digit);
        }
    }
    if whole + 2 <= s.len() {
        lemma_run(s, whole + 2, Class::Digit);
    }
}

/// An identifier stays within the input, and what it gives is one.
pub proof fn lemma_identifier_sound(s: Seq<char>, pos: nat)
    requires
        pos <= s.len(),
    ensures
        within(grammar::identifier(s, pos), s, pos),
        grammar::identifier(s, pos).matched matches Some((name, len)) ==> is_identifier(name)
            && len >= 1,
        sound(grammar::variable(s, pos), s, pos),
{
    lemma_specific(s.len());
    if pos < s.len() && is_ident_start(s[pos as int]) {
        lemma_run(s, pos + 1, Class::IdentContinue);
        let len = 1 + grammar::run(s, pos + 1, Class::IdentContinue);
        let name = s.subrange(pos as int, (pos + len) as int);
        assert(name[0] == s[pos as int]);
        assert forall|i: int| 1 <= i < name.len() implies is_ident_continue(#[trigger] name[i]) by {
            assert(name[i] == s[pos + i]);
        }
    }
}

/// A chain stays within the input, and its tree is well formed.
pub proof fn lemma_chain_sound(s: Seq<char>, pos: nat, level: Level)
    requires
        pos <= s.len(),
    ensures
        sound(grammar::chain(s, pos, level), s, pos),
    decreases grammar::room(s, pos), level.rank() + 1,
{
    lemma_specific(s.len());
    let first = match level {
        Level::Sum => grammar::chain(s, pos, Level::Product),
        Level::Product => grammar::unary(s, pos),
    };
    match level {
        Level::Sum => lemma_chain_sound(s, pos, Level::Product),
        Level::Product => lemma_unary_sound(s, pos),
    }
    if let Some((lhs, len)) = first.matched {
        lemma_chain_tail_sound(s, pos + len, lhs, level);
    }
}

/// What follows in a chain stays within the input, and keeps the tree well
/// formed.
pub proof fn lemma_chain_tail_sound(s: Seq<char>, pos: nat, lhs: Tree, level: Level)
    requires
        pos <= s.len(),
        well_formed(lhs),
    ensures
        sound(grammar::chain_tail(s, pos, lhs, level), s, pos),
        grammar::chain_tail(s, pos, lhs, level).matched is Some,
    decreases grammar::room(s, pos), level.rank(),
{
    lemma_specific(s.len());
    lemma_run(s, pos, Class::Space);
    let at = pos + grammar::spaces(s, pos);
    if let Some(op) = grammar::operator_at(s, at, level) {
        lemma_run(s, at + 1, Class::Space);
        let start = at + 1 + grammar::spaces(s, at + 1);
        let rhs = match level {
            Level::Sum => grammar::chain(s, start, Level::Product),
            Level::Product => grammar::unary(s, start),
        };
        match level {
            Level::Sum => lemma_chain_sound(s, start, Level::Product),
            Level::Product => lemma_unary_sound(s, start),
        }
        if let Some((operand, len)) = rhs.matched {
            lemma_chain_tail_sound(
                s,
                start + len,
                Tree::Binary(op, Box::new(lhs), Box::new(operand)),
                level,
            );
        }
    }
}

/// Factorials keep a tree well formed.
pub proof fn lemma_factorials_well_formed(tree: Tree, count: nat)
    requires
        well_formed(tree),
    ensures
        well_formed(grammar::factorials(tree, count)),
    decreases count,
{
    if count > 0 {
        lemma_factorials_well_formed(tree, (count - 1) as nat);
    }
}

/// A unary expression stays within the input, and its tree is well formed.
pub proof fn lemma_unary_sound(s: Seq<char>, pos: nat)
    requires
        pos <= s.len(),
    ensures
        sound(grammar::unary(s, pos), s, pos),
    decreases grammar::room(s, pos), 5nat,
{
    lemma_specific(s.len());
    if grammar::sign_at(s, pos) is Some {
        lemma_run(s, pos + 1, Class::Space);
        lemma_unary_sound(s, pos + 1 + grammar::spaces(s, pos + 1));
    } else {
        lemma_factor_sound(s, pos);
        if let Some((operand, len)) = grammar::factor(s, pos).matched {
            lemma_run(s, pos + len, Class::Bang);
            lemma_factorials_well_formed(operand, grammar::run(s, pos + len, Class::Bang));
        }
    }
}

/// A factor stays within the input, and its tree is well formed.
pub proof fn lemma_factor_sound(s: Seq<char>, pos: nat)
    requires
        pos <= s.len(),
    ensures
        sound(grammar::factor(s, pos), s, pos),
    decreases grammar::room(s, pos), 4nat,
{
    lemma_specific(s.len());
    lemma_number_sound(s, pos);
    lemma_call_sound(s, pos);
    lemma_identifier_sound(s, pos);
    if grammar::stands(s, pos, '(') {
        lemma_run(s, pos + 1, Class::Space);
        let start = pos + 1 + grammar::spaces(s, pos + 1);
        lemma_chain_sound(s, start, Level::Sum);
        if let Some((tree, len)) = grammar::chain(s, start, Level::Sum).matched {
            lemma_run(s, start + len, Class::Space);
        }
    }
}

/// The end of a call stays within the input, and keeps the tree.
pub proof fn lemma_close_call_sound(
    s: Seq<char>,
    pos: nat,
    after: nat,
    tree: Tree,
    before: Frontier,
)
    requires
        pos <= after <= s.len(),
        specific(before, s.len()),
        well_formed(tree),
    ensures
        sound(grammar::close_call(s, pos, after, tree, before), s, pos),
{
    lemma_specific(s.len());
    if after + 1 <= s.len() {
        lemma_run(s, after + 1, Class::Space);
    }
    lemma_run(s, after, Class::Space);
}

/// A call stays within the input, and its tree is well formed.
pub proof fn lemma_call_sound(s: Seq<char>, pos: nat)
    requires
        pos <= s.len(),
    ensures
        sound(grammar::call(s, pos), s, pos),
    decreases grammar::room(s, pos), 3nat,
{
    lemma_specific(s.len());
    lemma_identifier_sound(s, pos);
    if let Some((name, len)) = grammar::identifier(s, pos).matched {
        lemma_run(s, pos + len, Class::Space);
        let open = pos + len + grammar::spaces(s, pos + len);
        let reach = join(grammar::identifier(s, pos).frontier, miss(open, Token::Space));
        if grammar::stands(s, open, '(') {
            lemma_run(s, open + 1, Class::Space);
            let start = open + 1 + grammar::spaces(s, open + 1);
            lemma_arguments_sound(s, start);
            let args = grammar::arguments(s, start);
            let reach = join(join(reach, miss(start, Token::Space)), args.frontier);
            if let Some((list, taken)) = args.matched {
                lemma_close_call_sound(s, pos, start + taken, Tree::Call(name, list), reach);
            }
        }
    }
}

/// Whether every tree of `list` is well formed.
pub open spec fn all_well_formed(list: Seq<Tree>) -> bool {
    forall|i: int| 0 <= i < list.len() ==> well_formed(#[trigger] list[i])
}

/// Arguments stay within the input, and their trees are well formed.
pub proof fn lemma_arguments_sound(s: Seq<char>, pos: nat)
    requires
        pos <= s.len(),
    ensures
        within(grammar::arguments(s, pos), s, pos),
        grammar::arguments(s, pos).matched matches Some((list, _)) && all_well_formed(list),
    decreases grammar::room(s, pos), 10nat,
{
    lemma_specific(s.len());
    lemma_chain_sound(s, pos, Level::Sum);
    if let Some((tree, len)) = grammar::chain(s, pos, Level::Sum).matched {
        lemma_more_arguments_sound(s, pos + len, seq![tree]);
    }
}

/// More arguments stay within the input, and keep the trees well formed.
pub proof fn lemma_more_arguments_sound(s: Seq<char>, pos: nat, list: Seq<Tree>)
    requires
        pos <= s.len(),
        all_well_formed(list),
    ensures
        within(grammar::more_arguments(s, pos, list), s, pos),
        grammar::more_arguments(s, pos, list).matched matches Some((all, _)) && all_well_formed(
            all,
        ),
    decreases grammar::room(s, pos), 2nat,
{
    lemma_specific(s.len());
    lemma_run(s, pos, Class::Space);
    let at = pos + grammar::spaces(s, pos);
    if grammar::stands(s, at, ',') {
        lemma_run(s, at + 1, Class::Space);
        let start = at + 1 + grammar::spaces(s, at + 1);
        lemma_chain_sound(s, start, Level::Sum);
        if let Some((tree, len)) = grammar::chain(s, start, Level::Sum).matched {
            lemma_more_arguments_sound(s, start + len, list.push(tree));
        }
    }
}

/// Whatever a rule makes of an input stays within it, and its tree is well
/// formed.
pub proof fn lemma_rule_sound(rule: Rule, s: Seq<char>)
    ensures
        sound(rule.at(s, 0), s, 0),
{
    lemma_specific(s.len());
    match rule {
        Rule::Program => {
            lemma_run(s, 0, Class::Blank);
            let start = grammar::run(s, 0, Class::Blank);
            lemma_chain_sound(s, start, Level::Sum);
            if let Some((tree, len)) = grammar::chain(s, start, Level::Sum).matched {
                lemma_run(s, start + len, Class::Blank);
            }
        },
        Rule::Expr => lemma_chain_sound(s, 0, Level::Sum),
        Rule::Term => lemma_chain_sound(s, 0, Level::Product),
        Rule::FactorWithUnaryOp => lemma_unary_sound(s, 0),
        Rule::Factor => lemma_factor_sound(s, 0),
        Rule::FunctionCall => lemma_call_sound(s, 0),
        Rule::Number => lemma_number_sound(s, 0),
        Rule::Identifier => lemma_identifier_sound(s, 0),
    }
}

/// Every identifier parses as one, and the tree holds the name character
/// for character.
pub proof fn law_identifier_parses(name: Seq<char>)
    requires
        is_identifier(name),
    ensures
        Rule::Identifier.parse(name) == Ok::<Tree, Frontier>(Tree::Ident(name)),
{
    assert forall|i: int| 1 <= i < name.len() implies Class::IdentContinue.holds(
        #[trigger] name[i],
    ) by {
        assert(is_ident_continue(name[i]));
    }
    lemma_run_exact(name, 1, name.len(), Class::IdentContinue);
    assert(name.subrange(0, name.len() as int) =~= name);
}

/// A parse that succeeds gives a well-formed tree: every number in it is a
/// decimal literal, and every name of a variable or a function is an
/// identifier.
pub proof fn law_parsed_tree_is_well_formed(rule: Rule, s: Seq<char>)
    ensures
        rule.parse(s) matches Ok(tree) ==> well_formed(tree),
{
    lemma_rule_sound(rule, s);
}

/// A parse that fails says where and why: the place it reports lies within
/// the input or at its end, and at least one token is expected there.
pub proof fn law_failure_is_specific(rule: Rule, s: Seq<char>)
    ensures
        rule.parse(s) matches Err(frontier) ==> frontier.at <= s.len() && exists|token: Token|
            frontier.tokens.contains(token),
{
    lemma_rule_sound(rule, s);
    lemma_specific(s.len());
}

} // verus!
