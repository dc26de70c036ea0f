//! Reading runs of characters, numbers and names off the input.

use crate::ast::atom::is_digit;
use crate::ast::{Atom, Decimal, Expr, Tree};
use crate::parser::expected::{join, miss, quiet, ExpectedSet, Frontier, Token};
use crate::parser::grammar;
use crate::parser::grammar::{Class, Outcome};
use crate::parser::laws::lemma_number_is_decimal;
use vstd::prelude::*;

verus! {

/// A frontier while the parser runs.
#[derive(Debug, PartialEq, Eq, Clone, Copy, Structural)]
pub struct Reach {
    /// The furthest position at which a token was asked for in vain.
    pub at: usize,
    /// The tokens asked for there.
    pub set: ExpectedSet,
}

impl View for Reach {
    type V = Frontier;

    open spec fn view(&self) -> Frontier {
        Frontier { at: self.at as nat, tokens: self.set@ }
    }
}

impl Reach {
    /// The frontier before anything has been asked for.
    pub fn quiet() -> (reach: Self)
        ensures
            reach@ == quiet(),
    {
        Reach { at: 0, set: ExpectedSet::empty() }
    }

    /// The frontier of one token asked for in vain at `at`.
    pub fn miss(at: usize, token: Token) -> (reach: Self)
        ensures
            reach@ == miss(at as nat, token),
    {
        Reach { at, set: ExpectedSet::single(token) }
    }

    /// The frontier of two: the further one, or, where they meet, both.
    pub fn join(self, other: Self) -> (reach: Self)
        ensures
            reach@ == join(self@, other@),
            reach.at == self.at || reach.at == other.at,
    {
        proof {
            reveal(join);
        }
        if self.at > other.at {
            self
        } else if other.at > self.at {
            other
        } else {
            Reach { at: self.at, set: self.set.union(other.set) }
        }
    }
}

/// What a rule made of the input at one position, as the parser holds it.
pub struct Parsed<T> {
    /// The value built and the position after the match, if the rule matched.
    pub matched: Option<(T, usize)>,
    /// How far the attempt reached.
    pub reach: Reach,
}

impl<T> Parsed<T> {
    /// Whether nothing in `self` lies beyond `len`.
    pub open spec fn within(self, len: nat) -> bool {
        &&& self.reach.at <= len
        &&& self.matched matches Some((_, end)) ==> end <= len
    }
}

impl Parsed<Expr> {
    /// Whether `self` is what the grammar says of a rule that starts at `pos`.
    pub open spec fn agrees(self, pos: nat, outcome: Outcome<Tree>) -> bool {
        &&& self.reach@ == outcome.frontier
        &&& match (self.matched, outcome.matched) {
            (Some((e, end)), Some((tree, len))) => e@ == tree && end == pos + len,
            (None, None) => true,
            _ => false,
        }
    }
}

/// Appends `c` to `text`.
///
/// Stands for `String::push`, of which the standard library says that it
/// appends the given character to the end of the string.
#[verifier::external_body]
fn push_char(text: &mut String, c: char)
    ensures
        final(text)@ == old(text)@.push(c),
{
    text.push(c)
}

/// The characters of `chars` from `from` up to `to`, as a string.
pub fn string_of(chars: &Vec<char>, from: usize, to: usize) -> (text: String)
    requires
        from <= to <= chars@.len(),
    ensures
        text@ == chars@.subrange(from as int, to as int),
{
    let mut text = String::new();
    let mut i: usize = from;
    while i < to
        invariant
            from <= i <= to <= chars@.len(),
            text@ == chars@.subrange(from as int, i as int),
        decreases to - i,
    {
        push_char(&mut text, chars[i]);
        i += 1;
        assert(text@ == chars@.subrange(from as int, i as int));
    }
    text
}

/// The characters of `text`, one by one.
pub fn chars_of(text: &str) -> (chars: Vec<char>)
    ensures
        chars@ == text@,
{
    let mut chars: Vec<char> = Vec::new();
    for c in it: text.chars()
        invariant
            chars@ == it.seq().take(it.index()),
            it.seq() == text@,
    {
        chars.push(c);
    }
    chars
}

/// Whether `c` is a digit.
pub fn digit(c: char) -> (yes: bool)
    ensures
        yes == is_digit(c),
{
    '0' <= c && c <= '9'
}

/// Whether `c` is a digit other than `0`.
pub fn nonzero_digit(c: char) -> (yes: bool)
    ensures
        yes == grammar::is_nonzero_digit(c),
{
    '1' <= c && c <= '9'
}

/// Whether `c` can open an identifier.
pub fn ident_start(c: char) -> (yes: bool)
    ensures
        yes == grammar::is_ident_start(c),
{
    ('a' <= c && c <= 'z') || ('A' <= c && c <= 'Z') || c == '_'
}

impl Class {
    /// Whether `c` is of this class.
    pub fn test(self, c: char) -> (yes: bool)
        ensures
            yes == self.holds(c),
    {
        match self {
            Class::Space => c == ' ',
            Class::Blank => c == ' ' || c == '\n' || c == '\r',
            Class::Digit => digit(c),
            Class::IdentContinue => ident_start(c) || digit(c),
            Class::Bang => c == '!',
        }
    }
}

/// Whether `c` stands at `pos`.
pub fn stands(s: &Vec<char>, pos: usize, c: char) -> (yes: bool)
    ensures
        yes == grammar::stands(s@, pos as nat, c),
{
    pos < s.len() && s[pos] == c
}

/// The position after the run of `class` that starts at `pos`.
pub fn skip(s: &Vec<char>, pos: usize, class: Class) -> (end: usize)
    requires
        pos <= s.len(),
    ensures
        end == pos + grammar::run(s@, pos as nat, class),
        pos <= end <= s.len(),
{
    let mut end = pos;
    while end < s.len() && class.test(s[end])
        invariant
            pos <= end <= s.len(),
            grammar::run(s@, pos as nat, class) == (end - pos) + grammar::run(
                s@,
                end as nat,
                class,
            ),
        decreases s.len() - end,
    {
        end += 1;
    }
    end
}

/// A number at `pos`.
pub fn number(s: &Vec<char>, pos: usize) -> (parsed: Parsed<Expr>)
    requires
        pos <= s.len(),
    ensures
        parsed.agrees(pos as nat, grammar::number(s@, pos as nat)),
        parsed.within(s@.len()),
{
    let negative = stands(s, pos, '-');
    let before = if negative {
        Reach::quiet()
    } else {
        Reach::miss(pos, Token::Minus)
    };
    let whole: usize = if negative {
        pos + 1
    } else {
        pos
    };
    let point: usize;
    let reach: Reach;
    if stands(s, whole, '0') {
        point = whole + 1;
        reach = before;
    } else if whole < s.len() && nonzero_digit(s[whole]) {
        point = skip(s, whole + 1, Class::Digit);
        reach = before.join(Reach::miss(whole, Token::Zero).join(Reach::miss(point, Token::Digit)));
    } else {
        return Parsed {
            matched: None,
            reach: before.join(
                Reach::miss(whole, Token::Zero).join(Reach::miss(whole, Token::NonZeroDigit)),
            ),
        };
    }
    let end: usize;
    let reach: Reach = if !stands(s, point, '.') {
        end = point;
        reach.join(Reach::miss(point, Token::Dot))
    } else {
        let last = skip(s, point + 1, Class::Digit);
        if last == point + 1 {
            end = point;
            reach.join(Reach::miss(point + 1, Token::Digit))
        } else {
            end = last;
            reach.join(Reach::miss(last, Token::Digit))
        }
    };
    proof {
        lemma_number_is_decimal(s@, pos as nat);
    }
    let literal = Decimal::from_valid(string_of(s, pos, end));
    Parsed { matched: Some((Expr::Atom(Atom::Number(literal)), end)), reach }
}

/// The name at `pos` and the position after it.
pub fn identifier(s: &Vec<char>, pos: usize) -> (found: (Option<(String, usize)>, Reach))
    requires
        pos <= s.len(),
    ensures
        found.1@ == grammar::identifier(s@, pos as nat).frontier,
        found.1.at <= s.len(),
        match (found.0, grammar::identifier(s@, pos as nat).matched) {
            (Some((name, end)), Some((text, len))) => name@ == text && end == pos + len && end
                <= s.len(),
            (None, None) => true,
            _ => false,
        },
{
    if pos < s.len() && ident_start(s[pos]) {
        let end = skip(s, pos + 1, Class::IdentContinue);
        (Some((string_of(s, pos, end), end)), Reach::miss(end, Token::IdentContinue))
    } else {
        (None, Reach::miss(pos, Token::IdentStart))
    }
}

/// An identifier at `pos`, as a tree.
pub fn variable(s: &Vec<char>, pos: usize) -> (parsed: Parsed<Expr>)
    requires
        pos <= s.len(),
    ensures
        parsed.agrees(pos as nat, grammar::variable(s@, pos as nat)),
        parsed.within(s@.len()),
{
    let (found, reach) = identifier(s, pos);
    match found {
        Some((name, end)) => Parsed { matched: Some((Expr::Atom(Atom::Ident(name)), end)), reach },
        None => Parsed { matched: None, reach },
    }
}

} // verus!
