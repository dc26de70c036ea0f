//! Leaves: names and numbers.

use crate::ast::expr::{lemma_tree_of, Expr, Tree};
use crate::parser::laws::{law_decimal_parses, lemma_number_is_decimal};
use crate::parser::lexical::{chars_of, number as scan_number};
use vstd::prelude::*;

verus! {

/// Whether `c` is a digit.
pub open spec fn is_digit(c: char) -> bool {
    '0' <= c <= '9'
}

/// Whether the characters of `text` from `from` up to `to` are digits.
pub open spec fn all_digits(text: Seq<char>, from: int, to: int) -> bool {
    forall|i: int| from <= i < to ==> is_digit(#[trigger] text[i])
}

/// Whether `text` is a sign of `sign` characters, an integer part of `whole`
/// and a fractional part, with its point, of `frac`.
pub open spec fn decimal_shape(text: Seq<char>, sign: int, whole: int, frac: int) -> bool {
    &&& text.len() == sign + whole + frac
    &&& 0 <= sign <= 1
    &&& sign == 1 ==> text[0] == '-'
    &&& 1 <= whole
    &&& all_digits(text, sign, sign + whole)
    &&& whole > 1 ==> text[sign] != '0'
    &&& frac == 0 || 2 <= frac
    &&& frac >= 2 ==> text[sign + whole] == '.' && all_digits(
        text,
        sign + whole + 1,
        text.len() as int,
    )
}

/// Whether `text` is a decimal literal: an optional `-`, an integer part
/// without a leading zero unless it is `0` itself, and optionally a point
/// with at least one digit after it.
pub open spec fn is_decimal(text: Seq<char>) -> bool {
    exists|sign: int, whole: int, frac: int| decimal_shape(text, sign, whole, frac)
}

/// A number as it was written: the text of a decimal literal.
///
/// The tree keeps the literal and leaves its value to whoever computes with
/// it.
#[derive(Debug, PartialEq)]
pub struct Decimal {
    text: String,
}

impl View for Decimal {
    type V = Seq<char>;

    closed spec fn view(&self) -> Seq<char> {
        self.text@
    }
}

impl Decimal {
    #[verifier::type_invariant]
    spec fn valid(self) -> bool {
        is_decimal(self.text@)
    }

    /// The literal with the characters of `text`, which make a decimal literal.
    pub(crate) fn from_valid(text: String) -> (number: Decimal)
        requires
            is_decimal(text@),
        ensures
            number@ == text@,
    {
        Decimal { text }
    }

    /// The literal that `text` spells, if it spells one.
    pub fn new(text: &str) -> (number: Option<Decimal>)
        ensures
            is_decimal(text@) <==> number is Some,
            number matches Some(literal) ==> literal@ == text@,
    {
        let s = chars_of(text);
        proof {
            lemma_number_is_decimal(s@, 0);
            if is_decimal(text@) {
                law_decimal_parses(text@);
            }
            assert(s@.subrange(0, s@.len() as int) =~= s@);
        }
        match scan_number(&s, 0).matched {
            Some((Expr::Atom(Atom::Number(literal)), end)) => {
                if end == s.len() {
                    Some(literal)
                } else {
                    None
                }
            },
            _ => None,
        }
    }

    /// The characters of the literal.
    pub fn as_str(&self) -> (text: &str)
        ensures
            text@ == self@,
            is_decimal(text@),
    {
        proof {
            use_type_invariant(self);
        }
        self.text.as_str()
    }
}

impl Clone for Decimal {
    fn clone(&self) -> (copy: Self)
        ensures
            copy@ == self@,
    {
        proof {
            use_type_invariant(self);
        }
        Decimal { text: self.text.clone() }
    }
}

/// A leaf of the tree.
#[derive(Debug, PartialEq)]
pub enum Atom {
    /// A reference to a variable, by its name.
    Ident(String),
    /// A number.
    Number(Decimal),
}

impl View for Atom {
    type V = Tree;

    open spec fn view(&self) -> Tree {
        match self {
            Atom::Ident(name) => Tree::Ident(name@),
            Atom::Number(number) => Tree::Number(number@),
        }
    }
}

impl Clone for Atom {
    fn clone(&self) -> (copy: Self)
        ensures
            copy@ == self@,
    {
        match self {
            Atom::Ident(name) => Atom::Ident(name.clone()),
            Atom::Number(number) => Atom::Number(number.clone()),
        }
    }
}

impl From<Atom> for Expr {
    fn from(node: Atom) -> (e: Expr)
        ensures
            e@ == node@,
    {
        let e = Expr::Atom(node);
        proof {
            lemma_tree_of(e);
        }
        e
    }
}

impl vstd::std_specs::convert::FromSpecImpl<Atom> for Expr {
    open spec fn obeys_from_spec() -> bool {
        true
    }

    open spec fn from_spec(node: Atom) -> Expr {
        Expr::Atom(node)
    }
}

} // verus!
