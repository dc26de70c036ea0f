//! Where and why a parse failed.

use crate::ast::{Expr, Tree};
use crate::parser::expected::{ExpectedSet, Frontier};
use crate::parser::grammar::{column_of, line_of};
use vstd::prelude::*;

verus! {

/// A place in the input, by line and by column, both counted from 1.
#[derive(Debug, PartialEq, Eq, Clone, Copy, Structural)]
pub struct LineCol {
    /// One more than the line feeds before the place.
    pub line: usize,
    /// One more than the characters between the place and the line feed
    /// before it.
    pub column: usize,
}

/// A failed parse: the furthest place at which the input did not offer what
/// the grammar asked for, and all that was asked for there.
#[derive(Debug, PartialEq, Eq, Clone, Copy, Structural)]
pub struct ParseError {
    /// Where the input stopped making sense.
    pub location: LineCol,
    /// What would have been accepted there.
    pub expected: ExpectedSet,
}

impl ParseError {
    /// Whether this error reports `frontier` of the input `s`.
    pub open spec fn reports(self, s: Seq<char>, frontier: Frontier) -> bool {
        &&& self.location.line == line_of(s, frontier.at)
        &&& self.location.column == column_of(s, frontier.at)
        &&& self.expected@ == frontier.tokens
    }
}

/// Whether `result` is what `outcome` asks for on the input `s`: the tree
/// where there is one, else the report of how far the attempt reached.
pub open spec fn renders(
    result: Result<Expr, ParseError>,
    s: Seq<char>,
    outcome: Result<Tree, Frontier>,
) -> bool {
    match (result, outcome) {
        (Ok(e), Ok(tree)) => e@ == tree,
        (Err(error), Err(frontier)) => error.reports(s, frontier),
        _ => false,
    }
}

/// The place of position `at` in `s`.
pub(crate) fn locate(s: &Vec<char>, at: usize) -> (place: LineCol)
    requires
        at <= s.len(),
        s.len() < usize::MAX,
    ensures
        place.line == line_of(s@, at as nat),
        place.column == column_of(s@, at as nat),
{
    let mut line: usize = 1;
    let mut column: usize = 1;
    let mut i: usize = 0;
    while i < at
        invariant
            i <= at <= s.len(),
            s.len() < usize::MAX,
            line == line_of(s@, i as nat),
            column == column_of(s@, i as nat),
            1 <= line <= i + 1,
            1 <= column <= i + 1,
        decreases at - i,
    {
        if s[i] == '\n' {
            line += 1;
            column = 1;
        } else {
            column += 1;
        }
        i += 1;
    }
    LineCol { line, column }
}

} // verus!
