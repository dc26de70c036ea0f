//! From source text to a syntax tree, or to the place where the text stopped
//! making sense.

pub mod calc_parser;
pub(crate) mod descent;
pub mod error;
pub mod expected;
pub mod grammar;
pub mod laws;
pub(crate) mod lexical;

pub use error::{LineCol, ParseError};
pub use expected::{ExpectedSet, Token};
pub use grammar::Rule;
