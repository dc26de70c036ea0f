//! The syntax tree of an expression.

pub mod atom;
pub mod binary;
pub mod expr;
pub mod function;
pub mod unary;

pub use atom::{Atom, Decimal};
pub use binary::{BinaryArithmetic, BinaryOp};
pub use expr::{Expr, Tree};
pub use function::FunctionCall;
pub use unary::{UnaryArithmetic, UnaryOp};
