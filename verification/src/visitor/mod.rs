//! Walking a syntax tree.

pub mod arithmetic;
pub mod base;
pub mod eval;
pub mod laws;
pub mod layout;
pub mod printer;
pub mod semantics;

pub use arithmetic::Arithmetic;
pub use base::Visitor;
pub use eval::{Calculator, CalculatorError, Presets};
pub use printer::PrettyPrinter;
pub use semantics::EvalError;
