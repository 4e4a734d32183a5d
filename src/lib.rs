pub mod calc;
pub mod decimal;
pub mod engine;
pub mod parser;

pub use calc::calculate;
pub use decimal::{Decimal, DecimalError};
pub use engine::{evaluate, ArithmeticError, Expr, Node};
pub use parser::parse;
