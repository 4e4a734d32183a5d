use vstd::prelude::*;

use crate::decimal::Decimal;
use crate::engine::{eval, evaluate, ArithmeticError};
use crate::parser::{parse, parse_text};

verus! {

/// Why a line of text has no value.
#[derive(Debug, PartialEq, Eq)]
pub enum Error {
    /// The text is no well-formed expression.
    Parse(crate::parser::error::Error),
    /// The expression's value leaves the representable range.
    Math(ArithmeticError),
}

/// The value of an expression text: parsed into a tree, then evaluated.
pub open spec fn calculation(s: Seq<char>) -> Result<Decimal, Error> {
    match parse_text(s) {
        Err(e) => Err(Error::Parse(e)),
        Ok(n) => match eval(n) {
            Ok(d) => Ok(d),
            Err(e) => Err(Error::Math(e)),
        },
    }
}

/// Evaluate an arithmetic expression: parse the text into a tree and reduce the tree
/// to a value.
pub fn calculate(input: &str) -> (r: Result<Decimal, Error>)
    ensures
        r == calculation(input@),
        r matches Ok(d) ==> d.wf(),
{
    let root_node = match parse(input) {
        Ok(n) => n,
        Err(e) => return Err(Error::Parse(e)),
    };
    match evaluate(&root_node) {
        Ok(d) => Ok(d),
        Err(e) => Err(Error::Math(e)),
    }
}

} // verus!
