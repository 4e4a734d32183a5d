use vstd::prelude::*;

use super::tokenizer::Operator;
use crate::decimal::DecimalError;
use crate::engine::Node;

verus! {

/// Why a text could not be turned into a tree.
#[derive(Debug, PartialEq, Eq)]
pub enum Error {
    /// A literal could not be read as a decimal.
    Value(DecimalError),
    /// A group terminator with no group open.
    UninitializedGroup,
    /// A group that the text never closes.
    UnterminatedGroup,
    /// An operator where an operand was required.
    UnexpectedOperator(Operator),
    /// An operand where an operator was required.
    UnexpectedNode(Node),
    /// A group or text with no tokens at all.
    Empty,
    /// An operand followed by an operator, with nothing after it.
    LeftoverElements,
}

} // verus!
