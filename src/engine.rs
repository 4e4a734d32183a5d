use vstd::prelude::*;

use crate::decimal::{
    checked_add, checked_div, checked_mul, checked_sub, decimal_difference, decimal_product,
    decimal_quotient, decimal_sum, Decimal,
};

verus! {

/// A leaf value, or an expression that evaluates to a value.
#[derive(Debug, PartialEq, Eq)]
pub enum Node {
    Value(Decimal),
    Expr(Box<Expr>),
}

/// An arithmetical operation on its operand node(s).
#[derive(Debug, PartialEq, Eq)]
pub enum Expr {
    /// Addition
    Add(Node, Node),
    /// Subtraction
    Sub(Node, Node),
    /// Multiplication
    Mul(Node, Node),
    /// Division
    Div(Node, Node),
    /// Sign inversion
    Neg(Node),
}

/// A result that leaves the representable range.
#[derive(Clone, Copy, Debug, PartialEq, Eq, Structural)]
pub enum ArithmeticError {
    ExceedsMaximumPossibleValue,
    LessThanMinimumPossibleValue,
}

impl Node {
    /// Every value in the tree is a well-formed decimal.
    pub open spec fn wf(self) -> bool
        decreases self,
    {
        match self {
            Node::Value(d) => d.wf(),
            Node::Expr(e) => match *e {
                Expr::Add(l, r) => l.wf() && r.wf(),
                Expr::Sub(l, r) => l.wf() && r.wf(),
                Expr::Mul(l, r) => l.wf() && r.wf(),
                Expr::Div(l, r) => l.wf() && r.wf(),
                Expr::Neg(v) => v.wf(),
            },
        }
    }
}

/// A checked sum: overflow saturates to the upper bound.
pub open spec fn sum_outcome(sum: Option<Decimal>) -> Result<Decimal, ArithmeticError> {
    match sum {
        Some(d) => Ok(d),
        None => Err(ArithmeticError::ExceedsMaximumPossibleValue),
    }
}

/// A checked difference: overflow saturates to the lower bound.
pub open spec fn difference_outcome(difference: Option<Decimal>) -> Result<
    Decimal,
    ArithmeticError,
> {
    match difference {
        Some(d) => Ok(d),
        None => Err(ArithmeticError::LessThanMinimumPossibleValue),
    }
}

/// A checked product of `a` and `b`: overflow goes to the bound of the product's sign,
/// the upper one when both operands are negative or both are not.
pub open spec fn product_outcome(a: Decimal, b: Decimal, product: Option<Decimal>) -> Result<
    Decimal,
    ArithmeticError,
> {
    match product {
        Some(d) => Ok(d),
        None => if a.is_negative_spec() == b.is_negative_spec() {
            Err(ArithmeticError::ExceedsMaximumPossibleValue)
        } else {
            Err(ArithmeticError::LessThanMinimumPossibleValue)
        },
    }
}

/// A checked quotient of `a` by `b`: overflow and division by zero go to the bound of
/// the dividend's sign, the upper one for a dividend that is not negative.
pub open spec fn quotient_outcome(a: Decimal, b: Decimal, quotient: Option<Decimal>) -> Result<
    Decimal,
    ArithmeticError,
> {
    let unbounded = if !a.is_negative_spec() {
        ArithmeticError::ExceedsMaximumPossibleValue
    } else {
        ArithmeticError::LessThanMinimumPossibleValue
    };
    if b.mantissa == 0 {
        Err(unbounded)
    } else {
        match quotient {
            Some(d) => Ok(d),
            None => Err(unbounded),
        }
    }
}

/// The outcome of `a + b`.
pub open spec fn sum_result(a: Decimal, b: Decimal) -> Result<Decimal, ArithmeticError> {
    sum_outcome(decimal_sum(a, b))
}

/// The outcome of `a - b`.
pub open spec fn difference_result(a: Decimal, b: Decimal) -> Result<Decimal, ArithmeticError> {
    difference_outcome(decimal_difference(a, b))
}

/// The outcome of `a * b`.
pub open spec fn product_result(a: Decimal, b: Decimal) -> Result<Decimal, ArithmeticError> {
    product_outcome(a, b, decimal_product(a, b))
}

/// The outcome of `a / b`.
pub open spec fn quotient_result(a: Decimal, b: Decimal) -> Result<Decimal, ArithmeticError> {
    quotient_outcome(a, b, decimal_quotient(a, b))
}

/// The first error of the left operand, then of the right one, else `f` of both values.
pub open spec fn combine(
    left: Result<Decimal, ArithmeticError>,
    right: Result<Decimal, ArithmeticError>,
    f: spec_fn(Decimal, Decimal) -> Result<Decimal, ArithmeticError>,
) -> Result<Decimal, ArithmeticError> {
    match left {
        Err(e) => Err(e),
        Ok(a) => match right {
            Err(e) => Err(e),
            Ok(b) => f(a, b),
        },
    }
}

/// The value of a tree, or the first range error met, operands left to right.
pub open spec fn eval(node: Node) -> Result<Decimal, ArithmeticError>
    decreases node,
{
    match node {
        Node::Value(d) => Ok(d),
        Node::Expr(e) => match *e {
            Expr::Add(l, r) => combine(eval(l), eval(r), |a, b| sum_result(a, b)),
            Expr::Sub(l, r) => combine(eval(l), eval(r), |a, b| difference_result(a, b)),
            Expr::Mul(l, r) => combine(eval(l), eval(r), |a, b| product_result(a, b)),
            Expr::Div(l, r) => combine(eval(l), eval(r), |a, b| quotient_result(a, b)),
            Expr::Neg(v) => match eval(v) {
                Err(e) => Err(e),
                Ok(d) => Ok(d.negated()),
            },
        },
    }
}

/// Classifies a checked sum.
pub fn classify_sum(sum: Option<Decimal>) -> (r: Result<Decimal, ArithmeticError>)
    ensures
        r == sum_outcome(sum),
{
    match sum {
        Some(d) => Ok(d),
        None => Err(ArithmeticError::ExceedsMaximumPossibleValue),
    }
}

/// Classifies a checked difference.
pub fn classify_difference(difference: Option<Decimal>) -> (r: Result<Decimal, ArithmeticError>)
    ensures
        r == difference_outcome(difference),
{
    match difference {
        Some(d) => Ok(d),
        None => Err(ArithmeticError::LessThanMinimumPossibleValue),
    }
}

/// Classifies a checked product of `a` and `b`.
pub fn classify_product(a: Decimal, b: Decimal, product: Option<Decimal>) -> (r: Result<
    Decimal,
    ArithmeticError,
>)
    ensures
        r == product_outcome(a, b, product),
{
    match product {
        Some(d) => Ok(d),
        None => if a.is_negative() == b.is_negative() {
            Err(ArithmeticError::ExceedsMaximumPossibleValue)
        } else {
            Err(ArithmeticError::LessThanMinimumPossibleValue)
        },
    }
}

/// Classifies a checked quotient of `a` by `b`.
pub fn classify_quotient(a: Decimal, b: Decimal, quotient: Option<Decimal>) -> (r: Result<
    Decimal,
    ArithmeticError,
>)
    ensures
        r == quotient_outcome(a, b, quotient),
{
    let unbounded = if !a.is_negative() {
        ArithmeticError::ExceedsMaximumPossibleValue
    } else {
        ArithmeticError::LessThanMinimumPossibleValue
    };
    if b.mantissa == 0 {
        return Err(unbounded);
    }
    match quotient {
        Some(d) => Ok(d),
        None => Err(unbounded),
    }
}

/// Reduces a tree to its value, stopping at the first range error.
pub fn evaluate(node: &Node) -> (r: Result<Decimal, ArithmeticError>)
    requires
        node.wf(),
    ensures
        r == eval(*node),
        r matches Ok(d) ==> d.wf(),
    decreases node,
{
    match node {
        Node::Value(d) => Ok(*d),
        Node::Expr(e) => {
            let e: &Expr = e;
            match e {
                Expr::Add(l, r) => {
                    let a = match evaluate(l) {
                        Ok(a) => a,
                        Err(e) => return Err(e),
                    };
                    let b = match evaluate(r) {
                        Ok(b) => b,
                        Err(e) => return Err(e),
                    };
                    classify_sum(checked_add(a, b))
                },
                Expr::Sub(l, r) => {
                    let a = match evaluate(l) {
                        Ok(a) => a,
                        Err(e) => return Err(e),
                    };
                    let b = match evaluate(r) {
                        Ok(b) => b,
                        Err(e) => return Err(e),
                    };
                    classify_difference(checked_sub(a, b))
                },
                Expr::Mul(l, r) => {
                    let a = match evaluate(l) {
                        Ok(a) => a,
                        Err(e) => return Err(e),
                    };
                    let b = match evaluate(r) {
                        Ok(b) => b,
                        Err(e) => return Err(e),
                    };
                    classify_product(a, b, checked_mul(a, b))
                },
                Expr::Div(l, r) => {
                    let a = match evaluate(l) {
                        Ok(a) => a,
                        Err(e) => return Err(e),
                    };
                    let b = match evaluate(r) {
                        Ok(b) => b,
                        Err(e) => return Err(e),
                    };
                    classify_quotient(a, b, checked_div(a, b))
                },
                Expr::Neg(v) => {
                    let a = match evaluate(v) {
                        Ok(a) => a,
                        Err(e) => return Err(e),
                    };
                    Ok(a.negate())
                },
            }
        },
    }
}

impl From<Decimal> for Node {
    fn from(value: Decimal) -> Node {
        Node::Value(value)
    }
}

impl vstd::std_specs::convert::FromSpecImpl<Decimal> for Node {
    open spec fn obeys_from_spec() -> bool {
        true
    }

    open spec fn from_spec(v: Decimal) -> Node {
        Node::Value(v)
    }
}

/// The tree for `a * b`.
pub open spec fn product_node(a: Decimal, b: Decimal) -> Node {
    Node::Expr(Box::new(Expr::Mul(Node::Value(a), Node::Value(b))))
}

/// The tree for `a / b`.
pub open spec fn quotient_node(a: Decimal, b: Decimal) -> Node {
    Node::Expr(Box::new(Expr::Div(Node::Value(a), Node::Value(b))))
}

/// A product out of range fails towards the maximum when both operands have the same
/// sign (both non-negative or both negative), and towards the minimum otherwise.
pub proof fn lemma_product_overflow_sign(a: Decimal, b: Decimal)
    requires
        a.wf(),
        b.wf(),
        decimal_product(a, b) is None,
    ensures
        eval(product_node(a, b)) == Err::<Decimal, ArithmeticError>(
            ArithmeticError::ExceedsMaximumPossibleValue,
        ) <==> (a.is_negative_spec() == b.is_negative_spec()),
        eval(product_node(a, b)) == Err::<Decimal, ArithmeticError>(
            ArithmeticError::LessThanMinimumPossibleValue,
        ) <==> (a.is_negative_spec() != b.is_negative_spec()),
{
    reveal_with_fuel(eval, 2);
}

/// Dividing by zero fails towards the maximum for a non-negative dividend and towards
/// the minimum for a negative one.
pub proof fn lemma_division_by_zero(x: Decimal, zero: Decimal)
    requires
        x.wf(),
        zero.wf(),
        zero.mantissa == 0,
    ensures
        !x.is_negative_spec() ==> eval(quotient_node(x, zero)) == Err::<Decimal, ArithmeticError>(
            ArithmeticError::ExceedsMaximumPossibleValue,
        ),
        x.is_negative_spec() ==> eval(quotient_node(x, zero)) == Err::<Decimal, ArithmeticError>(
            ArithmeticError::LessThanMinimumPossibleValue,
        ),
{
    reveal_with_fuel(eval, 2);
}

} // verus!
