use calculator::{evaluate, ArithmeticError, Decimal, Expr, Node};
use rust_decimal::Decimal as Exact;

fn lib(d: Exact) -> Decimal {
    Decimal { mantissa: d.mantissa(), scale: d.scale() }
}

fn value(d: Exact) -> Node {
    lib(d).into()
}

fn eval(node: Node) -> Result<Exact, ArithmeticError> {
    evaluate(&node).map(|d| Exact::from_i128_with_scale(d.mantissa, d.scale))
}

#[test]
fn engine_raw() {
    assert_eq!(Exact::ONE, eval(Node::Value(lib(Exact::ONE))).unwrap());
}

#[test]
fn engine_add() {
    assert_eq!(
        Exact::TWO,
        eval(Node::Expr(Expr::Add(value(Exact::ONE), value(Exact::ONE)).into())).unwrap()
    );
}

#[test]
fn add_overflow() {
    let error = eval(Node::Expr(Expr::Add(value(Exact::MAX), value(Exact::ONE)).into()));
    assert_eq!(error, Err(ArithmeticError::ExceedsMaximumPossibleValue));
}

#[test]
fn engine_sub() {
    assert_eq!(
        Exact::ZERO,
        eval(Node::Expr(Expr::Sub(value(Exact::ONE), value(Exact::ONE)).into())).unwrap()
    );
}

#[test]
fn sub_underflow() {
    let error = eval(Node::Expr(Expr::Sub(value(Exact::MIN), value(Exact::ONE)).into()));
    assert_eq!(error, Err(ArithmeticError::LessThanMinimumPossibleValue));
}

#[test]
fn engine_mul() {
    assert_eq!(
        Exact::ONE,
        eval(Node::Expr(Expr::Mul(value(Exact::ONE), value(Exact::ONE)).into())).unwrap()
    );
}

#[test]
fn mul_overflow() {
    let error = eval(Node::Expr(Expr::Mul(value(Exact::MAX), value(Exact::TWO)).into()));
    assert_eq!(error, Err(ArithmeticError::ExceedsMaximumPossibleValue));
}

#[test]
fn mul_underflow() {
    let error = eval(Node::Expr(Expr::Mul(value(Exact::MIN), value(Exact::TWO)).into()));
    assert_eq!(error, Err(ArithmeticError::LessThanMinimumPossibleValue));
}

#[test]
fn engine_div() {
    assert_eq!(
        Exact::ONE,
        eval(Node::Expr(Expr::Div(value(Exact::ONE), value(Exact::ONE)).into())).unwrap()
    );
}

#[test]
fn div_overflow() {
    let error = eval(Node::Expr(Expr::Div(value(Exact::ONE), value(Exact::ZERO)).into()));
    assert_eq!(error, Err(ArithmeticError::ExceedsMaximumPossibleValue));
}

#[test]
fn div_underflow() {
    let error =
        eval(Node::Expr(Expr::Div(value(Exact::NEGATIVE_ONE), value(Exact::ZERO)).into()));
    assert_eq!(error, Err(ArithmeticError::LessThanMinimumPossibleValue));
}

#[test]
fn engine_neg() {
    assert_eq!(
        Exact::NEGATIVE_ONE,
        eval(Node::Expr(Expr::Neg(value(Exact::ONE)).into())).unwrap()
    );
}
