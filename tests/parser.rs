use calculator::{parse, Decimal, Expr, Node};
use rust_decimal::Decimal as Exact;

fn lib(d: Exact) -> Decimal {
    Decimal { mantissa: d.mantissa(), scale: d.scale() }
}

#[test]
fn parser_add() {
    let node = parse("1 + 1").unwrap();
    assert_eq!(
        node,
        Node::Expr(Expr::Add(Node::Value(lib(Exact::ONE)), Node::Value(lib(Exact::ONE))).into())
    );
}

#[test]
fn parser_sub() {
    let node = parse("1 - 1").unwrap();
    assert_eq!(
        node,
        Node::Expr(Expr::Sub(Node::Value(lib(Exact::ONE)), Node::Value(lib(Exact::ONE))).into())
    );
}

#[test]
fn parser_mul() {
    let node = parse("1 * 2").unwrap();
    assert_eq!(
        node,
        Node::Expr(Expr::Mul(Node::Value(lib(Exact::ONE)), Node::Value(lib(Exact::TWO))).into())
    );
}

#[test]
fn parser_div() {
    let node = parse("1 / 2").unwrap();
    assert_eq!(
        node,
        Node::Expr(Expr::Div(Node::Value(lib(Exact::ONE)), Node::Value(lib(Exact::TWO))).into())
    );
}

#[test]
fn parser_neg() {
    let node = parse("-1").unwrap();
    assert_eq!(node, Node::Expr(Expr::Neg(Node::Value(lib(Exact::ONE))).into()));
}

#[test]
fn parser_raw() {
    let node = parse("1000").unwrap();
    assert_eq!(node, Node::Value(lib(Exact::ONE_THOUSAND)));
}
