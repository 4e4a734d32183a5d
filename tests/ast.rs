use calculator::evaluate;
use calculator::parser::ast::Builder;
use calculator::parser::tokenizer::Operator;
use calculator::{Decimal, Node};
use rust_decimal::Decimal as Exact;

fn lib(d: Exact) -> Decimal {
    Decimal { mantissa: d.mantissa(), scale: d.scale() }
}

fn value_of(node: Node) -> Exact {
    let d = evaluate(&node).unwrap();
    Exact::from_i128_with_scale(d.mantissa, d.scale)
}

#[test]
fn ast_add() {
    let mut builder = Builder::new();
    builder.add_node(Node::Value(lib(Exact::ONE))).unwrap();
    builder.add_operator(Operator::Add).unwrap();
    builder.add_node(Node::Value(lib(Exact::ONE))).unwrap();
    let node = builder.build().unwrap();

    assert_eq!(Exact::TWO, value_of(node));
}

#[test]
fn ast_sub() {
    let mut builder = Builder::new();
    builder.add_node(Node::Value(lib(Exact::ONE))).unwrap();
    builder.add_operator(Operator::Sub).unwrap();
    builder.add_node(Node::Value(lib(Exact::ONE))).unwrap();
    let node = builder.build().unwrap();

    assert_eq!(Exact::ZERO, value_of(node));
}

#[test]
fn ast_mul() {
    let mut builder = Builder::new();
    builder.add_node(Node::Value(lib(Exact::ONE))).unwrap();
    builder.add_operator(Operator::Mul).unwrap();
    builder.add_node(Node::Value(lib(Exact::TWO))).unwrap();
    let node = builder.build().unwrap();

    assert_eq!(Exact::TWO, value_of(node));
}

#[test]
fn ast_div() {
    let mut builder = Builder::new();
    builder.add_node(Node::Value(lib(Exact::ONE))).unwrap();
    builder.add_operator(Operator::Div).unwrap();
    builder.add_node(Node::Value(lib(Exact::TWO))).unwrap();
    let node = builder.build().unwrap();

    assert_eq!(Exact::new(5, 1), value_of(node));
}

#[test]
fn ast_neg() {
    let mut builder = Builder::new();
    builder.add_operator(Operator::Sub).unwrap();
    builder.add_node(Node::Value(lib(Exact::ONE))).unwrap();
    let node = builder.build().unwrap();

    assert_eq!(Exact::NEGATIVE_ONE, value_of(node));
}

#[test]
fn ast_raw() {
    let mut builder = Builder::new();
    builder.add_node(Node::Value(lib(Exact::ONE_THOUSAND))).unwrap();
    let node = builder.build().unwrap();

    assert_eq!(Exact::ONE_THOUSAND, value_of(node));
}
