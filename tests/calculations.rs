use calculator::engine::{classify_difference, classify_product, classify_quotient, classify_sum};
use calculator::calc::Error as CalcError;
use calculator::parser::ast::Builder;
use calculator::parser::error::Error;
use calculator::parser::tokenizer::{is_separator, tokenize, Operator, Token};
use calculator::{calculate, parse, ArithmeticError, Decimal, DecimalError, Expr, Node};
use rust_decimal::Decimal as Exact;

fn exact(d: Decimal) -> Exact {
    Exact::from_i128_with_scale(d.mantissa, d.scale)
}

fn value(text: &str) -> Exact {
    exact(calculate(text).unwrap())
}

fn lib(d: Exact) -> Decimal {
    Decimal { mantissa: d.mantissa(), scale: d.scale() }
}

#[test]
fn simple_results() {
    assert_eq!(value("1 + 1"), Exact::TWO);
    assert_eq!(value("1 - 1"), Exact::ZERO);
    assert_eq!(value("1 * 2"), Exact::TWO);
    assert_eq!(value("1 / 2"), Exact::new(5, 1));
    assert_eq!(value("-1"), Exact::NEGATIVE_ONE);
    assert_eq!(value("1000"), Exact::ONE_THOUSAND);
    assert_eq!(value("0x539"), Exact::new(1337, 0));
}

#[test]
fn multiplication_binds_tighter() {
    assert_eq!(value("1 + 2 * 3"), Exact::new(7, 0));
    assert_eq!(value("8 - 6 / 2"), Exact::new(5, 0));
    assert_eq!(value("2 * 3 + 1"), Exact::new(7, 0));
}

#[test]
fn additive_chain_is_left_associative() {
    assert_eq!(value("10 - 4 - 3"), Exact::new(3, 0));
    assert_eq!(value("12 / 2 / 3"), Exact::TWO);
}

#[test]
fn grouping() {
    assert_eq!(value("(1 + 2) * 3"), Exact::new(9, 0));
    assert_eq!(value("((2))"), Exact::TWO);
    assert_eq!(value("2 * (3 - (4 + 1))"), Exact::new(-4, 0));
}

#[test]
fn unary_minus_chains() {
    assert_eq!(value("--1"), Exact::ONE);
    assert_eq!(value("2 * -3"), Exact::new(-6, 0));
    assert_eq!(value("2 - -3"), Exact::new(5, 0));
    assert_eq!(value("-(1 + 2)"), Exact::new(-3, 0));
    let one = Node::Value(lib(Exact::ONE));
    let two = Node::Value(lib(Exact::TWO));
    assert_eq!(
        parse("1 * - 2").unwrap(),
        Node::Expr(Expr::Mul(one, Node::Expr(Expr::Neg(two).into())).into())
    );
    let one = Node::Value(lib(Exact::ONE));
    let two = Node::Value(lib(Exact::TWO));
    assert_eq!(
        parse("1 - - 2").unwrap(),
        Node::Expr(Expr::Sub(one, Node::Expr(Expr::Neg(two).into())).into())
    );
}

#[test]
fn range_limits() {
    let max = Exact::MAX.to_string();
    let min = Exact::MIN.to_string();
    assert_eq!(
        calculate(&format!("{max} + 1")),
        Err(CalcError::Math(ArithmeticError::ExceedsMaximumPossibleValue))
    );
    assert_eq!(
        calculate(&format!("{min} - 1")),
        Err(CalcError::Math(ArithmeticError::LessThanMinimumPossibleValue))
    );
    assert_eq!(value(&format!("{max} - 1")), Exact::MAX - Exact::ONE);
}

#[test]
fn product_overflow_follows_signs() {
    let max = Exact::MAX.to_string();
    let exceeds = Err(CalcError::Math(ArithmeticError::ExceedsMaximumPossibleValue));
    let less = Err(CalcError::Math(ArithmeticError::LessThanMinimumPossibleValue));
    assert_eq!(calculate(&format!("{max} * 2")), exceeds);
    assert_eq!(calculate(&format!("-{max} * -2")), exceeds);
    assert_eq!(calculate(&format!("-{max} * 2")), less);
    assert_eq!(calculate(&format!("{max} * -2")), less);
}

#[test]
fn division_by_zero_follows_dividend() {
    let exceeds = Err(CalcError::Math(ArithmeticError::ExceedsMaximumPossibleValue));
    let less = Err(CalcError::Math(ArithmeticError::LessThanMinimumPossibleValue));
    assert_eq!(calculate("1 / 0"), exceeds);
    assert_eq!(calculate("0 / 0"), exceeds);
    assert_eq!(calculate("-1 / 0"), less);
    assert_eq!(calculate("-1 / 0.00"), less);
}

#[test]
fn malformed_input() {
    assert_eq!(parse("(1 + 1"), Err(Error::UnterminatedGroup));
    assert_eq!(parse(")1 + 1"), Err(Error::UninitializedGroup));
    assert_eq!(parse("1 + 1)"), Err(Error::UninitializedGroup));
    assert_eq!(
        parse("1 1"),
        Err(Error::UnexpectedNode(Node::Value(lib(Exact::ONE))))
    );
    assert_eq!(parse("1 +"), Err(Error::LeftoverElements));
    assert_eq!(parse(""), Err(Error::Empty));
    assert_eq!(parse("   "), Err(Error::Empty));
    assert_eq!(parse("()"), Err(Error::Empty));
    assert_eq!(parse("* 1"), Err(Error::UnexpectedOperator(Operator::Mul)));
    assert_eq!(parse("1 + * 2"), Err(Error::UnexpectedOperator(Operator::Mul)));
    assert_eq!(parse("-"), Err(Error::UnexpectedOperator(Operator::Sub)));
    assert_eq!(parse("---"), Err(Error::UnexpectedOperator(Operator::Sub)));
}

#[test]
fn malformed_literal() {
    assert!(matches!(parse("1.2.3"), Err(Error::Value(_))));
    assert!(matches!(parse("0xZZ"), Err(Error::Value(_))));
    assert!(matches!(
        calculate("abc + 1"),
        Err(CalcError::Parse(Error::Value(DecimalError::ErrorString(_))))
    ));
}

#[test]
fn whitespace_is_insignificant() {
    let compact: Vec<_> = tokenize("1+1").into_iter().collect();
    let spaced: Vec<_> = tokenize("1 + 1").into_iter().collect();
    assert_eq!(compact, spaced);
    let tabs: Vec<_> = tokenize("\t(2 *3)\n").into_iter().collect();
    let plain: Vec<_> = tokenize("(2*3)").into_iter().collect();
    assert_eq!(tabs, plain);
    assert_eq!(tokenize("").len(), 0);
    assert_eq!(tokenize(" 12 ").len(), 1);
}

#[test]
fn separated_words_are_separate_values() {
    let tokens: Vec<_> = tokenize("12 34").into_iter().collect();
    assert_eq!(
        tokens,
        vec![
            Ok(Token::Value(lib(Exact::new(12, 0)))),
            Ok(Token::Value(lib(Exact::new(34, 0))))
        ]
    );
}

#[test]
fn separators() {
    for c in ['+', '-', '*', '/', '(', ')'] {
        assert!(is_separator(c));
    }
    for c in ['0', 'x', ' ', '.', '^'] {
        assert!(!is_separator(c));
    }
}

#[test]
fn builder_refusals_keep_the_buffer() {
    let mut builder = Builder::new();
    assert_eq!(
        builder.add_operator(Operator::Add),
        Err(Error::UnexpectedOperator(Operator::Add))
    );
    builder.add_node(Node::Value(lib(Exact::TWO))).unwrap();
    assert_eq!(
        builder.add_node(Node::Value(lib(Exact::ONE))),
        Err(Error::UnexpectedNode(Node::Value(lib(Exact::ONE))))
    );
    builder.add_operator(Operator::Mul).unwrap();
    builder.add_operator(Operator::Sub).unwrap();
    builder.add_node(Node::Value(lib(Exact::new(3, 0)))).unwrap();
    let node = builder.build().unwrap();
    assert_eq!(exact(calculator::evaluate(&node).unwrap()), Exact::new(-6, 0));
}

#[test]
fn builder_build_errors() {
    assert_eq!(Builder::new().build(), Err(Error::Empty));
    let mut builder = Builder::new();
    builder.add_operator(Operator::Sub).unwrap();
    assert_eq!(builder.build(), Err(Error::UnexpectedOperator(Operator::Sub)));
    let mut builder = Builder::new();
    builder.add_node(Node::Value(lib(Exact::ONE))).unwrap();
    builder.add_operator(Operator::Add).unwrap();
    assert_eq!(builder.build(), Err(Error::LeftoverElements));
}

#[test]
fn decimal_construction() {
    assert_eq!(Decimal::new(5, 1), Some(Decimal { mantissa: 5, scale: 1 }));
    assert_eq!(Decimal::new(1, 29), None);
    assert_eq!(Decimal::new(i128::MAX, 0), None);
    assert_eq!(Decimal::new(-1, 0).unwrap().negate(), Decimal { mantissa: 1, scale: 0 });
    assert!(Decimal::new(-1, 0).unwrap().is_negative());
}

#[test]
fn literals_are_read_exactly() {
    assert_eq!(value("133.7"), Exact::new(1337, 1));
    assert_eq!(value("0xff"), Exact::new(255, 0));
    assert_eq!(value("0.5 + 0.25"), Exact::new(75, 2));
    assert_eq!(value("7 - 10"), Exact::new(-3, 0));
    assert_eq!(value("1.5 * 4"), Exact::new(6, 0));
}

#[test]
fn checked_results_are_classified() {
    let neg = Decimal { mantissa: -5, scale: 0 };
    let pos = Decimal { mantissa: 3, scale: 1 };
    let zero = Decimal { mantissa: 0, scale: 2 };
    assert_eq!(classify_sum(Some(pos)), Ok(pos));
    assert_eq!(classify_sum(None), Err(ArithmeticError::ExceedsMaximumPossibleValue));
    assert_eq!(classify_difference(None), Err(ArithmeticError::LessThanMinimumPossibleValue));
    assert_eq!(classify_product(neg, neg, None), Err(ArithmeticError::ExceedsMaximumPossibleValue));
    assert_eq!(classify_product(pos, zero, None), Err(ArithmeticError::ExceedsMaximumPossibleValue));
    assert_eq!(classify_product(neg, pos, None), Err(ArithmeticError::LessThanMinimumPossibleValue));
    assert_eq!(classify_product(neg, pos, Some(neg)), Ok(neg));
    assert_eq!(classify_quotient(pos, zero, Some(pos)), Err(ArithmeticError::ExceedsMaximumPossibleValue));
    assert_eq!(classify_quotient(neg, zero, None), Err(ArithmeticError::LessThanMinimumPossibleValue));
    assert_eq!(classify_quotient(neg, pos, Some(pos)), Ok(pos));
}

#[test]
fn dangling_operator_is_left_over() {
    assert_eq!(parse("1 + 1 -"), Err(Error::LeftoverElements));
    assert_eq!(parse("1 * -"), Err(Error::LeftoverElements));
    assert_eq!(parse("1 - -"), Err(Error::LeftoverElements));
    assert_eq!(parse("1 + 2 *"), Err(Error::LeftoverElements));
    assert_eq!(parse("(1 + 1 -) * 2"), Err(Error::LeftoverElements));
    let mut builder = Builder::new();
    builder.add_node(Node::Value(lib(Exact::ONE))).unwrap();
    builder.add_operator(Operator::Add).unwrap();
    builder.add_node(Node::Value(lib(Exact::ONE))).unwrap();
    builder.add_operator(Operator::Sub).unwrap();
    assert_eq!(builder.build(), Err(Error::LeftoverElements));
}

#[test]
fn whitespace_runs_are_insignificant() {
    let reference: Vec<_> = tokenize("12 34+5").into_iter().collect();
    let spaced: Vec<_> = tokenize(" \t 12 \n\t 34  +\u{3000}5  ").into_iter().collect();
    assert_eq!(reference, spaced);
}
