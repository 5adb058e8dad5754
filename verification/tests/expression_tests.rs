use rsedsim::model::expression::{Expression, Operator, UnaryOperator};
use rsedsim::model::auxiliary::Auxiliary;
use rsedsim::model::grammar::ParseErrorKind;
use rsedsim::model::{Flow, Stock};

#[test]
fn test_parse_constant() {
    let expr = Expression::parse("42").unwrap();
    assert!(matches!(expr, Expression::Constant(ref text) if text == "42"));
}

#[test]
fn test_parse_variable() {
    let expr = Expression::parse("Population").unwrap();
    assert!(matches!(expr, Expression::Variable(ref name) if name == "Population"));
}

#[test]
fn test_parse_simple_conditional() {
    let expr = Expression::parse("IF x > 0 THEN 1 ELSE 0").unwrap();
    assert!(matches!(expr, Expression::Conditional { .. }));
}

#[test]
fn test_parse_nested_conditional() {
    let expr = Expression::parse("IF x > 2 THEN 1.0 ELSE IF x > 1 THEN 0.5 ELSE 0.1").unwrap();
    assert!(matches!(expr, Expression::Conditional { .. }));
}

#[test]
fn test_parse_addition() {
    let expr = Expression::parse("1 + 2").unwrap();
    assert!(matches!(expr, Expression::BinaryOp { op: Operator::Add, .. }));
}

#[test]
fn test_parse_multiplication() {
    let expr = Expression::parse("3 * 4").unwrap();
    assert!(matches!(expr, Expression::BinaryOp { op: Operator::Multiply, .. }));
}

#[test]
fn parse_precedence_and_association() {
    let expr = Expression::parse("a - b * c - d").unwrap();
    match expr {
        Expression::BinaryOp { op: Operator::Subtract, left, right } => {
            assert!(matches!(*right, Expression::Variable(ref n) if n == "d"));
            match *left {
                Expression::BinaryOp { op: Operator::Subtract, left: l2, right: r2 } => {
                    assert!(matches!(*l2, Expression::Variable(ref n) if n == "a"));
                    assert!(matches!(*r2, Expression::BinaryOp { op: Operator::Multiply, .. }));
                }
                other => panic!("unexpected {:?}", other),
            }
        }
        other => panic!("unexpected {:?}", other),
    }
}

#[test]
fn parse_errors_by_kind() {
    assert_eq!(Expression::parse("").unwrap_err().kind, ParseErrorKind::EmptyOperand);
    assert_eq!(Expression::parse("a *").unwrap_err().kind, ParseErrorKind::EmptyOperand);
    assert_eq!(Expression::parse("(a + b").unwrap_err().kind, ParseErrorKind::UnmatchedParenthesis);
    assert_eq!(Expression::parse("a + b)").unwrap_err().kind, ParseErrorKind::UnmatchedParenthesis);
    assert_eq!(Expression::parse("IF a > 1 ELSE 2").unwrap_err().kind, ParseErrorKind::MissingThen);
    assert_eq!(Expression::parse("IF a > 1 THEN 2").unwrap_err().kind, ParseErrorKind::MissingElse);
    assert_eq!(Expression::parse("a b").unwrap_err().kind, ParseErrorKind::Unrecognized);
    assert_eq!(Expression::parse("a * -b").unwrap_err().kind, ParseErrorKind::EmptyOperand);
}

#[test]
fn parse_call_and_negation() {
    let expr = Expression::parse("-MAX(a, b[x, *], 3)").unwrap();
    match expr {
        Expression::UnaryOp { op: UnaryOperator::Negate, expr } => match *expr {
            Expression::FunctionCall { name, args } => {
                assert_eq!(name, "MAX");
                assert_eq!(args.len(), 3);
                assert!(matches!(args[1], Expression::SubscriptedVariable { .. }));
            }
            other => panic!("unexpected {:?}", other),
        },
        other => panic!("unexpected {:?}", other),
    }
    let call = Expression::parse("TIME()").unwrap();
    assert!(matches!(call, Expression::FunctionCall { ref args, .. } if args.is_empty()));
}

fn reads_back(text: &str) {
    let first = Expression::parse(text).unwrap();
    let written = first.to_string();
    let second = Expression::parse(&written).unwrap();
    assert_eq!(format!("{:?}", first), format!("{:?}", second), "{} -> {}", text, written);
    assert_eq!(second.to_string(), written);
}

#[test]
fn written_expressions_read_back() {
    for text in [
        "42",
        "3.14",
        "Population",
        "a + b * c ^ d",
        "a - b - c",
        "(a + b) * (-c)",
        "-x",
        "-(x + 1)",
        "IF x > 0 THEN 1 ELSE 0",
        "IF x > 2 THEN 1.0 ELSE IF x > 1 THEN 0.5 ELSE 0.1",
        "IF a THEN IF b THEN c ELSE d ELSE e",
        "(IF a >= b THEN a ELSE b) + 1",
        "MAX(a, MIN(b, c), 3)",
        "TIME()",
        "Sales[North, *] / Total[North]",
        "f(g[a, b], h(1, 2))",
        "a <= b",
        "a == b",
        "a != b",
        "PULSE(5, 2) * DELAY1(input, 10, 0)",
        "  spaced   +   out  ",
        "if_then >= IFx",
    ] {
        reads_back(text);
    }
}

#[test]
fn written_forms() {
    let written = |text: &str| Expression::parse(text).unwrap().to_string();
    assert_eq!(written("1 + 2 * 3"), "(1 + (2 * 3))");
    assert_eq!(written("-x"), "(-x)");
    assert_eq!(written("IF a THEN b ELSE c"), "(IF a THEN b ELSE c)");
    assert_eq!(written("f( a ,b )"), "f(a, b)");
    assert_eq!(written("v[ x , * ]"), "v[x, *]");
    assert_eq!(written("a>=b"), "(a >= b)");
    assert_eq!(written("2^3^2"), "((2 ^ 3) ^ 2)");
    let error = Expression::parse("a +").unwrap_err();
    assert_eq!(error.message(), "empty operand in ''");
    assert_eq!(Expression::parse("a ? b").unwrap_err().message(), "unrecognized construct in 'a ? b'");
    assert_eq!(Expression::parse("IF").unwrap_err().kind, ParseErrorKind::MissingThen);
    assert_eq!(Expression::parse("THEN").unwrap_err().kind, ParseErrorKind::Unrecognized);
    assert_eq!(Expression::parse("1e5").unwrap_err().kind, ParseErrorKind::Unrecognized);
    assert_eq!(Expression::parse("f(a,)").unwrap_err().kind, ParseErrorKind::EmptyOperand);
    assert_eq!(Expression::parse("(a)(b)").unwrap_err().kind, ParseErrorKind::Unrecognized);
    assert_eq!(Expression::parse("v[]").unwrap_err().kind, ParseErrorKind::EmptyOperand);
}

#[test]
fn any_white_space_separates() {
    let plain = Expression::parse("a + b * 2").unwrap();
    let spaced = Expression::parse("\u{a0}a\u{2003}+\tb\u{3000}*\n2\u{85}").unwrap();
    assert_eq!(spaced.to_string(), plain.to_string());
    assert_eq!(Expression::parse(" \u{2028}\u{a0} ").unwrap_err().kind, ParseErrorKind::EmptyOperand);
    assert!(Expression::parse("a\u{200b}b").is_err());
}

#[test]
fn elements_are_refused_for_what_is_no_expression() {
    let stock = Stock::try_new("S", "1 + 2").unwrap();
    assert_eq!(stock.name, "S");
    assert_eq!(stock.initial.to_string(), "(1 + 2)");
    assert!(stock.inflows.is_empty() && stock.outflows.is_empty());
    assert_eq!(Stock::try_new("S", "(1 + 2").unwrap_err().kind, ParseErrorKind::UnmatchedParenthesis);
    assert_eq!(Stock::new("S", "(1 + 2").initial.to_string(), "0");
    let flow = Flow::try_new("f", "S * 2").unwrap();
    assert_eq!(flow.equation.to_string(), "(S * 2)");
    assert_eq!(Flow::try_new("f", "S *").unwrap_err().kind, ParseErrorKind::EmptyOperand);
    let aux = Auxiliary::try_new("a", "IF S > 1 THEN 2 ELSE 3").unwrap();
    assert_eq!(aux.name, "a");
    assert_eq!(Auxiliary::try_new("a", "IF S > 1 THEN 2").unwrap_err().kind, ParseErrorKind::MissingElse);
}
