use snow::legacy::eval::Halt;
use snow::legacy::lox::{eval_expr, eval_panics, BinaryOp, Expr, Parser, UnaryOp, Value};
use snow::legacy::token::{KeyWord, Token};

#[test]
fn products_bind_tighter_than_sums() {
    let tokens = vec![
        (Token::Int("1".into()), 0..1),
        (Token::Op("+".into()), 2..3),
        (Token::Int("2".into()), 4..5),
        (Token::Op("*".into()), 6..7),
        (Token::Int("3".into()), 8..9),
        (Token::Eof, 9..9),
    ];
    let mut parser = Parser::new(&tokens);
    let expr = parser.parse();
    let product = (
        Expr::Binary(
            Box::new((Expr::Value(Value::Int(2)), 4..5)),
            (BinaryOp::Mul, 6..7),
            Box::new((Expr::Value(Value::Int(3)), 8..9)),
        ),
        4..9,
    );
    let expected = (
        Expr::Binary(
            Box::new((Expr::Value(Value::Int(1)), 0..1)),
            (BinaryOp::Add, 2..3),
            Box::new(product),
        ),
        0..9,
    );
    assert_eq!(expr, expected);
}

#[test]
fn unary_operators_and_literals() {
    let tokens = vec![
        (Token::Op("!".into()), 0..1),
        (Token::KeyWord(KeyWord::False), 1..6),
        (Token::Op("==".into()), 7..9),
        (Token::Op("-".into()), 10..11),
        (Token::Float("2.5".into()), 11..14),
        (Token::Eof, 14..14),
    ];
    let expr = Parser::new(&tokens).parse();
    let left = (
        Expr::Unary((UnaryOp::Not, 0..1), Box::new((Expr::Value(Value::Boolean(false)), 1..6))),
        0..6,
    );
    let right = (
        Expr::Unary(
            (UnaryOp::Neg, 10..11),
            Box::new((Expr::Value(Value::Float("2.5".into())), 11..14)),
        ),
        10..14,
    );
    assert_eq!(
        expr,
        (Expr::Binary(Box::new(left), (BinaryOp::Eq, 7..9), Box::new(right)), 0..14)
    );
}

#[test]
fn operators_from_tokens() {
    assert_eq!(BinaryOp::new(&Token::Op("!=".into())), BinaryOp::NotEq);
    assert_eq!(UnaryOp::new(&Token::KeyWord(KeyWord::Not)), UnaryOp::Not);
    assert_eq!(UnaryOp::new(&Token::Op("-".into())), UnaryOp::Neg);
}

#[test]
fn a_string_literal_stops_at_the_end() {
    let tokens = vec![(Token::String("hi".into()), 0..4), (Token::Eof, 4..4)];
    let mut parser = Parser::new(&tokens);
    assert_eq!(parser.parse(), (Expr::Value(Value::String("hi".into())), 0..4));
}

#[test]
fn parses_tells_which_inputs_read() {
    let good = vec![(Token::Int("1".into()), 0..1), (Token::Eof, 1..1)];
    assert!(Parser::new(&good).parses());
    let grouped = vec![(Token::Ctrl('('), 0..1), (Token::Int("1".into()), 1..2), (Token::Eof, 2..2)];
    assert!(!Parser::new(&grouped).parses());
    let comparison = vec![
        (Token::Int("1".into()), 0..1),
        (Token::Op(">".into()), 2..3),
        (Token::Int("2".into()), 4..5),
        (Token::Eof, 5..5),
    ];
    assert!(!Parser::new(&comparison).parses());
    let empty: Vec<(Token, std::ops::Range<usize>)> = vec![];
    assert!(!Parser::new(&empty).parses());
}

fn parsed(tokens: Vec<(Token, std::ops::Range<usize>)>) -> (Expr, std::ops::Range<usize>) {
    let mut parser = Parser::new(&tokens);
    assert!(parser.parses());
    parser.parse()
}

#[test]
fn parsed_arithmetic_evaluates() {
    let expr = parsed(vec![
        (Token::Int("1".into()), 0..1),
        (Token::Op("+".into()), 2..3),
        (Token::Int("2".into()), 4..5),
        (Token::Op("*".into()), 6..7),
        (Token::Int("3".into()), 8..9),
        (Token::Op("==".into()), 10..12),
        (Token::Int("7".into()), 13..14),
        (Token::Eof, 14..14),
    ]);
    assert!(!eval_panics(&expr));
    assert_eq!(eval_expr(&expr).unwrap(), Value::Boolean(true));
}

#[test]
fn expression_evaluation_errors() {
    let mixed = (
        Expr::Binary(
            Box::new((Expr::Value(Value::Float("2.5".into())), 0..3)),
            (BinaryOp::Sub, 4..5),
            Box::new((Expr::Value(Value::String("x".into())), 6..9)),
        ),
        0..9,
    );
    match eval_expr(&mixed) {
        Err(Halt::Failed(span, msg)) => {
            assert_eq!(span, 6..9);
            assert_eq!(msg, "'x' is not a Float");
        }
        other => panic!("unexpected {:?}", other),
    }
    let halves = (
        Expr::Binary(
            Box::new((Expr::Value(Value::Int(-9)), 0..2)),
            (BinaryOp::Div, 3..4),
            Box::new((Expr::Value(Value::Int(2)), 5..6)),
        ),
        0..6,
    );
    assert_eq!(eval_expr(&halves).unwrap(), Value::Int(-4));
    let zero = (
        Expr::Binary(
            Box::new((Expr::Value(Value::Int(1)), 0..1)),
            (BinaryOp::Div, 2..3),
            Box::new((Expr::Value(Value::Int(0)), 4..5)),
        ),
        0..5,
    );
    assert!(eval_panics(&zero));
    let negated = (Expr::Unary((UnaryOp::Neg, 0..1), Box::new((Expr::Value(Value::Int(1)), 1..2))), 0..2);
    assert!(eval_panics(&negated));
}
