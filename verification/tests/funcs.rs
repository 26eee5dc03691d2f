use snow::legacy::funcs::{expr_panics, funcs_panic, parse_expr, parse_funcs, Expr, FuncsError};
use snow::legacy::lox::{BinaryOp, Value};
use snow::legacy::token::{BlockType, KeyWord, Token};

/// Tokens with one-character spans, one after the other.
fn spanned(ts: Vec<Token>) -> Vec<(Token, std::ops::Range<usize>)> {
    ts.into_iter().enumerate().map(|(i, t)| (t, i..i + 1)).collect()
}

fn lit(s: &str) -> Token {
    Token::Int(s.to_string())
}

fn op(s: &str) -> Token {
    Token::Op(s.to_string())
}

fn id(s: &str) -> Token {
    Token::Id(s.to_string())
}

fn function(name: &str, body: Vec<Token>) -> Vec<Token> {
    let mut v = vec![Token::OpenBlock(BlockType::Fn), id(name), op("="), Token::OpenBlock(BlockType::FnBlock)];
    v.extend(body);
    v.push(Token::CloseBlock(BlockType::FnBlock));
    v.push(Token::CloseBlock(BlockType::Fn));
    v
}

#[test]
fn products_bind_tighter_in_function_bodies() {
    let toks = spanned(function("main", vec![lit("1"), op("+"), lit("2"), op("*"), lit("3")]));
    let funcs = parse_funcs(&toks).unwrap();
    assert_eq!(funcs.len(), 1);
    assert_eq!(funcs[0].0, "main");
    assert!(funcs[0].1.args.is_empty());
    let product = (
        Expr::Binary(
            Box::new((Expr::Value(Value::Int(2)), 6..7)),
            BinaryOp::Mul,
            Box::new((Expr::Value(Value::Int(3)), 8..9)),
        ),
        6..9,
    );
    let expected = (
        Expr::Binary(Box::new((Expr::Value(Value::Int(1)), 4..5)), BinaryOp::Add, Box::new(product)),
        4..9,
    );
    assert_eq!(funcs[0].1.body, expected);
}

#[test]
fn parameters_duplicates_and_leftovers() {
    let mut ts = vec![
        Token::OpenBlock(BlockType::Fn),
        id("add"),
        Token::OpenBlock(BlockType::Pram),
        id("x"),
        id("y"),
        Token::CloseBlock(BlockType::Pram),
        op("="),
        Token::OpenBlock(BlockType::FnBlock),
        id("x"),
        op("+"),
        id("y"),
        Token::CloseBlock(BlockType::FnBlock),
        Token::CloseBlock(BlockType::Fn),
    ];
    let funcs = parse_funcs(&spanned(ts.clone())).unwrap();
    assert_eq!(funcs[0].1.args, vec!["x".to_string(), "y".to_string()]);

    ts.extend(function("add", vec![lit("1")]));
    match parse_funcs(&spanned(ts.clone())) {
        Err(FuncsError::Duplicate(name, span)) => {
            assert_eq!(name, "add");
            assert_eq!(span, 14..15);
        }
        other => panic!("{:?}", other),
    }
    let mut one = function("main", vec![lit("1")]);
    one.push(op("+"));
    match parse_funcs(&spanned(one)) {
        Err(FuncsError::Unexpected(at)) => assert_eq!(at, 7),
        other => panic!("{:?}", other),
    }
}

#[test]
fn atoms_calls_and_blocks() {
    let toks = spanned(vec![
        Token::KeyWord(KeyWord::Print),
        Token::OpenBlock(BlockType::Arg),
        Token::String("hi".to_string()),
        Token::CloseBlock(BlockType::Arg),
    ]);
    let (e, next) = parse_expr(&toks, 0).unwrap();
    assert_eq!(next, 4);
    assert_eq!(
        e,
        (Expr::Print(Box::new((Expr::Value(Value::String("hi".to_string())), 2..3))), 0..4)
    );

    let toks = spanned(vec![id("f"), Token::OpenBlock(BlockType::Arg), lit("1"), lit("2"), Token::CloseBlock(BlockType::Arg)]);
    let (e, _) = parse_expr(&toks, 0).unwrap();
    match e.0 {
        Expr::Call(f, (args, span)) => {
            assert_eq!(f.0, Expr::Local("f".to_string()));
            assert_eq!(args.len(), 2);
            assert_eq!(span, 1..5);
        }
        other => panic!("{:?}", other),
    }

    let toks = spanned(vec![Token::Ctrl('['), lit("1"), Token::Ctrl(','), lit("2"), Token::Ctrl(','), Token::Ctrl(']')]);
    match parse_expr(&toks, 0).unwrap().0 .0 {
        Expr::List(items) => assert_eq!(items.len(), 2),
        other => panic!("{:?}", other),
    }

    let toks = spanned(vec![
        Token::OpenBlock(BlockType::Let),
        id("x"),
        op("="),
        lit("1"),
        Token::CloseBlock(BlockType::Let),
        id("x"),
    ]);
    match parse_expr(&toks, 0).unwrap().0 .0 {
        Expr::Let(name, _, body) => {
            assert_eq!(name, "x");
            assert_eq!(body.0, Expr::Local("x".to_string()));
        }
        other => panic!("{:?}", other),
    }

    let toks = spanned(vec![Token::Ctrl('('), lit("7"), Token::Ctrl(')'), Token::Ctrl(';'), lit("8")]);
    match parse_expr(&toks, 0).unwrap() {
        ((Expr::Then(a, b), span), 5) => {
            assert_eq!(a.0, Expr::Value(Value::Int(7)));
            assert_eq!(b.0, Expr::Value(Value::Int(8)));
            assert_eq!(span, 1..2);
        }
        other => panic!("{:?}", other),
    }
    assert!(parse_expr(&spanned(vec![op("+")]), 0).is_none());
}

#[test]
fn panicking_inputs_are_told() {
    let if_without_else = spanned(vec![
        Token::KeyWord(KeyWord::If),
        lit("1"),
        Token::OpenBlock(BlockType::Do),
        lit("2"),
        Token::CloseBlock(BlockType::Do),
    ]);
    assert!(expr_panics(&if_without_else, 0));
    let dangling = spanned(vec![lit("1"), Token::Ctrl(';')]);
    assert!(expr_panics(&dangling, 0));
    let huge = spanned(function("main", vec![lit("999999999999999999999999999999999999999999")]));
    assert!(funcs_panic(&huge));
    assert!(!funcs_panic(&spanned(function("main", vec![lit("1")]))));
}
