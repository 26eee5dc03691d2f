use snow::front_end::{Atom, Expr, Operator, Parser, Token};

fn id(s: &str) -> Result<Token, ()> {
    Ok(Token::Identifier(s.to_string()))
}

/// What the lexer gives for
/// "\nmax x y\n    : Int -> Int -> Int\n    = if x > y then x else y\n        ".
fn max_function_tokens() -> Vec<Result<Token, ()>> {
    vec![
        Ok(Token::NewLine),
        id("max"),
        Ok(Token::Whitespace),
        id("x"),
        Ok(Token::Whitespace),
        id("y"),
        Ok(Token::NewLine),
        Ok(Token::Whitespace),
        Ok(Token::Colon),
        Ok(Token::Whitespace),
        id("Int"),
        Ok(Token::Whitespace),
        Ok(Token::Arrow),
        Ok(Token::Whitespace),
        id("Int"),
        Ok(Token::Whitespace),
        Ok(Token::Arrow),
        Ok(Token::Whitespace),
        id("Int"),
        Ok(Token::NewLine),
        Ok(Token::Whitespace),
        Ok(Token::Equals),
        Ok(Token::Whitespace),
        Ok(Token::If),
        Ok(Token::Whitespace),
        id("x"),
        Ok(Token::Whitespace),
        Ok(Token::GreaterThan),
        Ok(Token::Whitespace),
        id("y"),
        Ok(Token::Whitespace),
        Ok(Token::Then),
        Ok(Token::Whitespace),
        id("x"),
        Ok(Token::Whitespace),
        Ok(Token::Else),
        Ok(Token::Whitespace),
        id("y"),
        Ok(Token::NewLine),
        Ok(Token::Whitespace),
    ]
}

#[test]
fn test_lexer_with_spacing() {
    let input = r#"Int->Int->Int"#;
    let tokens = Token::lexer(input);
    assert_eq!(
        tokens,
        vec![
            Ok(Token::Identifier("Int".to_string(),),),
            Ok(Token::Arrow),
            Ok(Token::Identifier("Int".to_string(),),),
            Ok(Token::Arrow),
            Ok(Token::Identifier("Int".to_string(),),)
        ]
    );
    let input = r#"Int -> Int -> Int"#;
    let tokens = Token::lexer(input);
    assert_eq!(
        tokens,
        vec![
            Ok(Token::Identifier("Int".to_string(),),),
            Ok(Token::Whitespace),
            Ok(Token::Arrow),
            Ok(Token::Whitespace),
            Ok(Token::Identifier("Int".to_string(),),),
            Ok(Token::Whitespace),
            Ok(Token::Arrow),
            Ok(Token::Whitespace),
            Ok(Token::Identifier("Int".to_string(),),)
        ]
    );
}

#[test]
fn test_lexer() {
    let input = r#"
max x y
    : Int -> Int -> Int
    = if x > y then x else y
        "#;
    assert_eq!(Token::lexer(input), max_function_tokens());
}

#[test]
fn test_parser_function() {
    let input = r#"
max x y
    : Int -> Int -> Int
    = if x > y then x else y
        "#;
    let lexer = Token::lexer(input);
    let mut parser = Parser::new(lexer);
    let ast = match parser.parse() {
        Ok(ast) => ast,
        Err(errors) => {
            for e in errors {
                println!("Error: {}", e);
            }
            panic!();
        }
    };

    assert_eq!(ast.len(), 1);
    assert_eq!(
        ast[0],
        Expr::Function {
            name: "max".to_string(),
            params: vec!["x".to_string(), "y".to_string()],
            signature: vec!["Int".to_string(), "Int".to_string(), "Int".to_string()],
            body: Box::new(Expr::If {
                condition: Box::new(Expr::BinaryOp {
                    left: Box::new(Expr::Identifier("x".to_string())),
                    op: Operator::GreaterThan,
                    right: Box::new(Expr::Identifier("y".to_string()))
                }),
                then_branch: Box::new(Expr::Identifier("x".to_string())),
                else_branch: Some(Box::new(Expr::Identifier("y".to_string())))
            })
        }
    );
}

/// What the lexer gives for
/// "\n            enum Option a\n                = Some a\n                | None\n        ".
fn option_enum_tokens() -> Vec<Result<Token, ()>> {
    vec![
        Ok(Token::NewLine),
        Ok(Token::Whitespace),
        Ok(Token::Enum),
        Ok(Token::Whitespace),
        id("Option"),
        Ok(Token::Whitespace),
        id("a"),
        Ok(Token::NewLine),
        Ok(Token::Whitespace),
        Ok(Token::Equals),
        Ok(Token::Whitespace),
        id("Some"),
        Ok(Token::Whitespace),
        id("a"),
        Ok(Token::NewLine),
        Ok(Token::Whitespace),
        Ok(Token::Pipe),
        Ok(Token::Whitespace),
        id("None"),
        Ok(Token::NewLine),
        Ok(Token::Whitespace),
    ]
}

#[test]
fn test_parser_enum() {
    let input = r#"
            enum Option a
                = Some a
                | None
        "#;
    let lexer = Token::lexer(input);
    assert_eq!(lexer, option_enum_tokens());
    let mut parser = Parser::new(lexer);
    let ast = parser.parse();

    assert!(ast.is_ok());
    assert_eq!(ast.as_ref().unwrap().len(), 1);
    assert_eq!(
        ast.unwrap()[0],
        Expr::Enum {
            name: "Option".to_string(),
            type_args: vec!["a".to_string()],
            variants: vec![
                vec![
                    Expr::Identifier("Some".to_string()),
                    Expr::Identifier("a".to_string())
                ],
                vec![Expr::Identifier("None".to_string())]
            ]
        }
    );
}

#[test]
fn multiplication_binds_tighter_than_addition() {
    // "\nx + y * 2 - z\n"
    let tokens = vec![
        Ok(Token::NewLine),
        Ok(Token::Whitespace),
        id("x"),
        Ok(Token::Plus),
        id("y"),
        Ok(Token::Asterisk),
        Ok(Token::IntLiteral("2".to_string())),
        Ok(Token::Minus),
        id("z"),
        Ok(Token::NewLine),
    ];
    let ast = Parser::new(tokens).parse().unwrap();
    let x = Box::new(Expr::Identifier("x".to_string()));
    let y = Box::new(Expr::Identifier("y".to_string()));
    let z = Box::new(Expr::Identifier("z".to_string()));
    let product = Box::new(Expr::BinaryOp {
        left: y,
        op: Operator::Mul,
        right: Box::new(Expr::Atom(Atom::Int(2))),
    });
    let sum = Box::new(Expr::BinaryOp { left: x, op: Operator::Add, right: product });
    assert_eq!(ast, vec![Expr::BinaryOp { left: sum, op: Operator::Sub, right: z }]);
}

#[test]
fn prefix_operators_nest() {
    let tokens = vec![
        Ok(Token::Whitespace),
        Ok(Token::Bang),
        Ok(Token::Minus),
        Ok(Token::IntLiteral("-7".to_string())),
        Ok(Token::NewLine),
    ];
    let ast = Parser::new(tokens).parse().unwrap();
    let inner = Expr::PrefixOp { op: Operator::Sub, right: Box::new(Expr::Atom(Atom::Int(-7))) };
    assert_eq!(ast, vec![Expr::PrefixOp { op: Operator::Not, right: Box::new(inner) }]);
}

#[test]
fn a_missing_colon_is_reported() {
    let tokens = vec![id("f"), Ok(Token::Whitespace), Ok(Token::Equals), Ok(Token::NewLine)];
    let result = Parser::new(tokens).parse();
    assert_eq!(result, Err(vec!["Expected Colon, but found Equals".to_string()]));
}

#[test]
fn an_unexpected_token_is_reported_with_its_text() {
    let tokens = vec![
        Ok(Token::Whitespace),
        Ok(Token::Comma),
        Ok(Token::Whitespace),
    ];
    let result = Parser::new(tokens).parse();
    assert_eq!(
        result,
        Err(vec!["Unexpected token in primary expression Some(Comma)".to_string()])
    );
    let tokens = vec![Ok(Token::Whitespace), Ok(Token::Then), Ok(Token::Whitespace)];
    let result = Parser::new(tokens).parse();
    assert_eq!(
        result,
        Err(vec!["Unexpected token in primary expression Some(Then)".to_string()])
    );
}

#[test]
fn a_quoted_name_appears_in_messages() {
    let tokens = vec![
        Ok(Token::Whitespace),
        Ok(Token::Enum),
        Ok(Token::Whitespace),
        Ok(Token::IntLiteral("3".to_string())),
        Ok(Token::Whitespace),
    ];
    let result = Parser::new(tokens).parse();
    assert_eq!(result, Err(vec!["Expected identifier after 'enum'".to_string()]));
    let tokens = vec![
        Ok(Token::Whitespace),
        Ok(Token::If),
        id("c"),
        Ok(Token::Else),
        Ok(Token::Whitespace),
    ];
    let result = Parser::new(tokens).parse();
    assert_eq!(result, Err(vec!["Expected Then, but found Else".to_string()]));
    assert_eq!(Token::Identifier("a\"b".to_string()).debug_text(), "Identifier(\"a\\\"b\")");
}

#[test]
fn the_last_expression_needs_a_token_after_it() {
    // The loop stops once no unread token is left.
    let tokens = vec![Ok(Token::Whitespace), id("x")];
    assert_eq!(Parser::new(tokens).parse(), Ok(vec![]));
    let tokens = vec![Ok(Token::Whitespace), id("x"), Ok(Token::NewLine)];
    assert_eq!(
        Parser::new(tokens).parse(),
        Ok(vec![Expr::Identifier("x".to_string())])
    );
}

#[test]
fn lexer_longest_match_and_errors() {
    let tokens = Token::lexer("if iffy >= 12 -- note\n'c' 'ab ?\u{c}\u{c}%");
    assert_eq!(
        tokens,
        vec![
            Ok(Token::If),
            Ok(Token::Whitespace),
            id("iffy"),
            Ok(Token::Whitespace),
            Ok(Token::GreaterThanOrEqual),
            Ok(Token::Whitespace),
            Ok(Token::IntLiteral("12".to_string())),
            Ok(Token::Whitespace),
            Ok(Token::Comment("-- note\n".to_string())),
            Ok(Token::CharLiteral),
            Ok(Token::Whitespace),
            Err(()),
            id("b"),
            Ok(Token::Whitespace),
            Err(()),
            Ok(Token::Percent),
        ]
    );
    let tokens = Token::lexer("--x");
    assert_eq!(tokens, vec![Ok(Token::Minus), Ok(Token::Minus), id("x")]);
}

#[test]
fn the_parser_stops_for_good_where_it_cannot_read() {
    // An unreadable token next to be read between expressions.
    let tokens = vec![Ok(Token::Whitespace), id("x"), Err(())];
    assert_eq!(Parser::new(tokens).parse_or_stop(), None);
    // An unreadable token inside an expression ends it like the end of input.
    let tokens = vec![
        Ok(Token::Whitespace),
        id("x"),
        Ok(Token::Plus),
        Err(()),
        Ok(Token::NewLine),
        Ok(Token::NewLine),
    ];
    assert_eq!(
        Parser::new(tokens).parse_or_stop(),
        Some(Err(vec!["Unexpected token in primary expression None".to_string()]))
    );
    // An integer literal too large for an `i32`.
    let tokens = vec![
        Ok(Token::Whitespace),
        Ok(Token::IntLiteral("4294967296".to_string())),
        Ok(Token::Whitespace),
    ];
    assert_eq!(Parser::new(tokens).parse_or_stop(), None);
    let tokens = vec![Ok(Token::Whitespace), id("x"), Ok(Token::NewLine)];
    assert_eq!(
        Parser::new(tokens).parse_or_stop(),
        Some(Ok(vec![Expr::Identifier("x".to_string())]))
    );
}

#[test]
fn subtraction_groups_to_the_left() {
    let ast = Parser::new(Token::lexer("\n8 - 2 - 1 * 3\n")).parse().unwrap();
    let int = |i: i32| Box::new(Expr::Atom(Atom::Int(i)));
    let difference = Box::new(Expr::BinaryOp { left: int(8), op: Operator::Sub, right: int(2) });
    let product = Box::new(Expr::BinaryOp { left: int(1), op: Operator::Mul, right: int(3) });
    assert_eq!(ast, vec![Expr::BinaryOp { left: difference, op: Operator::Sub, right: product }]);
}
