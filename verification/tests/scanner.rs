use snow::combinators::{pair, zero_or_more, Parser};
use snow::parser::{
    builtin, builtins, comma, dedent_token, do_token, else_token, equal_token, fn_token, if_token,
    indent_token, let_token, parse_name, then_token, BuiltIn,
};
use snow::scanner::{scanner, source_ends_in_string, KeyWord, Token};

const FILENAME: &str = "scan_test.snow";

fn scan_nodes(src: &str) -> Vec<Token> {
    let tokens = match scanner(FILENAME, src) {
        Ok(t) => t,
        Err(e) => {
            println!("{}", e.to_text());
            Vec::new()
        }
    };
    tokens.iter().map(|s| s.node.clone()).collect::<Vec<Token>>()
}

#[test]
fn scanner_fn_token() {
    let src = "foo x = x
main = foo 1
";
    let left = scan_nodes(src);
    let right = vec![
        Token::Fn("foo".into()),
        Token::Id("x".into()),
        Token::Op("="),
        Token::Id("x".into()),
        Token::Fn("main".into()),
        Token::Op("="),
        Token::Id("foo".into()),
        Token::Int("1".into()),
        Token::DeDent,
    ];
    assert_eq!(left, right);
}

#[test]
fn scanner_let_block_one_line() {
    let src = "
main = let a = 10, b = 12 in a + b
";
    let left = scan_nodes(src);
    let right = vec![
        Token::Fn("main".into()),
        Token::Op("="),
        Token::KeyWord(KeyWord::Let),
        Token::Id("a".into()),
        Token::Op("="),
        Token::Int("10".into()),
        Token::Ctrl(','),
        Token::Id("b".into()),
        Token::Op("="),
        Token::Int("12".into()),
        Token::KeyWord(KeyWord::In),
        Token::Id("a".into()),
        Token::Op("+"),
        Token::Id("b".into()),
        Token::DeDent,
    ];
    assert_eq!(left, right);
}

#[test]
fn scanner_let_block_multi_lines() {
    let src = "main =
    let a = 10
    ,   b = 12
    in  a + b
    ";
    let left = scan_nodes(src);
    let right = vec![
        Token::Fn("main".into()),
        Token::Op("="),
        Token::InDent,
        Token::KeyWord(KeyWord::Let),
        Token::Id("a".into()),
        Token::Op("="),
        Token::Int("10".into()),
        Token::Ctrl(','),
        Token::Id("b".into()),
        Token::Op("="),
        Token::Int("12".into()),
        Token::KeyWord(KeyWord::In),
        Token::Id("a".into()),
        Token::Op("+"),
        Token::Id("b".into()),
        Token::DeDent,
    ];
    assert_eq!(left, right);
}

#[test]
fn scanner_let_block_single_line() {
    let src = "
add x y = let a = x, b = y in + a b
main x y = let a = x, b = y in + a b
";
    let left = scan_nodes(src);
    let right = vec![
        Token::Fn("add".into()),
        Token::Id("x".into()),
        Token::Id("y".into()),
        Token::Op("="),
        Token::KeyWord(KeyWord::Let),
        Token::Id("a".into()),
        Token::Op("="),
        Token::Id("x".into()),
        Token::Ctrl(','),
        Token::Id("b".into()),
        Token::Op("="),
        Token::Id("y".into()),
        Token::KeyWord(KeyWord::In),
        Token::Op("+"),
        Token::Id("a".into()),
        Token::Id("b".into()),
        Token::Fn("main".into()),
        Token::Id("x".into()),
        Token::Id("y".into()),
        Token::Op("="),
        Token::KeyWord(KeyWord::Let),
        Token::Id("a".into()),
        Token::Op("="),
        Token::Id("x".into()),
        Token::Ctrl(','),
        Token::Id("b".into()),
        Token::Op("="),
        Token::Id("y".into()),
        Token::KeyWord(KeyWord::In),
        Token::Op("+"),
        Token::Id("a".into()),
        Token::Id("b".into()),
        Token::DeDent,
    ];
    assert_eq!(left, right);
}

#[test]
fn scanner_if_else_if_else() {
    let src = r#"
main = if True then println "If" else if False then println "Else If" else println "Else""#;
    let left = scan_nodes(src);
    let right = vec![
        Token::Fn("main".into()),
        Token::Op("="),
        Token::KeyWord(KeyWord::If),
        Token::KeyWord(KeyWord::True),
        Token::KeyWord(KeyWord::Then),
        Token::KeyWord(KeyWord::PrintLn),
        Token::String("If".into()),
        Token::KeyWord(KeyWord::Else),
        Token::KeyWord(KeyWord::If),
        Token::KeyWord(KeyWord::False),
        Token::KeyWord(KeyWord::Then),
        Token::KeyWord(KeyWord::PrintLn),
        Token::String("Else If".into()),
        Token::KeyWord(KeyWord::Else),
        Token::KeyWord(KeyWord::PrintLn),
        Token::String("Else".into()),
        Token::DeDent,
    ];
    assert_eq!(left, right);
}

#[test]
fn scanner_do_if_else_if_else() {
    let src = r#"
main = do
    if True then
        println "If"
    else if False then
        println "Else If"
    else
        println "Else"
"#;
    let left = scan_nodes(src);
    let right = vec![
        Token::Fn("main".into()),
        Token::Op("="),
        Token::KeyWord(KeyWord::Do),
        Token::InDent,
        Token::KeyWord(KeyWord::If),
        Token::KeyWord(KeyWord::True),
        Token::KeyWord(KeyWord::Then),
        Token::InDent,
        Token::KeyWord(KeyWord::PrintLn),
        Token::String("If".into()),
        Token::DeDent,
        Token::KeyWord(KeyWord::Else),
        Token::KeyWord(KeyWord::If),
        Token::KeyWord(KeyWord::False),
        Token::KeyWord(KeyWord::Then),
        Token::InDent,
        Token::KeyWord(KeyWord::PrintLn),
        Token::String("Else If".into()),
        Token::DeDent,
        Token::KeyWord(KeyWord::Else),
        Token::InDent,
        Token::KeyWord(KeyWord::PrintLn),
        Token::String("Else".into()),
        Token::DeDent,
        Token::DeDent,
    ];
    assert_eq!(left, right);
}

#[test]
fn scanner_main_one_line_if() {
    let src = "
main = if True then 100

";
    let left = scan_nodes(src);
    let right = vec![
        Token::Fn("main".into()),
        Token::Op("="),
        Token::KeyWord(KeyWord::If),
        Token::KeyWord(KeyWord::True),
        Token::KeyWord(KeyWord::Then),
        Token::Int("100".into()),
        Token::DeDent,
    ];
    assert_eq!(left, right);
}

#[test]
fn scanner_curry_app() {
    let src = "main = (+ 1) 2";
    let left = scan_nodes(src);
    let right = vec![
        Token::Fn("main".into()),
        Token::Op("="),
        Token::Ctrl('('),
        Token::Op("+"),
        Token::Int("1".into()),
        Token::Ctrl(')'),
        Token::Int("2".into()),
        Token::DeDent,
    ];
    assert_eq!(left, right);
}

#[test]
fn two_character_operators_and_comments() {
    let src = "main = a == b -- a comment\n{- a block\n comment -}";
    let left = scan_nodes(src);
    let right = vec![
        Token::Fn("main".into()),
        Token::Op("="),
        Token::Id("a".into()),
        Token::Op("=="),
        Token::Id("b".into()),
        Token::DeDent,
    ];
    assert_eq!(left, right);
}

#[test]
fn numbers_strings_and_escapes() {
    let src = "main = 3.25 \"a\\nb\"";
    let left = scan_nodes(src);
    let right = vec![
        Token::Fn("main".into()),
        Token::Op("="),
        Token::Float("3.25".into()),
        Token::String("a\nb".into()),
        Token::DeDent,
    ];
    assert_eq!(left, right);
}

#[test]
fn errors_are_reported_in_order() {
    let error = scanner(FILENAME, "main = (1 ; ]\nlet = 1 (").unwrap_err();
    assert_eq!(error.msg, "unclosed delimiter missing parenthesis (");
    let reserved = error.last.as_ref().unwrap();
    assert_eq!(reserved.msg, "'let' is a reserved word found in function name");
    let mismatch = reserved.last.as_ref().unwrap();
    assert_eq!(mismatch.msg, "unclosed delimiter missing parenthesis (");
    let unknown = mismatch.last.as_ref().unwrap();
    assert_eq!(unknown.msg, "unknown char ';'");
    assert!(unknown.last.is_none());
    assert_eq!(unknown.span.to_text(), "scan_test.snow:1:11..1:11");
}

#[test]
fn token_names_and_texts() {
    assert_eq!(Token::Ctrl('[').name(), "brackets");
    assert_eq!(Token::KeyWord(KeyWord::PrintLn).unwrap(), "println");
    assert_eq!(Token::Op("<|").name(), "Operator");
    assert_eq!(Token::Delimiter.unwrap(), ";");
    assert_eq!(KeyWord::lookup("dbg_int"), Some(KeyWord::DbgInt));
    assert_eq!(Token::Int("12".into()).to_text(), "Int(12)");
    assert_eq!(Token::KeyWord(KeyWord::Then).to_text(), "KeyWord(then)");
    assert_eq!(Token::Ctrl(',').to_text(), "Ctrl(,)");
    assert_eq!(Token::DeDent.to_text(), "DeDent");
    let tokens = scanner(FILENAME, "x = 1").unwrap();
    assert_eq!(tokens[0].to_text(), "scan_test.snow:1:2..1:2:Fn(x)");
}

#[test]
fn builtins_and_single_tokens() {
    let tokens = scanner(FILENAME, "main = do\n    println 1\n").unwrap();
    let after_name = &tokens[1..];
    let (rest, eq) = equal_token(after_name).unwrap();
    assert_eq!(eq.node, Token::Op("="));
    let (rest, d) = do_token(rest).unwrap();
    assert_eq!(d.node, Token::KeyWord(KeyWord::Do));
    let (rest, i) = indent_token(rest).unwrap();
    assert_eq!(i.node, Token::InDent);
    let (rest, b) = builtin(rest).unwrap();
    assert_eq!(b.node, BuiltIn::PrintLn);
    assert_eq!(b.node.symbol(), "println");
    assert_eq!(BuiltIn::Mins.name(), "Mins");
    assert_eq!(BuiltIn::Mins.symbol(), "-");
    assert!(builtin(rest).is_err());
    assert_eq!(rest.len(), 2);
    assert!(dedent_token(rest).is_err());
    assert!(dedent_token(&rest[1..]).is_ok());
}

#[test]
fn names_and_keyword_tokens() {
    let tokens = scanner(FILENAME, "add x y = + x y\n").unwrap();
    let (rest, name) = fn_token(&tokens).unwrap();
    assert_eq!(name.node, "add");
    assert!(parse_name(&tokens).is_err());
    let (rest, params) = zero_or_more(parse_name).parse(rest).unwrap();
    let names: Vec<String> = params.iter().map(|p| p.node.clone()).collect();
    assert_eq!(names, vec!["x".to_string(), "y".to_string()]);
    let (rest, b) = builtins(&rest[1..]).unwrap();
    assert_eq!(b.node, BuiltIn::Plus);
    let (_, (x, y)) = pair(parse_name, parse_name).parse(rest).unwrap();
    assert_eq!((x.node.as_str(), y.node.as_str()), ("x", "y"));

    let tokens = scanner(FILENAME, "main = if a then b else let c, d\n").unwrap();
    let rest = &tokens[2..];
    let (rest, _) = if_token(rest).unwrap();
    let (rest, _) = parse_name(rest).unwrap();
    assert!(else_token(rest).is_err());
    let (rest, _) = then_token(rest).unwrap();
    let (rest, _) = parse_name(rest).unwrap();
    let (rest, _) = else_token(rest).unwrap();
    let (rest, _) = let_token(rest).unwrap();
    let (rest, _) = parse_name(rest).unwrap();
    let (rest, c) = comma(rest).unwrap();
    assert_eq!(c.node, Token::Ctrl(','));
    assert!(comma(rest).is_err());
}

#[test]
fn unclosed_string_is_detected() {
    assert!(source_ends_in_string(FILENAME, "main = print \"abc\n"));
    assert!(!source_ends_in_string(FILENAME, "main = print \"abc\"\n"));
    assert!(!source_ends_in_string(FILENAME, "-- \" in a comment\nmain = 1\n"));
}
