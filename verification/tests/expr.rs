use snow::expr::{app, conditional, constant, let_expr, parser, parser_stops, stops, Rule};
use snow::interpreter::{Atom, Expr};
use snow::parser::BuiltIn;
use snow::position::Spanned;
use snow::scanner::{scanner, Token};

fn scan(src: &str) -> Vec<Spanned<Token>> {
    match scanner("expr_test.snow", src) {
        Ok(t) => t,
        Err(e) => panic!("{}", e.to_text()),
    }
}

fn local_named(e: &Expr, name: &str) -> bool {
    matches!(e, Expr::Local(n) if n.node == name)
}

#[test]
fn functions_are_read_in_order() {
    let toks = scan("foo x = x\nmain = foo 1\n");
    assert!(!parser_stops(&toks));
    let (rest, fs) = match parser(&toks) {
        Ok(r) => r,
        Err(_) => panic!("no functions read"),
    };
    assert!(rest.is_empty());
    assert_eq!(fs.len(), 2);
    assert_eq!(fs[0].name, "foo");
    assert_eq!(fs[0].prams.len(), 1);
    assert_eq!(fs[0].prams[0].node, "x");
    match &fs[0].body {
        Expr::Application(h, args) => {
            assert!(local_named(h, "x"));
            assert!(args.is_empty());
        }
        other => panic!("unexpected {:?}", other),
    }
    assert_eq!(fs[1].name, "main");
    match &fs[1].body {
        Expr::Application(h, args) => {
            assert!(local_named(h, "foo"));
            assert_eq!(args.len(), 1);
            assert_eq!(args[0].node, Expr::Constant(Atom::Int(1)));
        }
        other => panic!("unexpected {:?}", other),
    }
}

#[test]
fn a_later_definition_takes_the_place_of_an_earlier() {
    let toks = scan("f = 1\ng = 3\nf = 2\n");
    let (_, fs) = match parser(&toks) {
        Ok(r) => r,
        Err(_) => panic!("no functions read"),
    };
    assert_eq!(fs.len(), 2);
    assert_eq!(fs[0].name, "f");
    assert_eq!(fs[0].body, Expr::Constant(Atom::Int(2)));
    assert_eq!(fs[1].name, "g");
}

#[test]
fn nothing_is_read_without_a_function() {
    let toks = scan("");
    assert!(parser(&toks).is_err());
}

#[test]
fn let_reads_definitions_and_a_body() {
    let toks = scan("main = let a = 10, b = 12 in + a b\n");
    let (rest, e) = match let_expr(&toks[2..]) {
        Ok(r) => r,
        Err(_) => panic!("no let read"),
    };
    assert_eq!(rest.len(), 1);
    match &e.node {
        Expr::Let(defs, body) => {
            assert_eq!(defs.len(), 2);
            match &defs[1].node {
                Expr::Function(n, ps, b) => {
                    assert_eq!(n.node, "b");
                    assert!(ps.is_empty());
                    assert_eq!(b.node, Expr::Constant(Atom::Int(12)));
                }
                other => panic!("unexpected {:?}", other),
            }
            match &body.node {
                Expr::Application(h, args) => {
                    assert_eq!(**h, Expr::Constant(Atom::BuiltIn(BuiltIn::Plus)));
                    assert_eq!(args.len(), 2);
                    assert!(local_named(&args[1].node, "b"));
                }
                other => panic!("unexpected {:?}", other),
            }
        }
        other => panic!("unexpected {:?}", other),
    }
}

#[test]
fn conditionals_nest_their_branches() {
    let toks = scan("main = if True then 1 else 2\n");
    let (_, e) = match conditional(&toks[2..]) {
        Ok(r) => r,
        Err(_) => panic!("no conditional read"),
    };
    match &e.node {
        Expr::IfElse(c, a, b) => {
            assert_eq!(c.node, Expr::Constant(Atom::Boolean(true)));
            assert_eq!(a.node, Expr::Constant(Atom::Int(1)));
            assert_eq!(b.node, Expr::Constant(Atom::Int(2)));
        }
        other => panic!("unexpected {:?}", other),
    }
    let toks = scan("main = if True then 1\n");
    let (_, e) = match conditional(&toks[2..]) {
        Ok(r) => r,
        Err(_) => panic!("no conditional read"),
    };
    assert!(matches!(&e.node, Expr::If(_, _)));
}

#[test]
fn parenthesised_arguments_are_applications() {
    let toks = scan("main = + (foo 1) 2\n");
    let (rest, e) = match app(&toks[2..]) {
        Ok(r) => r,
        Err(_) => panic!("no application read"),
    };
    assert_eq!(rest.len(), 1);
    match &e.node {
        Expr::Application(h, args) => {
            assert_eq!(**h, Expr::Constant(Atom::BuiltIn(BuiltIn::Plus)));
            assert_eq!(args.len(), 2);
            match &args[0].node {
                Expr::Application(f, xs) => {
                    assert!(local_named(f, "foo"));
                    assert_eq!(xs.len(), 1);
                }
                other => panic!("unexpected {:?}", other),
            }
            assert_eq!(args[1].node, Expr::Constant(Atom::Int(2)));
        }
        other => panic!("unexpected {:?}", other),
    }
}

#[test]
fn constants_and_integers_too_large() {
    let toks = scan("main = \"hi\"\n");
    let (_, e) = match constant(&toks[2..]) {
        Ok(r) => r,
        Err(_) => panic!("no constant read"),
    };
    assert_eq!(e.node, Expr::Constant(Atom::String("hi".to_string())));
    let toks = scan("main = 99999999999\n");
    assert!(stops(Rule::Constant, &toks[2..]));
    assert!(parser_stops(&toks));
    let toks = scan("main = x\n");
    assert!(constant(&toks[2..]).is_err());
}
