use snow::error::ErrorKind;
use snow::interpreter::{atom_text_exec, evaluation, evaluation_panics, Atom, EvalError, Expr, Function, Halt};
use snow::parser::BuiltIn;
use snow::position::{Span, Spanned};

fn sp(e: Expr) -> Spanned<Expr> {
    Spanned::new(e, Span::default())
}

fn num(i: i32) -> Expr {
    Expr::Constant(Atom::Int(i))
}

fn app(b: BuiltIn, args: Vec<Expr>) -> Expr {
    Expr::Application(
        Box::new(Expr::Constant(Atom::BuiltIn(b))),
        args.into_iter().map(sp).collect(),
    )
}

fn value(e: &Expr) -> Atom {
    match evaluation(e, &vec![], &vec![]).result {
        Ok(a) => a,
        Err(h) => panic!("no value: {:?}", h),
    }
}

#[test]
fn integer_builtins() {
    assert_eq!(value(&app(BuiltIn::Plus, vec![num(321), num(123), num(444)])), Atom::Int(888));
    assert_eq!(value(&app(BuiltIn::Mins, vec![num(321), num(21)])), Atom::Int(300));
    assert_eq!(value(&app(BuiltIn::Mult, vec![num(2), num(3), num(4)])), Atom::Int(24));
    assert_eq!(value(&app(BuiltIn::Div, vec![num(-7), num(2)])), Atom::Int(-3));
    assert_eq!(value(&app(BuiltIn::Eq, vec![num(1), num(1), num(1)])), Atom::Boolean(true));
    assert_eq!(value(&app(BuiltIn::Eq, vec![num(1), num(2)])), Atom::Boolean(false));
    assert_eq!(value(&app(BuiltIn::NEq, vec![num(1), num(2)])), Atom::Boolean(true));
    assert_eq!(
        value(&app(BuiltIn::Not, vec![Expr::Constant(Atom::Boolean(true))])),
        Atom::Boolean(false)
    );
    let nested = app(BuiltIn::Plus, vec![app(BuiltIn::Mult, vec![num(2), num(5)]), num(1)]);
    assert_eq!(value(&nested), Atom::Int(11));
}

#[test]
fn errors_and_stops() {
    match evaluation(&app(BuiltIn::Plus, vec![num(1), Expr::Constant(Atom::String("x".into()))]), &vec![], &vec![]).result {
        Err(Halt::Failed(EvalError::Located(e))) => {
            assert_eq!(e.kind(), ErrorKind::TypeError);
            assert!(e.to_text().ends_with("Const(String(x)) is not 'Int'"));
        }
        other => panic!("{:?}", other),
    }
    match evaluation(&app(BuiltIn::Not, vec![num(1), num(2)]), &vec![], &vec![]).result {
        Err(Halt::Failed(EvalError::Plain(m))) => assert_eq!(m, "Nothing on Rhs."),
        other => panic!("{:?}", other),
    }
    let floats = app(
        BuiltIn::Plus,
        vec![Expr::Constant(Atom::Float("3.1".into())), Expr::Constant(Atom::Float("1.3".into()))],
    );
    assert!(matches!(evaluation(&floats, &vec![], &vec![]).result, Err(Halt::Float)));
    let local = Expr::Local(Spanned::new("f".to_string(), Span::default()));
    let known = vec![Function::new("f", &[], num(1), Span::default())];
    assert!(matches!(evaluation(&local, &known, &vec![]).result, Err(Halt::Undefined)));
    assert!(evaluation_panics(&app(BuiltIn::Div, vec![num(1), num(0)]), &vec![], &vec![]));
    assert!(evaluation_panics(&app(BuiltIn::Plus, vec![num(i32::MAX), num(1)]), &vec![], &vec![]));
    assert!(!evaluation_panics(&app(BuiltIn::Plus, vec![num(i32::MAX), num(0)]), &vec![], &vec![]));
}

#[test]
fn do_blocks_conditionals_and_printing() {
    let block = Expr::Do(vec![sp(app(BuiltIn::Print, vec![num(1), num(2)])), sp(num(7))]);
    let r = evaluation(&block, &vec![], &vec![]);
    assert_eq!(r.result.unwrap(), Atom::Int(7));
    assert_eq!(r.printed.len(), 2);
    assert_eq!(r.printed[1].atom, Atom::Int(2));
    assert!(!r.printed[0].newline);
    match evaluation(&Expr::Do(vec![]), &vec![], &vec![]).result {
        Err(Halt::Failed(EvalError::Located(e))) => assert_eq!(e.kind(), ErrorKind::EmptyReturn),
        other => panic!("{:?}", other),
    }
    let cond = |b: bool| Box::new(sp(Expr::Constant(Atom::Boolean(b))));
    let if_false = Expr::If(cond(false), Box::new(sp(num(1))));
    match evaluation(&if_false, &vec![], &vec![]).result {
        Err(Halt::Failed(EvalError::Located(e))) => {
            assert!(e.to_text().ends_with("conditional may need a else statement"))
        }
        other => panic!("{:?}", other),
    }
    let if_else = Expr::IfElse(cond(false), Box::new(sp(num(1))), Box::new(sp(num(2))));
    assert_eq!(value(&if_else), Atom::Int(2));
    assert_eq!(atom_text_exec(&Atom::Int(-5)), "Int(-5)");
    assert_eq!(atom_text_exec(&Atom::BuiltIn(BuiltIn::PrintLn)), "BuiltIn(println)");
}

#[test]
fn test_eq_int() {
    assert_eq!(value(&app(BuiltIn::Eq, vec![num(322), num(322)])), Atom::Boolean(true));
    assert_eq!(value(&app(BuiltIn::Eq, vec![num(3), num(322)])), Atom::Boolean(false));
}

#[test]
fn test_not_eq_int() {
    assert_eq!(value(&app(BuiltIn::NEq, vec![num(322), num(322)])), Atom::Boolean(false));
    assert_eq!(value(&app(BuiltIn::NEq, vec![num(3), num(322)])), Atom::Boolean(true));
    // Each operand is compared with the one before it.
    assert_eq!(value(&app(BuiltIn::NEq, vec![num(1), num(2), num(1)])), Atom::Boolean(true));
    assert_eq!(value(&app(BuiltIn::NEq, vec![num(1), num(2), num(2)])), Atom::Boolean(false));
}

#[test]
fn float_builtins_without_arithmetic() {
    assert_eq!(value(&app(BuiltIn::Plus, vec![])), Atom::Float("0".into()));
    assert_eq!(value(&app(BuiltIn::Mult, vec![])), Atom::Float("1".into()));
    assert_eq!(value(&app(BuiltIn::Mins, vec![])), Atom::Float("0".into()));
    let f = || Expr::Constant(Atom::Float("2.5".into()));
    assert_eq!(value(&app(BuiltIn::Eq, vec![f()])), Atom::Boolean(true));
    assert_eq!(value(&app(BuiltIn::Div, vec![f()])), Atom::Float("2.5".into()));
}

#[test]
fn names_are_looked_up() {
    let local = Expr::Local(Spanned::new("f".to_string(), Span::default()));
    match evaluation(&local, &vec![], &vec![]).result {
        Err(Halt::Failed(EvalError::Located(e))) => {
            assert_eq!(e.kind(), ErrorKind::Undefined);
            assert!(e.to_text().ends_with("'f' not found"));
        }
        other => panic!("{:?}", other),
    }
    let f = Function::new("f", &[], Expr::Constant(Atom::Int(1)), Span::default());
    assert!(matches!(evaluation(&local, &vec![], &vec![f]).result, Err(Halt::Undefined)));
}
