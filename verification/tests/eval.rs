use snow::legacy::eval::{eval_expr, eval_panics, Halt};
use snow::legacy::funcs::{parse_funcs, Expr, Func};
use snow::legacy::lox::{BinaryOp, Value};
use snow::legacy::token::{BlockType, Token};

type Sp = (Expr, std::ops::Range<usize>);

fn at(e: Expr, p: usize) -> Sp {
    (e, p..p + 1)
}

fn num(i: i128, p: usize) -> Sp {
    at(Expr::Value(Value::Int(i)), p)
}

fn local(n: &str, p: usize) -> Sp {
    at(Expr::Local(n.to_string()), p)
}

fn bin(a: Sp, op: BinaryOp, b: Sp) -> Sp {
    let span = a.1.start..b.1.end;
    (Expr::Binary(Box::new(a), op, Box::new(b)), span)
}

fn call(f: Sp, args: Vec<Sp>, p: usize) -> Sp {
    let span = f.1.start..p + 1;
    (Expr::Call(Box::new(f), (args, p..p + 1)), span)
}

fn run(e: &Sp, funcs: &Vec<(String, Func)>) -> (Vec<(Value, bool)>, Result<Value, Halt>) {
    let mut stack = Vec::new();
    assert!(!eval_panics(e, funcs, &stack, 64));
    let r = eval_expr(e, funcs, &mut stack, 64);
    assert!(stack.is_empty());
    (r.printed, r.result)
}

fn failed(r: Result<Value, Halt>) -> (std::ops::Range<usize>, String) {
    match r {
        Err(Halt::Failed(span, msg)) => (span, msg),
        other => panic!("expected an error, got {:?}", other),
    }
}

#[test]
fn integer_arithmetic_truncates_division() {
    let e = bin(bin(num(1, 0), BinaryOp::Add, num(2, 2)), BinaryOp::Mul, num(3, 4));
    assert_eq!(run(&e, &Vec::new()).1.unwrap(), Value::Int(9));
    let d = bin(num(-7, 0), BinaryOp::Div, num(2, 2));
    assert_eq!(run(&d, &Vec::new()).1.unwrap(), Value::Int(-3));
    let s = bin(num(4, 0), BinaryOp::Sub, num(10, 2));
    assert_eq!(run(&s, &Vec::new()).1.unwrap(), Value::Int(-6));
}

#[test]
fn let_binds_and_the_stack_is_restored() {
    let e = at(
        Expr::Let("x".to_string(), Box::new(num(5, 1)), Box::new(bin(local("x", 3), BinaryOp::Add, local("x", 5)))),
        0,
    );
    let mut stack = vec![("x".to_string(), Value::Int(100))];
    let r = eval_expr(&e, &Vec::new(), &mut stack, 8);
    assert_eq!(r.result.unwrap(), Value::Int(10));
    assert_eq!(stack, vec![("x".to_string(), Value::Int(100))]);
}

#[test]
fn prints_are_recorded_in_order() {
    let e = at(
        Expr::Then(
            Box::new(at(Expr::Print(Box::new(num(3, 1))), 0)),
            Box::new(at(Expr::PrintLn(Box::new(at(Expr::Value(Value::String("a".to_string())), 3))), 2)),
        ),
        0,
    );
    let (printed, result) = run(&e, &Vec::new());
    assert_eq!(printed, vec![(Value::Int(3), false), (Value::String("a".to_string()), true)]);
    assert_eq!(result.unwrap(), Value::String("a".to_string()));
}

#[test]
fn unknown_names_are_errors() {
    let (span, msg) = failed(run(&local("y", 7), &Vec::new()).1);
    assert_eq!(span, 7..8);
    assert_eq!(msg, "No such variable 'y' in scope");
}

#[test]
fn functions_are_called_with_their_arguments() {
    let double = Func { args: vec!["x".to_string()], body: bin(local("x", 0), BinaryOp::Mul, num(2, 2)) };
    let funcs = vec![("double".to_string(), double)];
    let e = call(local("double", 0), vec![num(21, 2)], 3);
    assert_eq!(run(&e, &funcs).1.unwrap(), Value::Int(42));
    assert_eq!(run(&local("double", 0), &funcs).1.unwrap(), Value::Func("double".to_string()));
    let wrong = call(local("double", 0), vec![], 1);
    let (span, msg) = failed(run(&wrong, &funcs).1);
    assert_eq!(span, 1..2);
    assert_eq!(msg, "'double' called with wrong number of arguments (expected 1, found 0)");
}

#[test]
fn values_that_are_not_functions_are_not_callable() {
    let e = call(num(3, 0), vec![], 1);
    let (span, msg) = failed(run(&e, &Vec::new()).1);
    assert_eq!(span, 0..1);
    assert_eq!(msg, "'Int(3)' is not callable");
}

#[test]
fn conditions_must_be_booleans() {
    let yes = at(Expr::If(Box::new(at(Expr::Value(Value::Boolean(true)), 1)), Box::new(num(1, 2)), Box::new(num(2, 3))), 0);
    assert_eq!(run(&yes, &Vec::new()).1.unwrap(), Value::Int(1));
    let bad = at(Expr::If(Box::new(num(1, 1)), Box::new(num(1, 2)), Box::new(num(2, 3))), 0);
    let (span, msg) = failed(run(&bad, &Vec::new()).1);
    assert_eq!(span, 1..2);
    assert_eq!(msg, "Conditions must be booleans, found 'Int(1)'");
}

#[test]
fn equality_compares_values() {
    let list = |p: usize| at(Expr::List(vec![num(1, p), num(2, p + 1)]), p);
    assert_eq!(run(&bin(list(0), BinaryOp::Eq, list(3)), &Vec::new()).1.unwrap(), Value::Boolean(true));
    assert_eq!(run(&bin(num(1, 0), BinaryOp::NotEq, num(2, 2)), &Vec::new()).1.unwrap(), Value::Boolean(true));
    let float = at(Expr::Value(Value::Float("1.5".to_string())), 0);
    assert!(matches!(run(&bin(float, BinaryOp::Eq, num(1, 2)), &Vec::new()).1, Err(Halt::Float)));
}

#[test]
fn mixed_arithmetic_needs_floats() {
    let float = || at(Expr::Value(Value::Float("1.5".to_string())), 0);
    let (span, msg) = failed(run(&bin(float(), BinaryOp::Add, num(1, 2)), &Vec::new()).1);
    assert_eq!(span, 2..3);
    assert_eq!(msg, "'1' is not a Float");
    let t = at(Expr::Value(Value::Boolean(true)), 0);
    let (span, msg) = failed(run(&bin(t, BinaryOp::Add, num(1, 2)), &Vec::new()).1);
    assert_eq!(span, 0..1);
    assert_eq!(msg, "'true' is not a Float");
    let both = bin(float(), BinaryOp::Mul, at(Expr::Value(Value::Float("2".to_string())), 2));
    assert!(matches!(run(&both, &Vec::new()).1, Err(Halt::Float)));
}

#[test]
fn operands_print_again_when_read_as_floats() {
    let e = bin(at(Expr::Print(Box::new(at(Expr::Value(Value::Boolean(false)), 1))), 0), BinaryOp::Add, num(1, 3));
    let (printed, result) = run(&e, &Vec::new());
    assert_eq!(printed, vec![(Value::Boolean(false), false), (Value::Boolean(false), false)]);
    assert_eq!(failed(result).1, "'false' is not a Float");
}

#[test]
fn overflow_division_by_zero_and_depth() {
    let over = bin(num(i128::MAX, 0), BinaryOp::Add, num(1, 2));
    assert!(eval_panics(&over, &Vec::new(), &Vec::new(), 8));
    let zero = bin(num(1, 0), BinaryOp::Div, num(0, 2));
    assert!(eval_panics(&zero, &Vec::new(), &Vec::new(), 8));
    let forever = Func { args: vec![], body: call(local("f", 0), vec![], 1) };
    let funcs = vec![("f".to_string(), forever)];
    let e = call(local("f", 0), vec![], 1);
    assert!(!eval_panics(&e, &funcs, &Vec::new(), 3));
    assert!(matches!(eval_expr(&e, &funcs, &mut Vec::new(), 3).result, Err(Halt::Depth)));
}

#[test]
fn parsed_main_evaluates() {
    let toks: Vec<(Token, std::ops::Range<usize>)> = vec![
        Token::OpenBlock(BlockType::Fn),
        Token::Id("main".to_string()),
        Token::Op("=".to_string()),
        Token::OpenBlock(BlockType::FnBlock),
        Token::Int("6".to_string()),
        Token::Op("*".to_string()),
        Token::Int("7".to_string()),
        Token::CloseBlock(BlockType::FnBlock),
        Token::CloseBlock(BlockType::Fn),
    ]
    .into_iter()
    .enumerate()
    .map(|(i, t)| (t, i..i + 1))
    .collect();
    let funcs = parse_funcs(&toks).unwrap();
    let main = &funcs[0].1;
    assert_eq!(run(&main.body, &funcs).1.unwrap(), Value::Int(42));
}
