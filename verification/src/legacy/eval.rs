//! The evaluator of the first generation's functions.
//!
//! Evaluation reduces an expression to a value, given the functions defined
//! and a stack of local names, and records in order what `print` and
//! `println` write. A floating-point number keeps its text; evaluation stops
//! where a floating-point operation would be computed, or where two values
//! holding such numbers would be compared. Calls go at most `depth` deep.
use vstd::prelude::*;
use core::ops::Range;
use vstd::string::StringExecFns;
use crate::text::{decimal, push_char, str_debug_text, debug_quoted, str_eq, string_of};
use super::funcs::{Expr, ExprV, Func, FuncV, expr_view, exprs_view, sview};
use super::lox::{BinaryOp, Value};
use super::token::{Span, Spanned};

verus! {

/// A value with its texts as character sequences.
pub enum ValueV {
    Boolean(bool),
    Int(i128),
    Float(Seq<char>),
    Str(Seq<char>),
    List(Seq<ValueV>),
    Func(Seq<char>),
}

/// The view of a value.
pub open spec fn value_view(v: Value) -> ValueV
    decreases v,
{
    match v {
        Value::Boolean(b) => ValueV::Boolean(b),
        Value::Int(i) => ValueV::Int(i),
        Value::Float(s) => ValueV::Float(s@),
        Value::String(s) => ValueV::Str(s@),
        Value::List(items) => ValueV::List(values_view(items@)),
        Value::Func(n) => ValueV::Func(n@),
    }
}

/// The views of values.
pub open spec fn values_view(s: Seq<Value>) -> Seq<ValueV>
    decreases s,
{
    if s.len() == 0 {
        Seq::empty()
    } else {
        values_view(s.subrange(0, s.len() - 1)).push(value_view(s[s.len() - 1]))
    }
}

/// Whether a value holds a floating-point number anywhere.
pub open spec fn has_float(v: ValueV) -> bool
    decreases v,
{
    match v {
        ValueV::Float(_) => true,
        ValueV::List(items) => any_float(items, items.len() as int),
        _ => false,
    }
}

/// Whether one of the first `k` values holds a floating-point number.
pub open spec fn any_float(items: Seq<ValueV>, k: int) -> bool
    decreases items, k,
{
    if k <= 0 || k > items.len() {
        false
    } else {
        any_float(items, k - 1) || has_float(items[k - 1])
    }
}

/// An integer in decimal, with a minus sign when negative.
pub open spec fn int_text(i: int) -> Seq<char> {
    if i < 0 {
        seq!['-'] + decimal((-i) as nat)
    } else {
        decimal(i as nat)
    }
}

/// How a value is displayed (a floating-point number by its text).
pub open spec fn value_text(v: ValueV) -> Seq<char>
    decreases v,
{
    match v {
        ValueV::Boolean(b) => if b {
            "true"@
        } else {
            "false"@
        },
        ValueV::Int(i) => int_text(i as int),
        ValueV::Float(t) => t,
        ValueV::Str(s) => s,
        ValueV::List(items) => "["@ + joined(items, items.len() as int, false) + "]"@,
        ValueV::Func(n) => "<function: "@ + n + ">"@,
    }
}

/// How a value is written for debugging (a floating-point number by its
/// text).
pub open spec fn value_debug(v: ValueV) -> Seq<char>
    decreases v,
{
    match v {
        ValueV::Boolean(b) => "Boolean("@ + (if b {
            "true"@
        } else {
            "false"@
        }) + ")"@,
        ValueV::Int(i) => "Int("@ + int_text(i as int) + ")"@,
        ValueV::Float(t) => "Float("@ + t + ")"@,
        ValueV::Str(s) => "String("@ + str_debug_text(s) + ")"@,
        ValueV::List(items) => "List(["@ + joined(items, items.len() as int, true) + "])"@,
        ValueV::Func(n) => "Func("@ + str_debug_text(n) + ")"@,
    }
}

/// The first `k` values displayed (or written for debugging), separated by
/// `, `.
pub open spec fn joined(items: Seq<ValueV>, k: int, debug: bool) -> Seq<char>
    decreases items, k,
{
    if k <= 0 || k > items.len() {
        Seq::empty()
    } else {
        let t = if debug {
            value_debug(items[k - 1])
        } else {
            value_text(items[k - 1])
        };
        if k == 1 {
            t
        } else {
            joined(items, k - 1, debug) + ", "@ + t
        }
    }
}

/// Why evaluation stops without a value.
pub enum HaltV {
    /// An error at a span, with its message.
    Failed(Span, Seq<char>),
    /// A floating-point operation or comparison would be computed here.
    Float,
    /// Calls went deeper than allowed.
    Depth,
    /// Evaluation cannot go on: an integer overflow, a division by zero, a
    /// call of a function that is not defined, or an error expression.
    Panic,
}

/// What evaluation writes and gives.
pub type Outcome = (Seq<(ValueV, bool)>, Result<ValueV, HaltV>);

/// The value of the topmost binding of `name`, if any.
pub open spec fn lookup(stack: Seq<(Seq<char>, ValueV)>, name: Seq<char>) -> Option<ValueV>
    decreases stack.len(),
{
    if stack.len() == 0 {
        None
    } else if stack.last().0 == name {
        Some(stack.last().1)
    } else {
        lookup(stack.drop_last(), name)
    }
}

/// The first function called `name`, if any.
pub open spec fn find_func(funcs: Seq<FuncV>, name: Seq<char>) -> Option<int>
    decreases funcs.len(),
{
    if funcs.len() == 0 {
        None
    } else {
        match find_func(funcs.drop_last(), name) {
            Some(i) => Some(i),
            None => if funcs.last().0@ == name {
                Some(funcs.len() - 1)
            } else {
                None
            },
        }
    }
}

/// An integer operation; `None` where it overflows or divides by zero.
pub open spec fn int_op(op: BinaryOp, a: int, b: int) -> Option<int> {
    let v = match op {
        BinaryOp::Add => a + b,
        BinaryOp::Sub => a - b,
        BinaryOp::Mul => a * b,
        _ => if b == 0 {
            0
        } else if a >= 0 {
            if b > 0 {
                a / b
            } else {
                -(a / -b)
            }
        } else {
            if b > 0 {
                -((-a) / b)
            } else {
                (-a) / (-b)
            }
        },
    };
    if (op == BinaryOp::Div && b == 0) || v < i128::MIN || v > i128::MAX {
        None
    } else {
        Some(v)
    }
}

/// The error of a value that is not a floating-point number.
pub open spec fn not_float(span: Span, v: ValueV) -> HaltV {
    HaltV::Failed(span, "'"@ + value_text(v) + "' is not a Float"@)
}

/// Evaluating an expression with the functions `funcs`, the stack `stack`,
/// and calls allowed `depth` deep.
pub open spec fn ev(funcs: Seq<FuncV>, stack: Seq<(Seq<char>, ValueV)>, e: (ExprV, Span), depth: nat) -> Outcome
    decreases depth, e,
{
    let none = Seq::<(ValueV, bool)>::empty();
    let span = e.1;
    match e.0 {
        ExprV::Error => (none, Err(HaltV::Panic)),
        ExprV::Value(v) => (none, Ok(value_view(v))),
        ExprV::List(items) => {
            let (p, r) = ev_list(funcs, stack, items, items.len() as int, depth);
            (p, match r {
                Ok(vs) => Ok(ValueV::List(vs)),
                Err(h) => Err(h),
            })
        },
        ExprV::Local(name) => match lookup(stack, name@) {
            Some(v) => (none, Ok(v)),
            None => if find_func(funcs, name@) is Some {
                (none, Ok(ValueV::Func(name@)))
            } else {
                (none, Err(HaltV::Failed(span, "No such variable '"@ + name@ + "' in scope"@)))
            },
        },
        ExprV::Let(name, v, body) => {
            let (p1, r1) = ev(funcs, stack, *v, depth);
            match r1 {
                Err(h) => (p1, Err(h)),
                Ok(val) => {
                    let (p2, r2) = ev(funcs, stack.push((name@, val)), *body, depth);
                    (p1 + p2, r2)
                },
            }
        },
        ExprV::Then(a, b) => {
            let (p1, r1) = ev(funcs, stack, *a, depth);
            match r1 {
                Err(h) => (p1, Err(h)),
                Ok(_) => {
                    let (p2, r2) = ev(funcs, stack, *b, depth);
                    (p1 + p2, r2)
                },
            }
        },
        ExprV::Binary(a, op, b) => {
            let (pa, ra) = ev(funcs, stack, *a, depth);
            match ra {
                Err(h) => (pa, Err(h)),
                Ok(va) => {
                    let (pb, rb) = ev(funcs, stack, *b, depth);
                    match rb {
                        Err(h) => (pa + pb, Err(h)),
                        Ok(vb) => {
                            let p = pa + pb;
                            if op == BinaryOp::Eq || op == BinaryOp::NotEq {
                                if has_float(va) || has_float(vb) {
                                    (p, Err(HaltV::Float))
                                } else {
                                    (p, Ok(ValueV::Boolean((va == vb) == (op == BinaryOp::Eq))))
                                }
                            } else {
                                match (va, vb) {
                                    (ValueV::Int(x), ValueV::Int(y)) => match int_op(op, x as int, y as int) {
                                        Some(v) => (p, Ok(ValueV::Int(v as i128))),
                                        None => (p, Err(HaltV::Panic)),
                                    },
                                    _ => {
                                        // The operands are evaluated again, as floating-point numbers.
                                        if !(va is Float) {
                                            (p + pa, Err(not_float(a.1, va)))
                                        } else if !(vb is Float) {
                                            (p + pa + pb, Err(not_float(b.1, vb)))
                                        } else {
                                            (p + pa + pb, Err(HaltV::Float))
                                        }
                                    },
                                }
                            }
                        },
                    }
                },
            }
        },
        ExprV::Call(f, args, args_span) => {
            let (pf, rf) = ev(funcs, stack, *f, depth);
            match rf {
                Err(h) => (pf, Err(h)),
                Ok(ValueV::Func(name)) => match find_func(funcs, name) {
                    None => (pf, Err(HaltV::Panic)),
                    Some(i) => {
                        let fd = funcs[i];
                        if fd.1.len() != args.len() {
                            (
                                pf,
                                Err(
                                    HaltV::Failed(
                                        args_span,
                                        "'"@ + name + "' called with wrong number of arguments (expected "@
                                            + decimal(fd.1.len()) + ", found "@ + decimal(args.len()) + ")"@,
                                    ),
                                ),
                            )
                        } else {
                            let (pa, ra) = ev_list(funcs, stack, args, args.len() as int, depth);
                            match ra {
                                Err(h) => (pf + pa, Err(h)),
                                Ok(vals) => if depth == 0 {
                                    (pf + pa, Err(HaltV::Depth))
                                } else {
                                    let frame = Seq::new(
                                        vals.len(),
                                        |k: int| (fd.1[k]@, vals[k]),
                                    );
                                    let (pb, rb) = ev(funcs, frame, fd.2, (depth - 1) as nat);
                                    (pf + pa + pb, rb)
                                },
                            }
                        }
                    },
                },
                Ok(v) => (pf, Err(HaltV::Failed(f.1, "'"@ + value_debug(v) + "' is not callable"@))),
            }
        },
        ExprV::If(c, a, b) => {
            let (pc, rc) = ev(funcs, stack, *c, depth);
            match rc {
                Err(h) => (pc, Err(h)),
                Ok(ValueV::Boolean(true)) => {
                    let (p2, r2) = ev(funcs, stack, *a, depth);
                    (pc + p2, r2)
                },
                Ok(ValueV::Boolean(false)) => {
                    let (p2, r2) = ev(funcs, stack, *b, depth);
                    (pc + p2, r2)
                },
                Ok(v) => (
                    pc,
                    Err(HaltV::Failed(c.1, "Conditions must be booleans, found '"@ + value_debug(v) + "'"@)),
                ),
            }
        },
        ExprV::Print(a) => {
            let (p, r) = ev(funcs, stack, *a, depth);
            match r {
                Err(h) => (p, Err(h)),
                Ok(v) => (p.push((v, false)), Ok(v)),
            }
        },
        ExprV::PrintLn(a) => {
            let (p, r) = ev(funcs, stack, *a, depth);
            match r {
                Err(h) => (p, Err(h)),
                Ok(v) => (p.push((v, true)), Ok(v)),
            }
        },
    }
}

/// Evaluating the first `k` expressions in order until one stops.
pub open spec fn ev_list(
    funcs: Seq<FuncV>,
    stack: Seq<(Seq<char>, ValueV)>,
    items: Seq<(ExprV, Span)>,
    k: int,
    depth: nat,
) -> (Seq<(ValueV, bool)>, Result<Seq<ValueV>, HaltV>)
    decreases depth, items, k,
{
    if k <= 0 || k > items.len() {
        (Seq::empty(), Ok(Seq::empty()))
    } else {
        let (p, r) = ev_list(funcs, stack, items, k - 1, depth);
        match r {
            Err(h) => (p, Err(h)),
            Ok(vs) => {
                let (p2, r2) = ev(funcs, stack, items[k - 1], depth);
                match r2 {
                    Err(h) => (p + p2, Err(h)),
                    Ok(v) => (p + p2, Ok(vs.push(v))),
                }
            },
        }
    }
}

/// The view of the functions.
pub open spec fn funcs_view(f: Seq<(String, Func)>) -> Seq<FuncV> {
    f.map_values(|x: (String, Func)| super::funcs::func_view(x))
}

/// The view of a stack of local names.
pub open spec fn stack_view(s: Seq<(String, Value)>) -> Seq<(Seq<char>, ValueV)> {
    s.map_values(|x: (String, Value)| (x.0@, value_view(x.1)))
}

/// Why evaluation stopped without a value.
#[derive(Debug)]
pub enum Halt {
    /// An error at a span, with its message.
    Failed(Span, String),
    /// A floating-point operation or comparison would be computed here.
    Float,
    /// Calls went deeper than allowed.
    Depth,
    /// Evaluation cannot go on.
    Panic,
}

/// The view of a halt.
pub open spec fn halt_view(h: Halt) -> HaltV {
    match h {
        Halt::Failed(s, m) => HaltV::Failed(s, m@),
        Halt::Float => HaltV::Float,
        Halt::Depth => HaltV::Depth,
        Halt::Panic => HaltV::Panic,
    }
}

/// What evaluation wrote (each value with whether a newline follows it) and
/// gave.
#[derive(Debug)]
pub struct Evaluated {
    pub printed: Vec<(Value, bool)>,
    pub result: Result<Value, Halt>,
}

/// The view of what was written.
pub open spec fn printed_view(p: Seq<(Value, bool)>) -> Seq<(ValueV, bool)> {
    p.map_values(|x: (Value, bool)| (value_view(x.0), x.1))
}

/// The view of an evaluation.
pub open spec fn outcome_view(r: Evaluated) -> Outcome {
    (printed_view(r.printed@), match r.result {
        Ok(v) => Ok(value_view(v)),
        Err(h) => Err(halt_view(h)),
    })
}

/// A copy of a value.
pub fn copy_value(v: &Value) -> (r: Value)
    ensures
        value_view(r) == value_view(*v),
    decreases *v,
{
    match v {
        Value::Boolean(b) => Value::Boolean(*b),
        Value::Int(i) => Value::Int(*i),
        Value::Float(s) => Value::Float(s.clone()),
        Value::String(s) => Value::String(s.clone()),
        Value::Func(n) => Value::Func(n.clone()),
        Value::List(items) => {
            let mut out: Vec<Value> = Vec::new();
            let mut k: usize = 0;
            while k < items.len()
                invariant
                    k <= items@.len(),
                    *v == Value::List(*items),
                    values_view(out@) == values_view(items@.subrange(0, k as int)),
                decreases items@.len() - k,
            {
                proof {
                    lemma_values_view_index(items@);
                    assert((*v)->List_0 == *items);
                    assert(decreases_to!(*v => (*v)->List_0));
                    assert(decreases_to!(*items => items@));
                    assert(decreases_to!(items@ => items@[k as int]));
                }
                let c = copy_value(&items[k]);
                let ghost before = out@;
                out.push(c);
                proof {
                    assert(out@.subrange(0, out@.len() - 1) =~= before);
                    let sub = items@.subrange(0, k + 1);
                    assert(sub.subrange(0, sub.len() - 1) =~= items@.subrange(0, k as int));
                }
                k = k + 1;
            }
            assert(items@.subrange(0, items@.len() as int) =~= items@);
            Value::List(out)
        },
    }
}

/// The view of each value, and the count.
proof fn lemma_values_view_index(s: Seq<Value>)
    ensures
        values_view(s).len() == s.len(),
        forall|k: int| 0 <= k < s.len() ==> #[trigger] values_view(s)[k] == value_view(s[k]),
    decreases s.len(),
{
    if s.len() > 0 {
        let init = s.subrange(0, s.len() - 1);
        lemma_values_view_index(init);
        assert forall|k: int| 0 <= k < s.len() implies #[trigger] values_view(s)[k] == value_view(s[k]) by {
            if k < s.len() - 1 {
                assert(init[k] == s[k]);
            }
        }
    }
}

/// The view of a prefix of values, as `values_view` builds it.
proof fn lemma_values_view_prefix(s: Seq<Value>, k: int)
    requires
        0 <= k <= s.len(),
    ensures
        values_view(s.subrange(0, k)) == values_view(s).subrange(0, k),
        values_view(s).len() == s.len(),
    decreases s.len(),
{
    if s.len() > 0 {
        let init = s.subrange(0, s.len() - 1);
        if k < s.len() {
            lemma_values_view_prefix(init, k);
            assert(init.subrange(0, k) =~= s.subrange(0, k));
        } else {
            assert(s.subrange(0, k) =~= s);
            lemma_values_view_prefix(init, 0);
        }
        assert(values_view(s).subrange(0, k) =~= if k < s.len() {
            values_view(init).subrange(0, k)
        } else {
            values_view(s)
        });
    } else {
        assert(s.subrange(0, k) =~= s);
    }
}

/// Whether a value holds a floating-point number anywhere.
fn has_float_exec(v: &Value) -> (r: bool)
    ensures
        r == has_float(value_view(*v)),
    decreases *v,
{
    match v {
        Value::Float(_) => true,
        Value::List(items) => {
            let ghost vs = values_view(items@);
            proof {
                lemma_values_view_index(items@);
            }
            let mut found = false;
            let mut k: usize = 0;
            while k < items.len()
                invariant
                    k <= items@.len(),
                    *v == Value::List(*items),
                    vs == values_view(items@),
                    vs.len() == items@.len(),
                    found == any_float(vs, k as int),
                decreases items@.len() - k,
            {
                proof {
                    lemma_values_view_index(items@);
                    assert((*v)->List_0 == *items);
                    assert(decreases_to!(*v => (*v)->List_0));
                    assert(decreases_to!(*items => items@));
                    assert(decreases_to!(items@ => items@[k as int]));
                }
                let h = has_float_exec(&items[k]);
                found = found || h;
                k = k + 1;
            }
            found
        },
        _ => false,
    }
}

/// Whether two values are equal; neither holds a floating-point number.
fn values_eq(a: &Value, b: &Value) -> (r: bool)
    ensures
        r == (value_view(*a) == value_view(*b)),
    decreases *a,
{
    match (a, b) {
        (Value::Boolean(x), Value::Boolean(y)) => *x == *y,
        (Value::Int(x), Value::Int(y)) => *x == *y,
        (Value::Float(x), Value::Float(y)) => str_eq(x.as_str(), y.as_str()),
        (Value::String(x), Value::String(y)) => str_eq(x.as_str(), y.as_str()),
        (Value::Func(x), Value::Func(y)) => str_eq(x.as_str(), y.as_str()),
        (Value::List(xs), Value::List(ys)) => {
            proof {
                lemma_values_view_prefix(xs@, xs@.len() as int);
                lemma_values_view_prefix(ys@, ys@.len() as int);
            }
            if xs.len() != ys.len() {
                return false;
            }
            let ghost xv = values_view(xs@);
            let ghost yv = values_view(ys@);
            let mut k: usize = 0;
            while k < xs.len()
                invariant
                    k <= xs@.len(),
                    *a == Value::List(*xs),
                    *b == Value::List(*ys),
                    xs@.len() == ys@.len(),
                    xv == values_view(xs@),
                    yv == values_view(ys@),
                    xv.len() == xs@.len(),
                    yv.len() == ys@.len(),
                    forall|i: int| 0 <= i < k ==> xv[i] == yv[i],
                decreases xs@.len() - k,
            {
                proof {
                    lemma_values_view_prefix(xs@, k + 1);
                    lemma_values_view_prefix(ys@, k + 1);
                    let sx = xs@.subrange(0, k + 1);
                    let sy = ys@.subrange(0, k + 1);
                    assert(sx.subrange(0, sx.len() - 1) =~= xs@.subrange(0, k as int));
                    assert(sy.subrange(0, sy.len() - 1) =~= ys@.subrange(0, k as int));
                    lemma_values_view_index(xs@);
                    lemma_values_view_index(ys@);
                }
                if !values_eq(&xs[k], &ys[k]) {
                    assert(xv[k as int] != yv[k as int]);
                    assert(xv != yv);
                    return false;
                }
                k = k + 1;
            }
            assert(xv =~= yv);
            true
        },
        _ => false,
    }
}

/// An integer in decimal.
fn push_u128(s: &mut String, n: u128)
    ensures
        final(s)@ == old(s)@ + decimal(n as nat),
    decreases n,
{
    if n < 10 {
        push_char(s, ((n as u8) + 48) as char);
        assert(decimal(n as nat) =~= seq![(n as nat + 48) as char]);
    } else {
        push_u128(s, n / 10);
        let d = (n % 10) as u8;
        push_char(s, (d + 48) as char);
    }
}

/// An integer in decimal, with a minus sign when negative.
fn int_text_exec(i: i128) -> (r: String)
    ensures
        r@ == int_text(i as int),
{
    let mut s = String::new();
    if i < 0 {
        push_char(&mut s, '-');
        let m: u128 = if i == i128::MIN {
            0x8000_0000_0000_0000_0000_0000_0000_0000u128
        } else {
            (-i) as u128
        };
        push_u128(&mut s, m);
    } else {
        push_u128(&mut s, i as u128);
    }
    s
}

/// A value displayed, or written for debugging.
pub fn value_text_exec(v: &Value, debug: bool) -> (r: String)
    ensures
        r@ == if debug {
            value_debug(value_view(*v))
        } else {
            value_text(value_view(*v))
        },
    decreases *v,
{
    let mut s = String::new();
    match v {
        Value::Boolean(b) => {
            if debug {
                s.append("Boolean(");
            }
            s.append(if *b { "true" } else { "false" });
            if debug {
                s.append(")");
            }
        },
        Value::Int(i) => {
            if debug {
                s.append("Int(");
            }
            let t = int_text_exec(*i);
            s.append(t.as_str());
            if debug {
                s.append(")");
            }
        },
        Value::Float(t) => {
            if debug {
                s.append("Float(");
            }
            s.append(t.as_str());
            if debug {
                s.append(")");
            }
        },
        Value::String(t) => {
            if debug {
                s.append("String(");
                let q = debug_quoted(t.as_str());
                s.append(q.as_str());
                s.append(")");
            } else {
                s.append(t.as_str());
            }
        },
        Value::Func(n) => {
            if debug {
                s.append("Func(");
                let q = debug_quoted(n.as_str());
                s.append(q.as_str());
                s.append(")");
            } else {
                s.append("<function: ");
                s.append(n.as_str());
                s.append(">");
            }
        },
        Value::List(items) => {
            s.append(if debug { "List([" } else { "[" });
            let ghost vs = values_view(items@);
            proof {
                lemma_values_view_prefix(items@, items@.len() as int);
            }
            let mut body = String::new();
            let mut k: usize = 0;
            while k < items.len()
                invariant
                    k <= items@.len(),
                    *v == Value::List(*items),
                    vs == values_view(items@),
                    vs.len() == items@.len(),
                    body@ == joined(vs, k as int, debug),
                decreases items@.len() - k,
            {
                proof {
                    lemma_values_view_prefix(items@, k + 1);
                    let sub = items@.subrange(0, k + 1);
                    assert(sub.subrange(0, sub.len() - 1) =~= items@.subrange(0, k as int));
                    lemma_values_view_index(items@);
                }
                if k > 0 {
                    body.append(", ");
                }
                proof {
                    assert((*v)->List_0 == *items);
                    assert(decreases_to!(*v => (*v)->List_0));
                    assert(decreases_to!(*items => items@));
                    assert(decreases_to!(items@ => items@[k as int]));
                }
                let t = value_text_exec(&items[k], debug);
                body.append(t.as_str());
                k = k + 1;
            }
            s.append(body.as_str());
            s.append(if debug { "])" } else { "]" });
        },
    }
    s
}

/// The view of an evaluation's result.
pub open spec fn result_view(r: Result<Value, Halt>) -> Result<ValueV, HaltV> {
    match r {
        Ok(v) => Ok(value_view(v)),
        Err(h) => Err(halt_view(h)),
    }
}

/// A copy of a span.
fn copy_span(s: &Span) -> (r: Span)
    ensures
        r == *s,
{
    Range { start: s.start, end: s.end }
}

/// An integer operation, or `None` where it overflows or divides by zero.
fn int_op_exec(op: BinaryOp, a: i128, b: i128) -> (r: Option<i128>)
    requires
        op != BinaryOp::Eq,
        op != BinaryOp::NotEq,
    ensures
        r matches Some(v) ==> int_op(op, a as int, b as int) == Some(v as int),
        r is None ==> int_op(op, a as int, b as int) is None,
{
    match op {
        BinaryOp::Add => a.checked_add(b),
        BinaryOp::Sub => a.checked_sub(b),
        BinaryOp::Mul => a.checked_mul(b),
        _ => a.checked_div(b),
    }
}

/// The value of the topmost binding of `name` on the stack, if any.
fn lookup_exec(stack: &Vec<(String, Value)>, name: &String) -> (r: Option<Value>)
    ensures
        r matches Some(v) ==> lookup(stack_view(stack@), name@) == Some(value_view(v)),
        r is None ==> lookup(stack_view(stack@), name@) is None,
{
    let ghost sv = stack_view(stack@);
    let mut k: usize = stack.len();
    assert(sv.subrange(0, k as int) =~= sv);
    while k > 0
        invariant
            k <= stack@.len(),
            sv == stack_view(stack@),
            lookup(sv, name@) == lookup(sv.subrange(0, k as int), name@),
        decreases k,
    {
        proof {
            let sub = sv.subrange(0, k as int);
            assert(sub.drop_last() =~= sv.subrange(0, k - 1));
        }
        if str_eq(stack[k - 1].0.as_str(), name.as_str()) {
            return Some(copy_value(&stack[k - 1].1));
        }
        k = k - 1;
    }
    None
}

/// Where a function's name first appears among `funcs`, if it does.
proof fn lemma_find_func_prefix(s: Seq<FuncV>, k: int, name: Seq<char>)
    requires
        0 <= k <= s.len(),
        find_func(s.subrange(0, k), name) is Some,
    ensures
        find_func(s, name) == find_func(s.subrange(0, k), name),
    decreases s.len(),
{
    if k < s.len() {
        let init = s.drop_last();
        assert(init.subrange(0, k) =~= s.subrange(0, k));
        lemma_find_func_prefix(init, k, name);
    } else {
        assert(s.subrange(0, k) =~= s);
    }
}

/// The index of the first function called `name`, if any.
fn find_func_exec(funcs: &Vec<(String, Func)>, name: &String) -> (r: Option<usize>)
    ensures
        r matches Some(i) ==> i < funcs@.len() && find_func(funcs_view(funcs@), name@) == Some(i as int),
        r is None ==> find_func(funcs_view(funcs@), name@) is None,
{
    let ghost fv = funcs_view(funcs@);
    let mut k: usize = 0;
    while k < funcs.len()
        invariant
            k <= funcs@.len(),
            fv == funcs_view(funcs@),
            find_func(fv.subrange(0, k as int), name@) is None,
        decreases funcs@.len() - k,
    {
        proof {
            let sub = fv.subrange(0, k + 1);
            assert(sub.drop_last() =~= fv.subrange(0, k as int));
        }
        if str_eq(funcs[k].0.as_str(), name.as_str()) {
            proof {
                lemma_find_func_prefix(fv, k + 1, name@);
            }
            return Some(k);
        }
        k = k + 1;
    }
    assert(fv.subrange(0, k as int) =~= fv);
    None
}

/// Once the first `k` expressions stop, so do the first `m`.
proof fn lemma_ev_list_halted(
    funcs: Seq<FuncV>,
    stack: Seq<(Seq<char>, ValueV)>,
    items: Seq<(ExprV, Span)>,
    k: int,
    m: int,
    depth: nat,
)
    requires
        0 <= k <= m <= items.len(),
        ev_list(funcs, stack, items, k, depth).1 is Err,
    ensures
        ev_list(funcs, stack, items, m, depth) == ev_list(funcs, stack, items, k, depth),
    decreases m - k,
{
    if m > k {
        lemma_ev_list_halted(funcs, stack, items, k, m - 1, depth);
    }
}

/// A list that is evaluated to the end gives a value for each expression.
proof fn lemma_ev_list_count(
    funcs: Seq<FuncV>,
    stack: Seq<(Seq<char>, ValueV)>,
    items: Seq<(ExprV, Span)>,
    k: int,
    depth: nat,
)
    requires
        0 <= k <= items.len(),
    ensures
        ev_list(funcs, stack, items, k, depth).1 matches Ok(vs) ==> vs.len() == k,
    decreases k,
{
    if k > 0 {
        lemma_ev_list_count(funcs, stack, items, k - 1, depth);
    }
}

/// The views of expressions, one by one.
proof fn lemma_exprs_view_index(s: Seq<Spanned<Expr>>)
    ensures
        exprs_view(s).len() == s.len(),
        forall|k: int| 0 <= k < s.len() ==> #[trigger] exprs_view(s)[k] == sview(s[k]),
    decreases s.len(),
{
    if s.len() > 0 {
        let init = s.subrange(0, s.len() - 1);
        lemma_exprs_view_index(init);
        assert forall|k: int| 0 <= k < s.len() implies #[trigger] exprs_view(s)[k] == sview(s[k]) by {
            if k < s.len() - 1 {
                assert(init[k] == s[k]);
            }
        }
    }
}

/// What is written, one more value.
proof fn lemma_printed_push(p: Seq<(Value, bool)>, x: (Value, bool))
    ensures
        printed_view(p.push(x)) == printed_view(p).push((value_view(x.0), x.1)),
{
    assert(printed_view(p.push(x)) =~= printed_view(p).push((value_view(x.0), x.1)));
}

/// The views of values, one more value.
proof fn lemma_values_view_push(s: Seq<Value>, v: Value)
    ensures
        values_view(s.push(v)) == values_view(s).push(value_view(v)),
{
    assert(s.push(v).subrange(0, s.len() as int) =~= s);
}

/// A message made of a text, a value's text and another text.
fn message(a: &str, v: &Value, debug: bool, b: &str) -> (r: String)
    ensures
        r@ == a@ + (if debug {
            value_debug(value_view(*v))
        } else {
            value_text(value_view(*v))
        }) + b@,
{
    let mut m = String::new();
    m.append(a);
    let t = value_text_exec(v, debug);
    m.append(t.as_str());
    m.append(b);
    m
}

/// Evaluates the expressions in order until one stops, writing to `out`.
fn ev_list_exec(
    funcs: &Vec<(String, Func)>,
    stack: &mut Vec<(String, Value)>,
    items: &Vec<Spanned<Expr>>,
    depth: u64,
    out: &mut Vec<(Value, bool)>,
) -> (r: Result<Vec<Value>, Halt>)
    ensures
        final(stack)@ == old(stack)@,
        printed_view(final(out)@) == printed_view(old(out)@) + ev_list(
            funcs_view(funcs@),
            stack_view(old(stack)@),
            exprs_view(items@),
            items@.len() as int,
            depth as nat,
        ).0,
        (match r {
            Ok(vs) => Ok(values_view(vs@)),
            Err(h) => Err(halt_view(h)),
        }) == ev_list(
            funcs_view(funcs@),
            stack_view(old(stack)@),
            exprs_view(items@),
            items@.len() as int,
            depth as nat,
        ).1,
    decreases depth, *items, 0nat,
{
    let ghost fv = funcs_view(funcs@);
    let ghost s0 = stack@;
    let ghost sv = stack_view(stack@);
    let ghost iv = exprs_view(items@);
    let ghost o0 = out@;
    proof {
        lemma_exprs_view_index(items@);
    }
    let mut vals: Vec<Value> = Vec::new();
    let mut k: usize = 0;
    while k < items.len()
        invariant
            k <= items@.len(),
            stack@ == s0,
            s0 == old(stack)@,
            o0 == old(out)@,
            fv == funcs_view(funcs@),
            sv == stack_view(s0),
            iv == exprs_view(items@),
            iv.len() == items@.len(),
            forall|j: int| 0 <= j < items@.len() ==> #[trigger] iv[j] == sview(items@[j]),
            ev_list(fv, sv, iv, k as int, depth as nat).1 == Ok::<Seq<ValueV>, HaltV>(values_view(vals@)),
            printed_view(out@) == printed_view(o0) + ev_list(fv, sv, iv, k as int, depth as nat).0,
        decreases items@.len() - k,
    {
        proof {
            assert(decreases_to!(*items => items@));
            assert(decreases_to!(items@ => items@[k as int]));
        }
        let ghost before = out@;
        let r = ev_exec(funcs, stack, &items[k], depth, out);
        match r {
            Err(h) => {
                proof {
                    assert(printed_view(out@) =~= printed_view(o0) + ev_list(fv, sv, iv, k + 1, depth as nat).0);
                    lemma_ev_list_halted(fv, sv, iv, k + 1, items@.len() as int, depth as nat);
                }
                return Err(h);
            },
            Ok(v) => {
                proof {
                    lemma_values_view_push(vals@, v);
                    assert(printed_view(out@) =~= printed_view(o0) + ev_list(fv, sv, iv, k + 1, depth as nat).0);
                }
                vals.push(v);
            },
        }
        k = k + 1;
    }
    Ok(vals)
}

/// Evaluates an expression, writing what it prints to `out`; the stack is
/// as it was afterwards.
#[verifier::rlimit(60)]
#[verifier::spinoff_prover]
fn ev_exec(
    funcs: &Vec<(String, Func)>,
    stack: &mut Vec<(String, Value)>,
    e: &Spanned<Expr>,
    depth: u64,
    out: &mut Vec<(Value, bool)>,
) -> (r: Result<Value, Halt>)
    ensures
        final(stack)@ == old(stack)@,
        printed_view(final(out)@) == printed_view(old(out)@) + ev(
            funcs_view(funcs@),
            stack_view(old(stack)@),
            sview(*e),
            depth as nat,
        ).0,
        result_view(r) == ev(funcs_view(funcs@), stack_view(old(stack)@), sview(*e), depth as nat).1,
    decreases depth, *e, 1nat,
{
    let ghost fv = funcs_view(funcs@);
    let ghost s0 = stack@;
    let ghost sv = stack_view(stack@);
    let ghost o0 = out@;
    let ghost o = ev(fv, sv, sview(*e), depth as nat);
    match &e.0 {
        Expr::Error => {
            assert(printed_view(out@) =~= printed_view(o0) + o.0);
            Err(Halt::Panic)
        },
        Expr::Value(v) => {
            assert(printed_view(out@) =~= printed_view(o0) + o.0);
            Ok(copy_value(v))
        },
        Expr::List(items) => {
            proof {
                assert(decreases_to!(*e => e.0));
                assert(decreases_to!(e.0 => e.0->List_0));
                lemma_exprs_view_index(items@);
            }
            match ev_list_exec(funcs, stack, items, depth, out) {
                Ok(vs) => Ok(Value::List(vs)),
                Err(h) => Err(h),
            }
        },
        Expr::Local(name) => {
            assert(printed_view(out@) =~= printed_view(o0) + o.0);
            match lookup_exec(stack, name) {
                Some(v) => Ok(v),
                None => match find_func_exec(funcs, name) {
                    Some(_) => Ok(Value::Func(string_of(name.as_str()))),
                    None => {
                        let mut m = String::new();
                        m.append("No such variable '");
                        m.append(name.as_str());
                        m.append("' in scope");
                        Err(Halt::Failed(copy_span(&e.1), m))
                    },
                },
            }
        },
        Expr::Let(name, v, body) => {
            proof {
                assert(decreases_to!(*e => e.0));
                assert(decreases_to!(e.0 => e.0->Let_1));
                assert(decreases_to!(e.0 => e.0->Let_2));
            }
            let r1 = ev_exec(funcs, stack, v, depth, out);
            match r1 {
                Err(h) => Err(h),
                Ok(val) => {
                    let ghost vv = value_view(val);
                    stack.push((string_of(name.as_str()), val));
                    proof {
                        assert(stack_view(stack@) =~= sv.push((name@, vv)));
                    }
                    let r2 = ev_exec(funcs, stack, body, depth, out);
                    stack.pop();
                    proof {
                        assert(stack@ =~= s0);
                        assert(printed_view(out@) =~= printed_view(o0) + o.0);
                    }
                    r2
                },
            }
        },
        Expr::Then(a, b) => {
            proof {
                assert(decreases_to!(*e => e.0));
                assert(decreases_to!(e.0 => e.0->Then_0));
                assert(decreases_to!(e.0 => e.0->Then_1));
            }
            match ev_exec(funcs, stack, a, depth, out) {
                Err(h) => Err(h),
                Ok(_) => {
                    let r2 = ev_exec(funcs, stack, b, depth, out);
                    assert(printed_view(out@) =~= printed_view(o0) + o.0);
                    r2
                },
            }
        },
        Expr::Print(a) => {
            proof {
                assert(decreases_to!(*e => e.0));
                assert(decreases_to!(e.0 => e.0->Print_0));
            }
            match ev_exec(funcs, stack, a, depth, out) {
                Err(h) => Err(h),
                Ok(v) => {
                    let c = copy_value(&v);
                    proof {
                        lemma_printed_push(out@, (c, false));
                    }
                    out.push((c, false));
                    assert(printed_view(out@) =~= printed_view(o0) + o.0);
                    Ok(v)
                },
            }
        },
        Expr::PrintLn(a) => {
            proof {
                assert(decreases_to!(*e => e.0));
                assert(decreases_to!(e.0 => e.0->PrintLn_0));
            }
            match ev_exec(funcs, stack, a, depth, out) {
                Err(h) => Err(h),
                Ok(v) => {
                    let c = copy_value(&v);
                    proof {
                        lemma_printed_push(out@, (c, true));
                    }
                    out.push((c, true));
                    assert(printed_view(out@) =~= printed_view(o0) + o.0);
                    Ok(v)
                },
            }
        },
        Expr::If(c, a, b) => {
            proof {
                assert(decreases_to!(*e => e.0));
                assert(decreases_to!(e.0 => e.0->If_0));
                assert(decreases_to!(e.0 => e.0->If_1));
                assert(decreases_to!(e.0 => e.0->If_2));
            }
            match ev_exec(funcs, stack, c, depth, out) {
                Err(h) => Err(h),
                Ok(Value::Boolean(true)) => {
                    let r2 = ev_exec(funcs, stack, a, depth, out);
                    assert(printed_view(out@) =~= printed_view(o0) + o.0);
                    r2
                },
                Ok(Value::Boolean(false)) => {
                    let r2 = ev_exec(funcs, stack, b, depth, out);
                    assert(printed_view(out@) =~= printed_view(o0) + o.0);
                    r2
                },
                Ok(v) => {
                    let m = message("Conditions must be booleans, found '", &v, true, "'");
                    Err(Halt::Failed(copy_span(&c.1), m))
                },
            }
        },
        Expr::Binary(a, op, b) => {
            ev_binary(funcs, stack, e, depth, out)
        },
        Expr::Call(f, args) => {
            ev_call(funcs, stack, e, depth, out)
        },
    }
}

/// Evaluates a binary operation; see `ev_exec`.
#[verifier::rlimit(60)]
#[verifier::spinoff_prover]
fn ev_binary(
    funcs: &Vec<(String, Func)>,
    stack: &mut Vec<(String, Value)>,
    e: &Spanned<Expr>,
    depth: u64,
    out: &mut Vec<(Value, bool)>,
) -> (r: Result<Value, Halt>)
    requires
        e.0 is Binary,
    ensures
        final(stack)@ == old(stack)@,
        printed_view(final(out)@) == printed_view(old(out)@) + ev(
            funcs_view(funcs@),
            stack_view(old(stack)@),
            sview(*e),
            depth as nat,
        ).0,
        result_view(r) == ev(funcs_view(funcs@), stack_view(old(stack)@), sview(*e), depth as nat).1,
    decreases depth, *e, 0nat,
{
    let ghost fv = funcs_view(funcs@);
    let ghost sv = stack_view(stack@);
    let ghost o0 = out@;
    let ghost o = ev(fv, sv, sview(*e), depth as nat);
    match &e.0 {
        Expr::Binary(a, op, b) => {
            proof {
                assert(decreases_to!(*e => e.0));
                assert(decreases_to!(e.0 => e.0->Binary_0));
                assert(decreases_to!(e.0 => e.0->Binary_2));
            }
            let ghost pa = ev(fv, sv, sview(**a), depth as nat).0;
            let ghost pb = ev(fv, sv, sview(**b), depth as nat).0;
            let va = match ev_exec(funcs, stack, a, depth, out) {
                Err(h) => {
                    return Err(h);
                },
                Ok(v) => v,
            };
            let vb = match ev_exec(funcs, stack, b, depth, out) {
                Err(h) => {
                    assert(printed_view(out@) =~= printed_view(o0) + o.0);
                    return Err(h);
                },
                Ok(v) => v,
            };
            assert(printed_view(out@) =~= printed_view(o0) + pa + pb);
            match op {
                BinaryOp::Eq | BinaryOp::NotEq => {
                    assert(printed_view(out@) =~= printed_view(o0) + o.0);
                    let fa = has_float_exec(&va);
                    let fb = has_float_exec(&vb);
                    if fa || fb {
                        Err(Halt::Float)
                    } else {
                        let same = values_eq(&va, &vb);
                        let want = match op {
                            BinaryOp::Eq => true,
                            _ => false,
                        };
                        Ok(Value::Boolean(same == want))
                    }
                },
                _ => {
                    match (&va, &vb) {
                        (Value::Int(x), Value::Int(y)) => {
                            assert(printed_view(out@) =~= printed_view(o0) + o.0);
                            match int_op_exec(*op, *x, *y) {
                                Some(v) => Ok(Value::Int(v)),
                                None => Err(Halt::Panic),
                            }
                        },
                        _ => {
                            let _ = ev_exec(funcs, stack, a, depth, out);
                            match &va {
                                Value::Float(_) => {},
                                _ => {
                                    let m = message("'", &va, false, "' is not a Float");
                                    assert(printed_view(out@) =~= printed_view(o0) + o.0);
                                    return Err(Halt::Failed(copy_span(&a.1), m));
                                },
                            }
                            let _ = ev_exec(funcs, stack, b, depth, out);
                            assert(printed_view(out@) =~= printed_view(o0) + o.0);
                            match &vb {
                                Value::Float(_) => Err(Halt::Float),
                                _ => {
                                    let m = message("'", &vb, false, "' is not a Float");
                                    Err(Halt::Failed(copy_span(&b.1), m))
                                },
                            }
                        },
                    }
                },
            }
        },
        _ => {
            assert(false);
            Err(Halt::Panic)
        },
    }
}

/// Evaluates a call; see `ev_exec`.
#[verifier::rlimit(60)]
#[verifier::spinoff_prover]
fn ev_call(
    funcs: &Vec<(String, Func)>,
    stack: &mut Vec<(String, Value)>,
    e: &Spanned<Expr>,
    depth: u64,
    out: &mut Vec<(Value, bool)>,
) -> (r: Result<Value, Halt>)
    requires
        e.0 is Call,
    ensures
        final(stack)@ == old(stack)@,
        printed_view(final(out)@) == printed_view(old(out)@) + ev(
            funcs_view(funcs@),
            stack_view(old(stack)@),
            sview(*e),
            depth as nat,
        ).0,
        result_view(r) == ev(funcs_view(funcs@), stack_view(old(stack)@), sview(*e), depth as nat).1,
    decreases depth, *e, 0nat,
{
    let ghost fv = funcs_view(funcs@);
    let ghost sv = stack_view(stack@);
    let ghost o0 = out@;
    let ghost o = ev(fv, sv, sview(*e), depth as nat);
    match &e.0 {
        Expr::Call(f, args) => {
            proof {
                assert(decreases_to!(*e => e.0));
                assert(decreases_to!(e.0 => e.0->Call_0));
                assert(decreases_to!(e.0 => e.0->Call_1));
                assert(decreases_to!(e.0->Call_1 => e.0->Call_1.0));
                lemma_exprs_view_index(args.0@);
            }
            let fval = match ev_exec(funcs, stack, f, depth, out) {
                Err(h) => {
                    return Err(h);
                },
                Ok(v) => v,
            };
            match &fval {
                Value::Func(name) => match find_func_exec(funcs, name) {
                    None => {
                        assert(printed_view(out@) =~= printed_view(o0) + o.0);
                        Err(Halt::Panic)
                    },
                    Some(i) => {
                        let fd = &funcs[i].1;
                        if fd.args.len() != args.0.len() {
                            assert(printed_view(out@) =~= printed_view(o0) + o.0);
                            let mut m = String::new();
                            m.append("'");
                            m.append(name.as_str());
                            m.append("' called with wrong number of arguments (expected ");
                            push_u128(&mut m, fd.args.len() as u128);
                            m.append(", found ");
                            push_u128(&mut m, args.0.len() as u128);
                            m.append(")");
                            Err(Halt::Failed(copy_span(&args.1), m))
                        } else {
                            match ev_list_exec(funcs, stack, &args.0, depth, out) {
                                Err(h) => {
                                    assert(printed_view(out@) =~= printed_view(o0) + o.0);
                                    Err(h)
                                },
                                Ok(vals) => {
                                    if depth == 0 {
                                        assert(printed_view(out@) =~= printed_view(o0) + o.0);
                                        Err(Halt::Depth)
                                    } else {
                                        let ghost vs = values_view(vals@);
                                        proof {
                                            lemma_values_view_index(vals@);
                                            lemma_ev_list_count(
                                                fv,
                                                sv,
                                                exprs_view(args.0@),
                                                args.0@.len() as int,
                                                depth as nat,
                                            );
                                        }
                                        let mut frame: Vec<(String, Value)> = Vec::new();
                                        let mut k: usize = 0;
                                        while k < vals.len()
                                            invariant
                                                k <= vals@.len(),
                                                vals@.len() == fd.args@.len(),
                                                vs == values_view(vals@),
                                                vs.len() == vals@.len(),
                                                forall|j: int| 0 <= j < vals@.len() ==> #[trigger] vs[j] == value_view(vals@[j]),
                                                stack_view(frame@) =~= Seq::new(
                                                    k as nat,
                                                    |j: int| (fd.args@[j]@, vs[j]),
                                                ),
                                            decreases vals@.len() - k,
                                        {
                                            let nm = string_of(fd.args[k].as_str());
                                            let c = copy_value(&vals[k]);
                                            let ghost before = frame@;
                                            frame.push((nm, c));
                                            proof {
                                                assert(stack_view(frame@) =~= stack_view(before).push(
                                                    (nm@, value_view(c)),
                                                ));
                                            }
                                            k = k + 1;
                                        }
                                                            let r = ev_exec(funcs, &mut frame, &fd.body, depth - 1, out);
                                        assert(printed_view(out@) =~= printed_view(o0) + o.0);
                                        r
                                    }
                                },
                            }
                        }
                    },
                },
                _ => {
                    assert(printed_view(out@) =~= printed_view(o0) + o.0);
                    let m = message("'", &fval, true, "' is not callable");
                    Err(Halt::Failed(copy_span(&f.1), m))
                },
            }
        },
        _ => {
            assert(false);
            Err(Halt::Panic)
        },
    }
}

/// A copy of a stack of local names.
fn copy_stack(stack: &Vec<(String, Value)>) -> (r: Vec<(String, Value)>)
    ensures
        stack_view(r@) == stack_view(stack@),
{
    let mut r: Vec<(String, Value)> = Vec::new();
    let mut k: usize = 0;
    while k < stack.len()
        invariant
            k <= stack@.len(),
            stack_view(r@) =~= stack_view(stack@).subrange(0, k as int),
        decreases stack@.len() - k,
    {
        let nm = string_of(stack[k].0.as_str());
        let c = copy_value(&stack[k].1);
        let ghost before = r@;
        r.push((nm, c));
        proof {
            assert(stack_view(r@) =~= stack_view(before).push((nm@, value_view(c))));
        }
        k = k + 1;
    }
    assert(stack_view(stack@).subrange(0, k as int) =~= stack_view(stack@));
    r
}

/// Evaluates an expression with the functions `funcs` and the local names on
/// `stack`, calls going at most `depth` deep: what it prints, in order, and
/// its value or why there is none. The stack is as it was afterwards.
/// Inputs on which evaluation cannot go on, as `eval_panics` tells, are not
/// accepted.
pub fn eval_expr(
    expr: &Spanned<Expr>,
    funcs: &Vec<(String, Func)>,
    stack: &mut Vec<(String, Value)>,
    depth: u64,
) -> (r: Evaluated)
    requires
        ev(funcs_view(funcs@), stack_view(old(stack)@), sview(*expr), depth as nat).1 != Err::<
            ValueV,
            HaltV,
        >(HaltV::Panic),
    ensures
        final(stack)@ == old(stack)@,
        outcome_view(r) == ev(funcs_view(funcs@), stack_view(old(stack)@), sview(*expr), depth as nat),
{
    let mut out: Vec<(Value, bool)> = Vec::new();
    let result = ev_exec(funcs, stack, expr, depth, &mut out);
    assert(printed_view(out@) =~= ev(
        funcs_view(funcs@),
        stack_view(old(stack)@),
        sview(*expr),
        depth as nat,
    ).0);
    Evaluated { printed: out, result }
}

/// Whether evaluating `expr` cannot go on: an integer overflow, a
/// division by zero, a call of a function that is not defined, or an error
/// expression met.
pub fn eval_panics(
    expr: &Spanned<Expr>,
    funcs: &Vec<(String, Func)>,
    stack: &Vec<(String, Value)>,
    depth: u64,
) -> (r: bool)
    ensures
        r == (ev(funcs_view(funcs@), stack_view(stack@), sview(*expr), depth as nat).1 == Err::<
            ValueV,
            HaltV,
        >(HaltV::Panic)),
{
    let mut copy = copy_stack(stack);
    let mut out: Vec<(Value, bool)> = Vec::new();
    let result = ev_exec(funcs, &mut copy, expr, depth, &mut out);
    match result {
        Err(Halt::Panic) => true,
        _ => false,
    }
}

/// A binary operation of the expression parser's language on two values
/// whose spans are `sa` and `sb`.
pub open spec fn lox_binary(op: BinaryOp, va: ValueV, vb: ValueV, sa: Span, sb: Span) -> Result<ValueV, HaltV> {
    if op == BinaryOp::Eq || op == BinaryOp::NotEq {
        if has_float(va) || has_float(vb) {
            Err(HaltV::Float)
        } else {
            Ok(ValueV::Boolean((va == vb) == (op == BinaryOp::Eq)))
        }
    } else {
        match (va, vb) {
            (ValueV::Int(x), ValueV::Int(y)) => match int_op(op, x as int, y as int) {
                Some(v) => Ok(ValueV::Int(v as i128)),
                None => Err(HaltV::Panic),
            },
            _ => if !(va is Float) {
                Err(not_float(sa, va))
            } else if !(vb is Float) {
                Err(not_float(sb, vb))
            } else {
                Err(HaltV::Float)
            },
        }
    }
}

/// Evaluating an expression of the recursive-descent parser: values and
/// binary operations; evaluation cannot go on at any other form of
/// expression.
pub open spec fn lox_eval(e: Spanned<super::lox::Expr>) -> Result<ValueV, HaltV>
    decreases e,
{
    match e.0 {
        super::lox::Expr::Value(v) => Ok(value_view(v)),
        super::lox::Expr::Binary(a, op, b) => match lox_eval(*a) {
            Err(h) => Err(h),
            Ok(va) => match lox_eval(*b) {
                Err(h) => Err(h),
                Ok(vb) => lox_binary(op.0, va, vb, a.1, b.1),
            },
        },
        _ => Err(HaltV::Panic),
    }
}

/// Evaluates an expression of the recursive-descent parser.
pub(crate) fn lox_ev_exec(e: &Spanned<super::lox::Expr>) -> (r: Result<Value, Halt>)
    ensures
        result_view(r) == lox_eval(*e),
    decreases *e,
{
    match &e.0 {
        super::lox::Expr::Value(v) => Ok(copy_value(v)),
        super::lox::Expr::Binary(a, op, b) => {
            proof {
                assert(decreases_to!(*e => e.0));
                assert(decreases_to!(e.0 => e.0->Binary_0));
                assert(decreases_to!(e.0 => e.0->Binary_2));
            }
            let va = match lox_ev_exec(a) {
                Err(h) => {
                    return Err(h);
                },
                Ok(v) => v,
            };
            let vb = match lox_ev_exec(b) {
                Err(h) => {
                    return Err(h);
                },
                Ok(v) => v,
            };
            match op.0 {
                BinaryOp::Eq | BinaryOp::NotEq => {
                    let fa = has_float_exec(&va);
                    let fb = has_float_exec(&vb);
                    if fa || fb {
                        Err(Halt::Float)
                    } else {
                        let same = values_eq(&va, &vb);
                        let want = match op.0 {
                            BinaryOp::Eq => true,
                            _ => false,
                        };
                        Ok(Value::Boolean(same == want))
                    }
                },
                _ => match (&va, &vb) {
                    (Value::Int(x), Value::Int(y)) => match int_op_exec(op.0, *x, *y) {
                        Some(v) => Ok(Value::Int(v)),
                        None => Err(Halt::Panic),
                    },
                    (Value::Float(_), Value::Float(_)) => Err(Halt::Float),
                    (Value::Float(_), _) => {
                        let m = message("'", &vb, false, "' is not a Float");
                        Err(Halt::Failed(copy_span(&b.1), m))
                    },
                    _ => {
                        let m = message("'", &va, false, "' is not a Float");
                        Err(Halt::Failed(copy_span(&a.1), m))
                    },
                },
            }
        },
        _ => Err(Halt::Panic),
    }
}

} // verus!
