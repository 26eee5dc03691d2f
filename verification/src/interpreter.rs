//! The second generation's tree-walking interpreter.
//!
//! Evaluation reduces an expression to an atom and records, in order, what
//! the built-in `print` and `println` write. A floating-point number is held
//! as its text, and evaluation stops where a floating-point operation would
//! be computed. A name that no known function has is an error; a known name
//! or a `let` stops evaluation: their evaluation needs operations on
//! functions (binding arguments, making a local scope, turning a function into
//! an application) that the language does not define yet.
use vstd::prelude::*;
use vstd::string::StringExecFns;
use crate::error::{Error, ErrorKind};
use crate::parser::{BuiltIn, builtin_name};
use crate::position::{Pos, Span, Spanned};
use crate::scanner::{KeyWord, span_view};
use crate::scanner::model::SpanV;
use crate::scanner::model::keyword_text;
use crate::text::{decimal, push_char, push_decimal, str_eq, string_of};

verus! {

/// A value: an integer, a floating-point number by its text, a string, a
/// keyword, a truth value, or a built-in function.
#[derive(Debug, PartialEq)]
pub enum Atom {
    Int(i32),
    Float(String),
    String(String),
    Keyword(KeyWord),
    Boolean(bool),
    BuiltIn(BuiltIn),
}

/// An expression of the second language.
#[derive(Debug, PartialEq)]
pub enum Expr {
    Constant(Atom),
    /// A function and its arguments.
    Application(Box<Expr>, Vec<Spanned<Expr>>),
    /// A function's name, parameters and body.
    Function(Spanned<String>, Vec<Spanned<String>>, Box<Spanned<Expr>>),
    /// A function's or parameter's name.
    Local(Spanned<String>),
    Do(Vec<Spanned<Expr>>),
    /// Definitions, then the body.
    Let(Vec<Spanned<Expr>>, Box<Spanned<Expr>>),
    If(Box<Spanned<Expr>>, Box<Spanned<Expr>>),
    IfElse(Box<Spanned<Expr>>, Box<Spanned<Expr>>, Box<Spanned<Expr>>),
}

/// An atom with its texts as character sequences.
pub enum AtomV {
    Int(i32),
    Float(Seq<char>),
    Str(Seq<char>),
    Keyword(KeyWord),
    Boolean(bool),
    BuiltIn(BuiltIn),
}

/// The view of an atom.
pub open spec fn atom_view(a: Atom) -> AtomV {
    match a {
        Atom::Int(i) => AtomV::Int(i),
        Atom::Float(s) => AtomV::Float(s@),
        Atom::String(s) => AtomV::Str(s@),
        Atom::Keyword(k) => AtomV::Keyword(k),
        Atom::Boolean(b) => AtomV::Boolean(b),
        Atom::BuiltIn(b) => AtomV::BuiltIn(b),
    }
}

/// An integer in decimal, with a minus sign when negative.
pub open spec fn int_text(i: int) -> Seq<char> {
    if i < 0 {
        seq!['-'] + decimal((-i) as nat)
    } else {
        decimal(i as nat)
    }
}

/// `kind(inner)`.
pub open spec fn wrapped(kind: Seq<char>, inner: Seq<char>) -> Seq<char> {
    kind + seq!['('] + inner + seq![')']
}

/// How an atom is written: its kind with its value in brackets (a
/// floating-point number by its text).
pub open spec fn atom_text(a: AtomV) -> Seq<char> {
    match a {
        AtomV::Int(i) => wrapped("Int"@, int_text(i as int)),
        AtomV::Float(s) => wrapped("Float"@, s),
        AtomV::Str(s) => wrapped("String"@, s),
        AtomV::Keyword(k) => wrapped("Keyword"@, keyword_text(k)),
        AtomV::Boolean(b) => wrapped("Boolean"@, if b { "true"@ } else { "false"@ }),
        AtomV::BuiltIn(b) => wrapped("BuiltIn"@, builtin_name(b)),
    }
}

/// How a constant expression is written in messages.
pub open spec fn const_text(a: AtomV) -> Seq<char> {
    "Const("@ + atom_text(a) + ")"@
}

/// An error that evaluation reports.
pub enum Failure {
    /// A message with its kind and the span it concerns.
    Located(Seq<char>, ErrorKind, SpanV),
    /// A bare message.
    Plain(Seq<char>),
}

/// Why evaluation stops without a value.
pub enum HaltV {
    Failed(Failure),
    /// A floating-point operation would be computed here.
    Float,
    /// A known function's name or a `let`: the language defines no
    /// evaluation of them.
    Undefined,
    /// Evaluation cannot go on: an integer overflow, a division by zero, a
    /// print of nothing, or a function definition met as a value.
    Panic,
}

/// What evaluation writes and gives: the atoms printed, each with whether a
/// newline follows it, and the value or why there is none.
pub type Outcome = (Seq<(AtomV, bool)>, Result<AtomV, HaltV>);

/// The values of evaluated arguments, each with the span of its expression.
pub type Vals = Seq<(AtomV, SpanV)>;

/// The span that an empty list of expressions gets.
pub open spec fn no_span() -> SpanV {
    (Pos { idx: 0, col: 0, row: 0 }, Pos { idx: 0, col: 0, row: 0 }, Seq::empty())
}

/// An error located at `span`.
pub open spec fn located(msg: Seq<char>, kind: ErrorKind, span: SpanV) -> HaltV {
    HaltV::Failed(Failure::Located(msg, kind, span))
}

/// The first place from `i` on whose value is not an integer, if any.
pub open spec fn first_not_int(vals: Vals, i: int) -> Option<int>
    decreases vals.len() - i,
{
    if i < 0 || i >= vals.len() {
        None
    } else if vals[i].0 is Int {
        first_not_int(vals, i + 1)
    } else {
        Some(i)
    }
}

/// The first place from `i` on whose value is not a floating-point number,
/// if any.
pub open spec fn first_not_float(vals: Vals, i: int) -> Option<int>
    decreases vals.len() - i,
{
    if i < 0 || i >= vals.len() {
        None
    } else if vals[i].0 is Float {
        first_not_float(vals, i + 1)
    } else {
        Some(i)
    }
}

/// The type error for the value at `i`, which is not of kind `kind`.
pub open spec fn type_error(vals: Vals, i: int, kind: Seq<char>) -> HaltV {
    located(const_text(vals[i].0) + " is not '"@ + kind + "'"@, ErrorKind::TypeError, vals[i].1)
}

/// Whether an integer fits an `i32`.
pub open spec fn fits(v: int) -> bool {
    i32::MIN <= v <= i32::MAX
}

/// The integer of an integer atom.
pub open spec fn int_of(a: AtomV) -> int {
    match a {
        AtomV::Int(i) => i as int,
        _ => 0,
    }
}

/// Rust's division of integers: the quotient rounded toward zero.
pub open spec fn trunc_div(a: int, b: int) -> int {
    if a >= 0 {
        if b > 0 {
            a / b
        } else {
            -(a / -b)
        }
    } else {
        if b > 0 {
            -((-a) / b)
        } else {
            (-a) / (-b)
        }
    }
}

/// Folding the integers of `vals[0..k]` with `op`: 0 sums them and 1 takes
/// their product (from 0 and 1), 2 subtracts and 3 divides the later ones
/// from the first, in order; `None` where a step leaves the range of an
/// `i32` or divides by zero.
pub open spec fn fold_ints(vals: Vals, op: nat, k: int) -> Option<int>
    decreases k,
{
    if k <= 0 {
        if op == 0 {
            Some(0)
        } else if op == 1 {
            Some(1)
        } else {
            None
        }
    } else if k == 1 && op >= 2 {
        Some(int_of(vals[0].0))
    } else {
        match fold_ints(vals, op, k - 1) {
            None => None,
            Some(a) => {
                let b = int_of(vals[k - 1].0);
                if op == 3 && b == 0 {
                    None
                } else {
                    let v = if op == 0 {
                        a + b
                    } else if op == 1 {
                        a * b
                    } else if op == 2 {
                        a - b
                    } else {
                        trunc_div(a, b)
                    };
                    if fits(v) {
                        Some(v)
                    } else {
                        None
                    }
                }
            },
        }
    }
}

/// Whether each integer among `vals[0..k]` equals the one before it
/// (`same`), or differs from it (`!same`).
pub open spec fn neighbours(vals: Vals, k: int, same: bool) -> bool
    decreases k,
{
    if k <= 1 {
        true
    } else {
        neighbours(vals, k - 1, same) && (int_of(vals[k - 2].0) == int_of(vals[k - 1].0)) == same
    }
}

/// What a built-in function gives for its evaluated arguments.
pub open spec fn apply(b: BuiltIn, vals: Vals) -> Outcome {
    let n = vals.len() as int;
    let int_path = n > 0 && vals[0].0 is Int;
    let none = Seq::<(AtomV, bool)>::empty();
    match b {
        BuiltIn::Not => if n != 1 {
            (none, Err(HaltV::Failed(Failure::Plain("Nothing on Rhs."@))))
        } else {
            match vals[0].0 {
                AtomV::Boolean(v) => (none, Ok(AtomV::Boolean(!v))),
                _ => (none, Err(type_error(vals, 0, "Boolean"@))),
            }
        },
        BuiltIn::Print | BuiltIn::PrintLn => {
            let printed = vals.map_values(|v: (AtomV, SpanV)| (v.0, b == BuiltIn::PrintLn));
            if n == 0 {
                (printed, Err(HaltV::Panic))
            } else {
                (printed, Ok(vals[0].0))
            }
        },
        _ => if int_path {
            match first_not_int(vals, 0) {
                Some(i) => (none, Err(type_error(vals, i, "Int"@))),
                None => match b {
                    BuiltIn::Eq => (none, Ok(AtomV::Boolean(neighbours(vals, n, true)))),
                    BuiltIn::NEq => (none, Ok(AtomV::Boolean(neighbours(vals, n, false)))),
                    _ => {
                        let op: nat = if b == BuiltIn::Plus {
                            0
                        } else if b == BuiltIn::Mult {
                            1
                        } else if b == BuiltIn::Mins {
                            2
                        } else {
                            3
                        };
                        match fold_ints(vals, op, n) {
                            Some(v) => (none, Ok(AtomV::Int(v as i32))),
                            None => (none, Err(HaltV::Panic)),
                        }
                    },
                },
            }
        } else {
            match first_not_float(vals, 0) {
                Some(i) => (none, Err(type_error(vals, i, "Float"@))),
                None => if n == 0 && (b == BuiltIn::Eq || b == BuiltIn::NEq) {
                    (none, Ok(AtomV::Boolean(false)))
                } else if n == 0 && (b == BuiltIn::Mins || b == BuiltIn::Div || b == BuiltIn::Plus) {
                    (none, Ok(AtomV::Float("0"@)))
                } else if n == 0 && b == BuiltIn::Mult {
                    (none, Ok(AtomV::Float("1"@)))
                } else if n == 1 && (b == BuiltIn::Eq || b == BuiltIn::NEq) {
                    (none, Ok(AtomV::Boolean(true)))
                } else if n == 1 && (b == BuiltIn::Mins || b == BuiltIn::Div || b == BuiltIn::Mult) {
                    (none, Ok(vals[0].0))
                } else {
                    (none, Err(HaltV::Float))
                },
            }
        },
    }
}

/// `print` and `println` write their arguments in order, each one value;
/// `println` ends each with a newline and `print` none. They give back the
/// first argument.
pub proof fn law_print_newlines(vals: Vals)
    ensures
        apply(BuiltIn::PrintLn, vals).0.len() == vals.len(),
        apply(BuiltIn::Print, vals).0.len() == vals.len(),
        forall|k: int| 0 <= k < vals.len() ==> #[trigger] apply(BuiltIn::PrintLn, vals).0[k] == (vals[k].0, true),
        forall|k: int| 0 <= k < vals.len() ==> #[trigger] apply(BuiltIn::Print, vals).0[k] == (vals[k].0, false),
        vals.len() > 0 ==> apply(BuiltIn::PrintLn, vals).1 == Ok::<AtomV, HaltV>(vals[0].0),
        vals.len() > 0 ==> apply(BuiltIn::Print, vals).1 == Ok::<AtomV, HaltV>(vals[0].0),
{
}

/// Evaluating an expression.
pub open spec fn eval(e: Expr, known: Seq<String>) -> Outcome
    decreases e,
{
    let none = Seq::<(AtomV, bool)>::empty();
    match e {
        Expr::Constant(a) => (none, Ok(atom_view(a))),
        Expr::Application(head, tail) => {
            let (p1, r1) = eval(*head, known);
            match r1 {
                Err(h) => (p1, Err(h)),
                Ok(hv) => {
                    let (p2, r2) = eval_seq(tail@, known);
                    match r2 {
                        Err(h) => (p1 + p2, Err(h)),
                        Ok(vals) => match hv {
                            AtomV::BuiltIn(b) => {
                                let (p3, r3) = apply(b, vals);
                                (p1 + p2 + p3, r3)
                            },
                            _ => (p1 + p2, Ok(hv)),
                        },
                    }
                },
            }
        },
        Expr::Function(..) => (none, Err(HaltV::Panic)),
        Expr::Local(n) => if knows(known, n.node@) {
            (none, Err(HaltV::Undefined))
        } else {
            (none, Err(located("'"@ + n.node@ + "' not found"@, ErrorKind::Undefined, span_view(n.span))))
        },
        Expr::Let(..) => (none, Err(HaltV::Undefined)),
        Expr::Do(list) => {
            let (p, r) = eval_seq(list@, known);
            match r {
                Err(h) => (p, Err(h)),
                Ok(vals) => if vals.len() == 0 {
                    (p, Err(located("nothing to return from do block"@, ErrorKind::EmptyReturn, no_span())))
                } else {
                    (p, Ok(vals.last().0))
                },
            }
        },
        Expr::If(c, body) => {
            let (p1, r1) = eval(c.node, known);
            match r1 {
                Err(h) => (p1, Err(h)),
                Ok(AtomV::Boolean(true)) => {
                    let (p2, r2) = eval(body.node, known);
                    (p1 + p2, r2)
                },
                Ok(AtomV::Boolean(false)) => (
                    p1,
                    Err(located("conditional may need a else statement"@, ErrorKind::EmptyReturn, span_view(c.span))),
                ),
                Ok(v) => (p1, Err(located(const_text(v) + " is not 'Boolean'"@, ErrorKind::TypeError, span_view(c.span)))),
            }
        },
        Expr::IfElse(c, body, other) => {
            let (p1, r1) = eval(c.node, known);
            match r1 {
                Err(h) => (p1, Err(h)),
                Ok(AtomV::Boolean(true)) => {
                    let (p2, r2) = eval(body.node, known);
                    (p1 + p2, r2)
                },
                Ok(AtomV::Boolean(false)) => {
                    let (p2, r2) = eval(other.node, known);
                    (p1 + p2, r2)
                },
                Ok(v) => (p1, Err(located(const_text(v) + " is not 'Boolean'"@, ErrorKind::TypeError, span_view(c.span)))),
            }
        },
    }
}

/// Evaluating expressions in order until one stops: what they print, and
/// their values with their spans.
pub open spec fn eval_seq(es: Seq<Spanned<Expr>>, known: Seq<String>) -> (Seq<(AtomV, bool)>, Result<Vals, HaltV>)
    decreases es,
{
    if es.len() == 0 {
        (Seq::empty(), Ok(Seq::empty()))
    } else {
        let init = es.subrange(0, es.len() - 1);
        let (p, r) = eval_seq(init, known);
        match r {
            Err(h) => (p, Err(h)),
            Ok(vals) => {
                let last = es[es.len() - 1];
                let (p2, r2) = eval(last.node, known);
                match r2 {
                    Err(h) => (p + p2, Err(h)),
                    Ok(v) => (p + p2, Ok(vals.push((v, span_view(last.span))))),
                }
            },
        }
    }
}

/// A named function: its parameters, the arguments bound so far, its body,
/// and the span it was defined at.
#[derive(Debug)]
pub struct Function {
    pub name: String,
    pub prams: Vec<Spanned<String>>,
    pub bound_args: Vec<(Spanned<String>, Expr)>,
    pub body: Expr,
    pub span: Span,
}

impl Function {
    /// A function with nothing bound yet.
    pub fn new(name: &str, prams: &[Spanned<String>], body: Expr, span: Span) -> (r: Self)
        ensures
            r.name@ == name@,
            r.prams@.len() == prams@.len(),
            forall|i: int|
                0 <= i < prams@.len() ==> #[trigger] r.prams@[i].node@ == prams@[i].node@ && r.prams@[i].span
                    == prams@[i].span,
            r.bound_args@.len() == 0,
            r.body == body,
            r.span == span,
    {
        let mut copied: Vec<Spanned<String>> = Vec::new();
        let mut k: usize = 0;
        while k < prams.len()
            invariant
                k <= prams@.len(),
                copied@.len() == k,
                forall|i: int|
                    0 <= i < k ==> #[trigger] copied@[i].node@ == prams@[i].node@ && copied@[i].span
                        == prams@[i].span,
            decreases prams@.len() - k,
        {
            copied.push(Spanned::new(prams[k].node.clone(), prams[k].span.clone()));
            k = k + 1;
        }
        Function { name: string_of(name), prams: copied, bound_args: Vec::new(), body, span }
    }

    /// The parameters.
    pub fn prams(&self) -> (r: &[Spanned<String>])
        ensures
            r@ == self.prams@,
    {
        self.prams.as_slice()
    }

    /// The body.
    pub fn body(&self) -> (r: &Expr)
        ensures
            *r == self.body,
    {
        &self.body
    }
}

/// The view of evaluated arguments.
pub open spec fn vals_view(v: Seq<(Atom, Span)>) -> Vals {
    v.map_values(|x: (Atom, Span)| (atom_view(x.0), span_view(x.1)))
}

/// An error that evaluation reports.
#[derive(Debug)]
pub enum EvalError {
    /// A message with its kind and the span it concerns.
    Located(Error),
    /// A bare message.
    Plain(String),
}

/// Why evaluation stopped without a value.
#[derive(Debug)]
pub enum Halt {
    Failed(EvalError),
    /// A floating-point operation would be computed here.
    Float,
    /// A known function's name or a `let`: the language defines no
    /// evaluation of them.
    Undefined,
    /// Evaluation cannot go on.
    Panic,
}

/// The view of a halt.
pub open spec fn halt_view(h: Halt) -> HaltV {
    match h {
        Halt::Failed(EvalError::Located(e)) => located(e.msg(), e.spec_kind(), span_view(e.spec_span())),
        Halt::Failed(EvalError::Plain(m)) => HaltV::Failed(Failure::Plain(m@)),
        Halt::Float => HaltV::Float,
        Halt::Undefined => HaltV::Undefined,
        Halt::Panic => HaltV::Panic,
    }
}

/// An atom that `print` (no newline after it) or `println` writes.
#[derive(Debug)]
pub struct Printed {
    pub atom: Atom,
    pub newline: bool,
}

/// The view of printed atoms.
pub open spec fn printed_view(p: Seq<Printed>) -> Seq<(AtomV, bool)> {
    p.map_values(|x: Printed| (atom_view(x.atom), x.newline))
}

/// What evaluation wrote and gave.
#[derive(Debug)]
pub struct Evaluated {
    pub printed: Vec<Printed>,
    pub result: Result<Atom, Halt>,
}

/// The view of a result.
pub open spec fn result_view(r: Result<Atom, Halt>) -> Result<AtomV, HaltV> {
    match r {
        Ok(a) => Ok(atom_view(a)),
        Err(h) => Err(halt_view(h)),
    }
}

/// The view of an evaluation.
pub open spec fn outcome_view(r: Evaluated) -> Outcome {
    (printed_view(r.printed@), result_view(r.result))
}

/// A copy of an atom.
fn copy_atom(a: &Atom) -> (r: Atom)
    ensures
        atom_view(r) == atom_view(*a),
{
    match a {
        Atom::Int(i) => Atom::Int(*i),
        Atom::Float(s) => Atom::Float(s.clone()),
        Atom::String(s) => Atom::String(s.clone()),
        Atom::Keyword(k) => Atom::Keyword(*k),
        Atom::Boolean(b) => Atom::Boolean(*b),
        Atom::BuiltIn(b) => Atom::BuiltIn(*b),
    }
}

/// An integer in decimal.
fn int_text_exec(i: i32) -> (r: String)
    ensures
        r@ == int_text(i as int),
{
    let mut s = String::new();
    if i < 0 {
        push_char(&mut s, '-');
        let m: i64 = -(i as i64);
        push_decimal(&mut s, m as usize);
    } else {
        push_decimal(&mut s, i as usize);
    }
    s
}

/// `kind(inner)`.
fn wrap_exec(kind: &str, inner: &str) -> (r: String)
    ensures
        r@ == wrapped(kind@, inner@),
{
    let mut s = string_of(kind);
    push_char(&mut s, '(');
    s.append(inner);
    push_char(&mut s, ')');
    assert(s@ =~= wrapped(kind@, inner@));
    s
}

/// How an atom is written.
pub fn atom_text_exec(a: &Atom) -> (r: String)
    ensures
        r@ == atom_text(atom_view(*a)),
{
    match a {
        Atom::Int(i) => {
            let t = int_text_exec(*i);
            wrap_exec("Int", t.as_str())
        },
        Atom::Float(s) => wrap_exec("Float", s.as_str()),
        Atom::String(s) => wrap_exec("String", s.as_str()),
        Atom::Keyword(k) => wrap_exec("Keyword", k.text()),
        Atom::Boolean(b) => wrap_exec("Boolean", if *b { "true" } else { "false" }),
        Atom::BuiltIn(b) => wrap_exec("BuiltIn", b.name()),
    }
}

/// An evaluation that printed nothing.
fn quiet(result: Result<Atom, Halt>) -> (r: Evaluated)
    ensures
        r.printed@.len() == 0,
        r.result == result,
{
    Evaluated { printed: Vec::new(), result }
}

/// How a constant expression is written in messages.
fn const_text_exec(a: &Atom) -> (r: String)
    ensures
        r@ == const_text(atom_view(*a)),
{
    let mut m = string_of("Const(");
    let t = atom_text_exec(a);
    m.append(t.as_str());
    m.append(")");
    m
}

/// The type error for the value at `i`.
fn type_error_exec(vals: &Vec<(Atom, Span)>, i: usize, kind: &str) -> (r: Halt)
    requires
        i < vals@.len(),
    ensures
        halt_view(r) == type_error(vals_view(vals@), i as int, kind@),
{
    let mut m = const_text_exec(&vals[i].0);
    m.append(" is not '");
    m.append(kind);
    m.append("'");
    Halt::Failed(EvalError::Located(Error::new(m.as_str(), vals[i].1.clone(), ErrorKind::TypeError)))
}

/// The first place whose value is not an integer (`floats` false) or not a
/// floating-point number (`floats` true), if any.
fn find_other(vals: &Vec<(Atom, Span)>, floats: bool) -> (r: Option<usize>)
    ensures
        match r {
            Some(i) => (i as int) < vals@.len() && Some(i as int) == if floats {
                first_not_float(vals_view(vals@), 0)
            } else {
                first_not_int(vals_view(vals@), 0)
            },
            None => if floats {
                first_not_float(vals_view(vals@), 0) is None
            } else {
                first_not_int(vals_view(vals@), 0) is None
            },
        },
{
    let ghost vs = vals_view(vals@);
    let mut k: usize = 0;
    while k < vals.len()
        invariant
            k <= vals@.len(),
            vs == vals_view(vals@),
            floats ==> first_not_float(vs, 0) == first_not_float(vs, k as int),
            !floats ==> first_not_int(vs, 0) == first_not_int(vs, k as int),
        decreases vals@.len() - k,
    {
        let fits_kind = match &vals[k].0 {
            Atom::Int(_) => !floats,
            Atom::Float(_) => floats,
            _ => false,
        };
        if !fits_kind {
            return Some(k);
        }
        k = k + 1;
    }
    None
}

/// The integer of an integer atom.
fn int_exec(a: &Atom) -> (r: i32)
    ensures
        r as int == int_of(atom_view(*a)),
{
    match a {
        Atom::Int(i) => *i,
        _ => 0,
    }
}

/// Division rounded toward zero.
fn trunc_div_exec(a: i64, b: i64) -> (r: i64)
    requires
        b != 0,
        -0x1_0000_0000 <= a <= 0x1_0000_0000,
        -0x1_0000_0000 <= b <= 0x1_0000_0000,
    ensures
        r as int == trunc_div(a as int, b as int),
{
    let ua: u64 = if a < 0 {
        (-a) as u64
    } else {
        a as u64
    };
    let ub: u64 = if b < 0 {
        (-b) as u64
    } else {
        b as u64
    };
    let q: u64 = ua / ub;
    assert(q <= ua);
    if (a >= 0) == (b > 0) {
        q as i64
    } else {
        -(q as i64)
    }
}

/// A fold that fails stays failed.
proof fn lemma_fold_none(vals: Vals, op: nat, k: int, m: int)
    requires
        1 <= k <= m,
        fold_ints(vals, op, k) is None,
    ensures
        fold_ints(vals, op, m) is None,
    decreases m - k,
{
    if k < m {
        lemma_fold_none(vals, op, k, m - 1);
    }
}

/// Folds the integers with `op`, as `fold_ints` says.
fn fold_exec(vals: &Vec<(Atom, Span)>, op: u8) -> (r: Option<i32>)
    requires
        op <= 3,
        vals@.len() > 0,
    ensures
        match r {
            Some(v) => fold_ints(vals_view(vals@), op as nat, vals@.len() as int) == Some(v as int),
            None => fold_ints(vals_view(vals@), op as nat, vals@.len() as int) is None,
        },
{
    let ghost vs = vals_view(vals@);
    let n = vals.len();
    let mut acc: i32;
    let mut k: usize;
    if op >= 2 {
        acc = int_exec(&vals[0].0);
        k = 1;
    } else {
        acc = if op == 0 { 0 } else { 1 };
        k = 0;
    }
    assert(fold_ints(vs, op as nat, k as int) == Some(acc as int));
    while k < n
        invariant
            n == vals@.len(),
            vs == vals_view(vals@),
            op <= 3,
            0 <= k <= n,
            k >= 1 || op < 2,
            fold_ints(vs, op as nat, k as int) == Some(acc as int),
        decreases n - k,
    {
        let a = acc as i64;
        let b = int_exec(&vals[k].0) as i64;
        assert(vs[k as int].0 == atom_view(vals@[k as int].0));
        if op == 3 && b == 0 {
            proof {
                lemma_fold_none(vs, op as nat, k + 1, n as int);
            }
            return None;
        }
        assert(-0x4000_0000_0000_0000 <= a * b <= 0x4000_0000_0000_0000) by (nonlinear_arith)
            requires
                -0x8000_0000 <= a <= 0x8000_0000,
                -0x8000_0000 <= b <= 0x8000_0000,
        ;
        let v: i64 = if op == 0 {
            a + b
        } else if op == 1 {
            a * b
        } else if op == 2 {
            a - b
        } else {
            trunc_div_exec(a, b)
        };
        if v < i32::MIN as i64 || v > i32::MAX as i64 {
            proof {
                lemma_fold_none(vs, op as nat, k + 1, n as int);
            }
            return None;
        }
        acc = v as i32;
        k = k + 1;
    }
    Some(acc)
}

/// Whether each integer equals the one before it (`same`), or differs from
/// it (`!same`).
fn neighbours_exec(vals: &Vec<(Atom, Span)>, same: bool) -> (r: bool)
    ensures
        r == neighbours(vals_view(vals@), vals@.len() as int, same),
{
    let ghost vs = vals_view(vals@);
    let mut eq = true;
    let mut k: usize = 1;
    if vals.len() == 0 {
        return true;
    }
    while k < vals.len()
        invariant
            1 <= k <= vals@.len(),
            vs == vals_view(vals@),
            eq == neighbours(vs, k as int, same),
        decreases vals@.len() - k,
    {
        let equal = int_exec(&vals[k - 1].0) == int_exec(&vals[k].0);
        assert(vs[k - 1].0 == atom_view(vals@[k - 1].0));
        assert(vs[k as int].0 == atom_view(vals@[k as int].0));
        eq = eq && (equal == same);
        k = k + 1;
    }
    eq
}

/// What a built-in function gives for its evaluated arguments.
fn apply_exec(b: BuiltIn, vals: &Vec<(Atom, Span)>) -> (r: Evaluated)
    ensures
        outcome_view(r) == apply(b, vals_view(vals@)),
{
    let ghost vs = vals_view(vals@);
    let n = vals.len();
    proof {
        assert(printed_view(Seq::<Printed>::empty()) =~= Seq::<(AtomV, bool)>::empty());
    }
    match b {
        BuiltIn::Not => {
            if n != 1 {
                return quiet(Err(Halt::Failed(EvalError::Plain(string_of("Nothing on Rhs.")))));
            }
            assert(vs[0].0 == atom_view(vals@[0].0));
            match &vals[0].0 {
                Atom::Boolean(v) => quiet(Ok(Atom::Boolean(!*v))),
                _ => quiet(Err(type_error_exec(vals, 0, "Boolean"))),
            }
        },
        BuiltIn::Print | BuiltIn::PrintLn => {
            let newline = b == BuiltIn::PrintLn;
            let mut printed: Vec<Printed> = Vec::new();
            let mut k: usize = 0;
            while k < n
                invariant
                    n == vals@.len(),
                    vs == vals_view(vals@),
                    k <= n,
                    newline == (b == BuiltIn::PrintLn),
                    printed_view(printed@) == vs.subrange(0, k as int).map_values(
                        |v: (AtomV, SpanV)| (v.0, b == BuiltIn::PrintLn),
                    ),
                decreases n - k,
            {
                let atom = copy_atom(&vals[k].0);
                assert(vs[k as int].0 == atom_view(vals@[k as int].0));
                let ghost before = printed@;
                printed.push(Printed { atom, newline });
                assert(printed_view(printed@) =~= printed_view(before).push((vs[k as int].0, newline)));
                assert(vs.subrange(0, k + 1).map_values(|v: (AtomV, SpanV)| (v.0, b == BuiltIn::PrintLn))
                    =~= vs.subrange(0, k as int).map_values(|v: (AtomV, SpanV)| (v.0, b == BuiltIn::PrintLn)).push(
                    (vs[k as int].0, newline),
                ));
                assert(printed_view(printed@) =~= vs.subrange(0, k + 1).map_values(
                    |v: (AtomV, SpanV)| (v.0, b == BuiltIn::PrintLn),
                ));
                k = k + 1;
            }
            assert(vs.subrange(0, n as int) =~= vs);
            if n == 0 {
                Evaluated { printed, result: Err(Halt::Panic) }
            } else {
                assert(vs[0].0 == atom_view(vals@[0].0));
                let first = copy_atom(&vals[0].0);
                Evaluated { printed, result: Ok(first) }
            }
        },
        _ => {
            let int_path = n > 0 && match &vals[0].0 {
                Atom::Int(_) => true,
                _ => false,
            };
            proof {
                if n > 0 {
                    assert(vs[0].0 == atom_view(vals@[0].0));
                }
            }
            if int_path {
                match find_other(vals, false) {
                    Some(i) => quiet(Err(type_error_exec(vals, i, "Int"))),
                    None => {
                        if b == BuiltIn::Eq {
                            quiet(Ok(Atom::Boolean(neighbours_exec(vals, true))))
                        } else if b == BuiltIn::NEq {
                            quiet(Ok(Atom::Boolean(neighbours_exec(vals, false))))
                        } else {
                            let op: u8 = if b == BuiltIn::Plus {
                                0
                            } else if b == BuiltIn::Mult {
                                1
                            } else if b == BuiltIn::Mins {
                                2
                            } else {
                                3
                            };
                            match fold_exec(vals, op) {
                                Some(v) => quiet(Ok(Atom::Int(v))),
                                None => quiet(Err(Halt::Panic)),
                            }
                        }
                    },
                }
            } else {
                match find_other(vals, true) {
                    Some(i) => quiet(Err(type_error_exec(vals, i, "Float"))),
                    None => {
                        if n == 0 && (b == BuiltIn::Eq || b == BuiltIn::NEq) {
                            quiet(Ok(Atom::Boolean(false)))
                        } else if n == 0 && (b == BuiltIn::Mins || b == BuiltIn::Div || b == BuiltIn::Plus) {
                            quiet(Ok(Atom::Float(string_of("0"))))
                        } else if n == 0 && b == BuiltIn::Mult {
                            quiet(Ok(Atom::Float(string_of("1"))))
                        } else if n == 1 && (b == BuiltIn::Eq || b == BuiltIn::NEq) {
                            quiet(Ok(Atom::Boolean(true)))
                        } else if n == 1 && (b == BuiltIn::Mins || b == BuiltIn::Div || b == BuiltIn::Mult) {
                            assert(vs[0].0 == atom_view(vals@[0].0));
                            quiet(Ok(copy_atom(&vals[0].0)))
                        } else {
                            quiet(Err(Halt::Float))
                        }
                    },
                }
            }
        },
    }
}

/// Appends what `more` printed to `printed`.
fn append_printed(printed: &mut Vec<Printed>, more: Vec<Printed>)
    ensures
        printed_view(final(printed)@) == printed_view(old(printed)@) + printed_view(more@),
{
    let mut more = more;
    let ghost a = printed@;
    let ghost b = more@;
    printed.append(&mut more);
    assert(printed@ == a + b);
    assert(printed_view(a + b) =~= printed_view(a) + printed_view(b));
}

/// Evaluates an expression.
fn eval_exec(e: &Expr, known: &Vec<String>) -> (r: Evaluated)
    ensures
        outcome_view(r) == eval(*e, known@),
    decreases *e,
{
    proof {
        assert(printed_view(Seq::<Printed>::empty()) =~= Seq::<(AtomV, bool)>::empty());
    }
    match e {
        Expr::Constant(a) => quiet(Ok(copy_atom(a))),
        Expr::Application(head, tail) => {
            let first = eval_exec(head, known);
            let mut printed = first.printed;
            match first.result {
                Err(h) => Evaluated { printed, result: Err(h) },
                Ok(hv) => {
                    let (more, rest) = eval_seq_exec(tail, known);
                    append_printed(&mut printed, more);
                    match rest {
                        Err(h) => Evaluated { printed, result: Err(h) },
                        Ok(vals) => match hv {
                            Atom::BuiltIn(b) => {
                                let applied = apply_exec(b, &vals);
                                append_printed(&mut printed, applied.printed);
                                Evaluated { printed, result: applied.result }
                            },
                            other => Evaluated { printed, result: Ok(other) },
                        },
                    }
                },
            }
        },
        Expr::Function(..) => quiet(Err(Halt::Panic)),
        Expr::Local(n) => {
            if knows_exec(known, &n.node) {
                quiet(Err(Halt::Undefined))
            } else {
                let mut m = string_of("'");
                m.append(n.node.as_str());
                m.append("' not found");
                let error = Error::new(m.as_str(), n.span.clone(), ErrorKind::Undefined);
                quiet(Err(Halt::Failed(EvalError::Located(error))))
            }
        },
        Expr::Let(..) => quiet(Err(Halt::Undefined)),
        Expr::Do(list) => {
            let (printed, rest) = eval_seq_exec(list, known);
            match rest {
                Err(h) => Evaluated { printed, result: Err(h) },
                Ok(vals) => {
                    if vals.len() == 0 {
                        let span = Span {
                            start: Pos { idx: 0, col: 0, row: 0 },
                            end: Pos { idx: 0, col: 0, row: 0 },
                            loc: String::new(),
                        };
                        let error = Error::new("nothing to return from do block", span, ErrorKind::EmptyReturn);
                        Evaluated { printed, result: Err(Halt::Failed(EvalError::Located(error))) }
                    } else {
                        let last = vals.len() - 1;
                        let value = copy_atom(&vals[last].0);
                        Evaluated { printed, result: Ok(value) }
                    }
                },
            }
        },
        Expr::If(c, body) => {
            let cond = eval_exec(&c.node, known);
            let mut printed = cond.printed;
            match cond.result {
                Err(h) => Evaluated { printed, result: Err(h) },
                Ok(Atom::Boolean(true)) => {
                    let then = eval_exec(&body.node, known);
                    append_printed(&mut printed, then.printed);
                    Evaluated { printed, result: then.result }
                },
                Ok(Atom::Boolean(false)) => {
                    let error = Error::new("conditional may need a else statement", c.span.clone(), ErrorKind::EmptyReturn);
                    Evaluated { printed, result: Err(Halt::Failed(EvalError::Located(error))) }
                },
                Ok(v) => {
                    let mut m = const_text_exec(&v);
                    m.append(" is not 'Boolean'");
                    let error = Error::new(m.as_str(), c.span.clone(), ErrorKind::TypeError);
                    Evaluated { printed, result: Err(Halt::Failed(EvalError::Located(error))) }
                },
            }
        },
        Expr::IfElse(c, body, other) => {
            let cond = eval_exec(&c.node, known);
            let mut printed = cond.printed;
            match cond.result {
                Err(h) => Evaluated { printed, result: Err(h) },
                Ok(Atom::Boolean(true)) => {
                    let then = eval_exec(&body.node, known);
                    append_printed(&mut printed, then.printed);
                    Evaluated { printed, result: then.result }
                },
                Ok(Atom::Boolean(false)) => {
                    let otherwise = eval_exec(&other.node, known);
                    append_printed(&mut printed, otherwise.printed);
                    Evaluated { printed, result: otherwise.result }
                },
                Ok(v) => {
                    let mut m = const_text_exec(&v);
                    m.append(" is not 'Boolean'");
                    let error = Error::new(m.as_str(), c.span.clone(), ErrorKind::TypeError);
                    Evaluated { printed, result: Err(Halt::Failed(EvalError::Located(error))) }
                },
            }
        },
    }
}

/// Once a prefix of the expressions stops, longer prefixes stop the same way.
proof fn lemma_eval_seq_stop(s: Seq<Spanned<Expr>>, j: int, m: int, known: Seq<String>)
    requires
        0 <= j <= m <= s.len(),
        eval_seq(s.subrange(0, j), known).1 is Err,
    ensures
        eval_seq(s.subrange(0, m), known) == eval_seq(s.subrange(0, j), known),
    decreases m - j,
{
    if m > j {
        lemma_eval_seq_stop(s, j, m - 1, known);
        let p = s.subrange(0, m);
        assert(p.subrange(0, p.len() - 1) =~= s.subrange(0, m - 1));
    }
}

/// Evaluates expressions in order until one stops.
fn eval_seq_exec(es: &Vec<Spanned<Expr>>, known: &Vec<String>) -> (r: (Vec<Printed>, Result<Vec<(Atom, Span)>, Halt>))
    ensures
        (printed_view(r.0@), match r.1 {
            Ok(v) => Ok(vals_view(v@)),
            Err(h) => Err(halt_view(h)),
        }) == eval_seq(es@, known@),
    decreases es@,
{
    let mut printed: Vec<Printed> = Vec::new();
    let mut vals: Vec<(Atom, Span)> = Vec::new();
    let mut k: usize = 0;
    assert(es@.subrange(0, 0) =~= Seq::<Spanned<Expr>>::empty());
    assert(printed_view(printed@) =~= Seq::<(AtomV, bool)>::empty());
    assert(vals_view(vals@) =~= Seq::<(AtomV, SpanV)>::empty());
    while k < es.len()
        invariant
            k <= es@.len(),
            eval_seq(es@.subrange(0, k as int), known@) == (printed_view(printed@), Ok::<Vals, HaltV>(vals_view(vals@))),
        decreases es@.len() - k,
    {
        let ghost prefix = es@.subrange(0, k + 1);
        assert(prefix.subrange(0, prefix.len() - 1) =~= es@.subrange(0, k as int));
        assert(prefix[prefix.len() - 1] == es@[k as int]);
        let one = eval_exec(&es[k].node, known);
        append_printed(&mut printed, one.printed);
        match one.result {
            Err(h) => {
                assert(eval_seq(prefix, known@) == (printed_view(printed@), Err::<Vals, HaltV>(halt_view(h))));
                proof {
                    lemma_eval_seq_stop(es@, k + 1, es@.len() as int, known@);
                    assert(es@.subrange(0, es@.len() as int) =~= es@);
                }
                return (printed, Err(h));
            },
            Ok(v) => {
                let ghost before = vals@;
                vals.push((v, es[k].span.clone()));
                assert(vals_view(vals@) =~= vals_view(before).push((atom_view(v), span_view(es@[k as int].span))));
            },
        }
        k = k + 1;
    }
    assert(es@.subrange(0, k as int) =~= es@);
    (printed, Ok(vals))
}

/// The names of functions.
pub open spec fn fn_names(fs: Seq<Function>) -> Seq<String> {
    fs.map_values(|f: Function| f.name)
}

/// The names that evaluation can look up: the global functions', then the
/// local ones'.
pub open spec fn known_names(local: Seq<Function>, global: Seq<Function>) -> Seq<String> {
    fn_names(global) + fn_names(local)
}

/// Whether `name` is among `known`.
pub open spec fn knows(known: Seq<String>, name: Seq<char>) -> bool {
    exists|k: int| 0 <= k < known.len() && #[trigger] known[k]@ == name
}

/// Whether `name` is among `known`.
fn knows_exec(known: &Vec<String>, name: &String) -> (r: bool)
    ensures
        r == knows(known@, name@),
{
    let mut k: usize = 0;
    while k < known.len()
        invariant
            k <= known@.len(),
            forall|j: int| 0 <= j < k ==> known@[j]@ != name@,
        decreases known@.len() - k,
    {
        if str_eq(known[k].as_str(), name.as_str()) {
            return true;
        }
        k = k + 1;
    }
    false
}

/// The names of the global functions, then of the local ones.
fn known_exec(local: &Vec<Function>, global: &Vec<Function>) -> (r: Vec<String>)
    ensures
        r@ == known_names(local@, global@),
{
    let mut r: Vec<String> = Vec::new();
    let mut k: usize = 0;
    while k < global.len()
        invariant
            k <= global@.len(),
            r@ == fn_names(global@).subrange(0, k as int),
        decreases global@.len() - k,
    {
        r.push(global[k].name.clone());
        k = k + 1;
        assert(r@ =~= fn_names(global@).subrange(0, k as int));
    }
    assert(fn_names(global@).subrange(0, k as int) =~= fn_names(global@));
    let mut j: usize = 0;
    while j < local.len()
        invariant
            j <= local@.len(),
            r@ == fn_names(global@) + fn_names(local@).subrange(0, j as int),
        decreases local@.len() - j,
    {
        r.push(local[j].name.clone());
        j = j + 1;
        assert(r@ =~= fn_names(global@) + fn_names(local@).subrange(0, j as int));
    }
    assert(fn_names(local@).subrange(0, j as int) =~= fn_names(local@));
    r
}

/// Evaluates an expression with the functions `local` and `global` known by
/// name: what it prints, and its value or why there is none. Inputs on which
/// evaluation cannot go on, as `evaluation_panics` tells, are not accepted.
pub fn evaluation(expr: &Expr, local: &Vec<Function>, global: &Vec<Function>) -> (r: Evaluated)
    requires
        eval(*expr, known_names(local@, global@)).1 != Err::<AtomV, HaltV>(HaltV::Panic),
    ensures
        outcome_view(r) == eval(*expr, known_names(local@, global@)),
{
    let known = known_exec(local, global);
    eval_exec(expr, &known)
}

/// Whether evaluating `expr` cannot go on: an integer overflow, a
/// division by zero, a print of nothing, or a function definition met as a
/// value.
pub fn evaluation_panics(expr: &Expr, local: &Vec<Function>, global: &Vec<Function>) -> (r: bool)
    ensures
        r == (eval(*expr, known_names(local@, global@)).1 == Err::<AtomV, HaltV>(HaltV::Panic)),
{
    let known = known_exec(local, global);
    let r = eval_exec(expr, &known);
    match r.result {
        Err(Halt::Panic) => true,
        _ => false,
    }
}

} // verus!
