//! The second generation's grammar of expressions and functions, over the
//! second scanner's tokens.
//!
//! Each rule reads from a position in the token sequence; an alternative is
//! tried where the one before it read nothing, and a repetition stops at the
//! first item that reads nothing. An integer literal too large for an `i32`
//! stops the parser for good.
use vstd::prelude::*;
use vstd::slice::slice_subrange;
use crate::position::{Span, Spanned};
use crate::scanner::{KeyWord, Token, tok_view};
use crate::scanner::model::STok;
use crate::parser::{builtin_of, same_token};
use crate::interpreter::{Atom, AtomV, Expr, Function, atom_view};
use crate::parser::ParseResult;
use crate::text::{i32_of, parse_i32, str_eq};

verus! {

/// The tokens a rule reads.
pub type Toks = Seq<Spanned<Token>>;

/// A name with its span.
pub type NameV = (Seq<char>, Span);

/// An expression with its texts as character sequences.
pub enum ExprV {
    Constant(AtomV),
    Application(Box<ExprV>, Seq<(ExprV, Span)>),
    Function(NameV, Seq<NameV>, Box<(ExprV, Span)>),
    Local(NameV),
    Do(Seq<(ExprV, Span)>),
    Let(Seq<(ExprV, Span)>, Box<(ExprV, Span)>),
    If(Box<(ExprV, Span)>, Box<(ExprV, Span)>),
    IfElse(Box<(ExprV, Span)>, Box<(ExprV, Span)>, Box<(ExprV, Span)>),
}

/// The view of a name with its span.
pub open spec fn name_view(n: Spanned<String>) -> NameV {
    (n.node@, n.span)
}

/// The views of names.
pub open spec fn names_view(s: Seq<Spanned<String>>) -> Seq<NameV> {
    s.map_values(|n: Spanned<String>| name_view(n))
}

/// The view of an expression.
pub open spec fn expr_view(e: Expr) -> ExprV
    decreases e,
{
    match e {
        Expr::Constant(a) => ExprV::Constant(atom_view(a)),
        Expr::Application(f, args) => ExprV::Application(Box::new(expr_view(*f)), sviews(args@)),
        Expr::Function(n, ps, b) => ExprV::Function(name_view(n), names_view(ps@), Box::new(sview(*b))),
        Expr::Local(n) => ExprV::Local(name_view(n)),
        Expr::Do(es) => ExprV::Do(sviews(es@)),
        Expr::Let(ds, b) => ExprV::Let(sviews(ds@), Box::new(sview(*b))),
        Expr::If(c, a) => ExprV::If(Box::new(sview(*c)), Box::new(sview(*a))),
        Expr::IfElse(c, a, b) => ExprV::IfElse(Box::new(sview(*c)), Box::new(sview(*a)), Box::new(sview(*b))),
    }
}

/// The view of an expression with its span.
pub open spec fn sview(e: Spanned<Expr>) -> (ExprV, Span)
    decreases e,
{
    (expr_view(e.node), e.span)
}

/// The views of expressions with their spans.
pub open spec fn sviews(s: Seq<Spanned<Expr>>) -> Seq<(ExprV, Span)>
    decreases s,
{
    if s.len() == 0 {
        Seq::empty()
    } else {
        sviews(s.subrange(0, s.len() - 1)).push(sview(s[s.len() - 1]))
    }
}

/// What a rule gives: an expression with its span and the place after it,
/// nothing read, or a stop for good.
pub enum G {
    Got((ExprV, Span), int),
    Miss,
    Stop,
}

/// What a repetition gives: the items, the place after them, and whether an
/// item stopped the parser for good.
pub type Many = (Seq<(ExprV, Span)>, int, bool);

/// The token at `p`, if any.
pub open spec fn tok_at(t: Toks, p: int) -> Option<STok> {
    if 0 <= p < t.len() {
        Some(tok_view(t[p].node))
    } else {
        None
    }
}

/// Whether the token at `p` is `x`.
pub open spec fn is_tok(t: Toks, p: int, x: STok) -> bool {
    tok_at(t, p) == Some(x)
}

/// The span from the start of `a` to the end of `b`, in the file of `a`.
pub open spec fn join(a: Span, b: Span) -> Span {
    Span { start: a.start, end: b.end, loc: a.loc }
}

/// A name at `p`.
pub open spec fn name_at(t: Toks, p: int) -> Option<NameV> {
    match tok_at(t, p) {
        Some(STok::Id(n)) => Some((n, t[p].span)),
        _ => None,
    }
}

/// Names, one after the other from `p`, and the place after them.
pub open spec fn names(t: Toks, p: int) -> (Seq<NameV>, int)
    decreases t.len() - p,
{
    match name_at(t, p) {
        Some(n) => {
            let (rest, q) = names(t, p + 1);
            (seq![n] + rest, q)
        },
        None => (Seq::empty(), p),
    }
}

/// A constant: a built-in function, a boolean, a string or a number.
pub open spec fn rule_constant(t: Toks, p: int) -> G {
    match tok_at(t, p) {
        Some(k) => match builtin_of(k) {
            Some(b) => G::Got((ExprV::Constant(AtomV::BuiltIn(b)), t[p].span), p + 1),
            None => match k {
                STok::KeyWord(KeyWord::True) => G::Got((ExprV::Constant(AtomV::Boolean(true)), t[p].span), p + 1),
                STok::KeyWord(KeyWord::False) => G::Got((ExprV::Constant(AtomV::Boolean(false)), t[p].span), p + 1),
                STok::Str(s) => G::Got((ExprV::Constant(AtomV::Str(s)), t[p].span), p + 1),
                STok::Float(f) => G::Got((ExprV::Constant(AtomV::Float(f)), t[p].span), p + 1),
                STok::Int(d) => match i32_of(d) {
                    Some(v) => G::Got((ExprV::Constant(AtomV::Int(v)), t[p].span), p + 1),
                    None => G::Stop,
                },
                _ => G::Miss,
            },
        },
        None => G::Miss,
    }
}

/// A name as an expression.
pub open spec fn local(t: Toks, p: int) -> G {
    match name_at(t, p) {
        Some(n) => G::Got((ExprV::Local(n), n.1), p + 1),
        None => G::Miss,
    }
}

/// What an application applies: a name or a built-in function.
pub open spec fn head(t: Toks, p: int) -> G {
    match local(t, p) {
        G::Miss => match tok_at(t, p) {
            Some(k) => match builtin_of(k) {
                Some(b) => G::Got((ExprV::Constant(AtomV::BuiltIn(b)), t[p].span), p + 1),
                None => G::Miss,
            },
            None => G::Miss,
        },
        r => r,
    }
}

/// The first of two rules that reads something.
pub open spec fn or(a: G, b: G) -> G {
    match a {
        G::Miss => b,
        _ => a,
    }
}

/// An application: a name or built-in function and its arguments.
pub open spec fn rule_app(t: Toks, p: int) -> G
    decreases t.len() - p, 2int,
{
    match head(t, p) {
        G::Got(h, p1) => if p1 != p + 1 {
            G::Miss
        } else {
            let (args, q, stop) = app_args(t, p1);
            if stop {
                G::Stop
            } else {
                G::Got((ExprV::Application(Box::new(h.0), args), h.1), q)
            }
        },
        r => r,
    }
}

/// Arguments, one after the other from `p`.
pub open spec fn app_args(t: Toks, p: int) -> Many
    decreases t.len() - p, 1int,
{
    if p < 0 || p >= t.len() {
        (Seq::empty(), p, false)
    } else {
        match arg(t, p) {
            G::Got(e, q) => if q <= p || q > t.len() {
                (Seq::empty(), p, false)
            } else {
                let (rest, r, stop) = app_args(t, q);
                (seq![e] + rest, r, stop)
            },
            G::Miss => (Seq::empty(), p, false),
            G::Stop => (Seq::empty(), p, true),
        }
    }
}

/// An argument: a name, an application or name or constant in parentheses,
/// or a constant.
pub open spec fn arg(t: Toks, p: int) -> G
    decreases t.len() - p, 0int,
{
    if p < 0 || p >= t.len() {
        G::Miss
    } else {
        match local(t, p) {
            G::Miss => {
                let inner = if is_tok(t, p, STok::Ctrl('(')) {
                    match or(rule_app(t, p + 1), or(local(t, p + 1), rule_constant(t, p + 1))) {
                        G::Got(e, q) => if is_tok(t, q, STok::Ctrl(')')) {
                            G::Got(e, q + 1)
                        } else {
                            G::Miss
                        },
                        r => r,
                    }
                } else {
                    G::Miss
                };
                or(inner, rule_constant(t, p))
            },
            r => r,
        }
    }
}

/// An application or a constant.
pub open spec fn app_or_constant(t: Toks, p: int) -> G {
    or(rule_app(t, p), rule_constant(t, p))
}

/// A branch of a conditional: an application or constant, on its own
/// indented lines or not.
pub open spec fn branch(t: Toks, p: int) -> G {
    let indented = if is_tok(t, p, STok::InDent) {
        match app_or_constant(t, p + 1) {
            G::Got(e, q) => if is_tok(t, q, STok::DeDent) {
                G::Got(e, q + 1)
            } else {
                G::Miss
            },
            r => r,
        }
    } else {
        G::Miss
    };
    or(indented, app_or_constant(t, p))
}

/// What `if condition then branch` gives: the condition, the branch and the
/// place after them, nothing read, or a stop for good.
pub enum IfV {
    Got((ExprV, Span), (ExprV, Span), int),
    Miss,
    Stop,
}

/// `if condition then branch` at `p`.
pub open spec fn if_part(t: Toks, p: int) -> IfV {
    if is_tok(t, p, STok::KeyWord(KeyWord::If)) {
        match app_or_constant(t, p + 1) {
            G::Got(c, q) => if is_tok(t, q, STok::KeyWord(KeyWord::Then)) {
                match branch(t, q + 1) {
                    G::Got(b, r) => IfV::Got(c, b, r),
                    G::Miss => IfV::Miss,
                    G::Stop => IfV::Stop,
                }
            } else {
                IfV::Miss
            },
            G::Miss => IfV::Miss,
            G::Stop => IfV::Stop,
        }
    } else {
        IfV::Miss
    }
}

/// `else if condition then branch` parts, one after the other from `p`: the
/// conditions with their branches, the place after them, and whether one
/// stopped the parser for good.
pub open spec fn else_ifs(t: Toks, p: int) -> (Seq<((ExprV, Span), (ExprV, Span))>, int, bool)
    decreases t.len() - p,
{
    if p < 0 || p >= t.len() || !is_tok(t, p, STok::KeyWord(KeyWord::Else)) {
        (Seq::empty(), p, false)
    } else {
        match if_part(t, p + 1) {
            IfV::Got(c, b, q) => if q <= p || q > t.len() {
                (Seq::empty(), p, false)
            } else {
                let (rest, r, stop) = else_ifs(t, q);
                (seq![(c, b)] + rest, r, stop)
            },
            IfV::Miss => (Seq::empty(), p, false),
            IfV::Stop => (Seq::empty(), p, true),
        }
    }
}

/// `else branch` at `p`.
pub open spec fn else_part(t: Toks, p: int) -> G {
    if is_tok(t, p, STok::KeyWord(KeyWord::Else)) {
        branch(t, p + 1)
    } else {
        G::Miss
    }
}

/// A condition and its branch, and what follows when the condition is false.
pub open spec fn choice(c: (ExprV, Span), b: (ExprV, Span), otherwise: Option<(ExprV, Span)>) -> (ExprV, Span) {
    match otherwise {
        Some(o) => (ExprV::IfElse(Box::new(c), Box::new(b), Box::new(o)), join(c.1, o.1)),
        None => (ExprV::If(Box::new(c), Box::new(b)), join(c.1, b.1)),
    }
}

/// The first `k` conditions and branches, the last of them first, around
/// `acc`.
pub open spec fn nest(bs: Seq<((ExprV, Span), (ExprV, Span))>, k: int, acc: Option<(ExprV, Span)>) -> Option<(ExprV, Span)>
    decreases k,
{
    if k <= 0 || k > bs.len() {
        acc
    } else {
        nest(bs, k - 1, Some(choice(bs[k - 1].0, bs[k - 1].1, acc)))
    }
}

/// A conditional: `if`, any `else if`s, and an optional `else`, nested from
/// the last.
pub open spec fn rule_conditional(t: Toks, p: int) -> G {
    match if_part(t, p) {
        IfV::Got(c, b, q) => {
            let (eis, q2, stop) = else_ifs(t, q);
            if stop {
                G::Stop
            } else {
                let bs = seq![(c, b)] + eis;
                match else_part(t, q2) {
                    G::Stop => G::Stop,
                    G::Got(e, q3) => G::Got(nest(bs, bs.len() as int, Some(e))->0, q3),
                    G::Miss => G::Got(nest(bs, bs.len() as int, None)->0, q2),
                }
            }
        },
        IfV::Miss => G::Miss,
        IfV::Stop => G::Stop,
    }
}

/// What a `let` binding gives: the definitions and the place after them,
/// nothing read, or a stop for good.
pub enum LetV {
    Got(Seq<(ExprV, Span)>, int),
    Miss,
    Stop,
}

/// `name params = body` inside a `let`.
pub open spec fn let_function(t: Toks, p: int) -> G {
    match name_at(t, p) {
        Some(n) => {
            let (ps, p1) = names(t, p + 1);
            if is_tok(t, p1, STok::Op("="@)) {
                match app_or_constant(t, p1 + 1) {
                    G::Got(b, q) => G::Got(
                        (ExprV::Function(n, ps, Box::new(b)), Span { start: n.1.start, end: b.1.end, loc: n.1.loc }),
                        q,
                    ),
                    r => r,
                }
            } else {
                G::Miss
            }
        },
        None => G::Miss,
    }
}

/// `, definition` parts, one after the other from `p`.
pub open spec fn more_defs(t: Toks, p: int) -> Many
    decreases t.len() - p,
{
    if p < 0 || p >= t.len() || !is_tok(t, p, STok::Ctrl(',')) {
        (Seq::empty(), p, false)
    } else {
        match let_function(t, p + 1) {
            G::Got(d, q) => if q <= p || q > t.len() {
                (Seq::empty(), p, false)
            } else {
                let (rest, r, stop) = more_defs(t, q);
                (seq![d] + rest, r, stop)
            },
            G::Miss => (Seq::empty(), p, false),
            G::Stop => (Seq::empty(), p, true),
        }
    }
}

/// Definitions separated by commas, with an optional comma after them.
pub open spec fn let_binding(t: Toks, p: int) -> LetV {
    match let_function(t, p) {
        G::Got(d, q) => {
            let (rest, r, stop) = more_defs(t, q);
            if stop {
                LetV::Stop
            } else {
                LetV::Got(seq![d] + rest, if is_tok(t, r, STok::Ctrl(',')) {
                    r + 1
                } else {
                    r
                })
            }
        },
        G::Miss => LetV::Miss,
        G::Stop => LetV::Stop,
    }
}

/// `let definitions in body`.
pub open spec fn rule_let_expr(t: Toks, p: int) -> G {
    if is_tok(t, p, STok::KeyWord(KeyWord::Let)) {
        let indented = if is_tok(t, p + 1, STok::InDent) {
            match let_binding(t, p + 2) {
                LetV::Got(ds, q) => if is_tok(t, q, STok::DeDent) {
                    LetV::Got(ds, q + 1)
                } else {
                    LetV::Miss
                },
                r => r,
            }
        } else {
            LetV::Miss
        };
        let binding = match indented {
            LetV::Miss => let_binding(t, p + 1),
            r => r,
        };
        match binding {
            LetV::Got(ds, q) => if is_tok(t, q, STok::KeyWord(KeyWord::In)) {
                match or(rule_app(t, q + 1), or(local(t, q + 1), rule_constant(t, q + 1))) {
                    G::Got(b, r) => G::Got((ExprV::Let(ds, Box::new(b)), join(t[p].span, b.1)), r),
                    r => r,
                }
            } else {
                G::Miss
            },
            LetV::Miss => G::Miss,
            LetV::Stop => G::Stop,
        }
    } else {
        G::Miss
    }
}

/// An expression of a function's body: a `let`, a `do` block, a
/// conditional, an application or a constant.
pub open spec fn rule_func_expr(t: Toks, p: int) -> G
    decreases t.len() - p, 3int,
{
    or(rule_let_expr(t, p), or(do_expr(t, p), or(rule_conditional(t, p), app_or_constant(t, p))))
}

/// `do`, then indented expressions.
pub open spec fn do_expr(t: Toks, p: int) -> G
    decreases t.len() - p, 2int,
{
    if 0 <= p && p + 2 <= t.len() && is_tok(t, p, STok::KeyWord(KeyWord::Do)) && is_tok(t, p + 1, STok::InDent) {
        let (body, q, stop) = do_body(t, p + 2);
        if stop {
            G::Stop
        } else if body.len() == 0 {
            G::Miss
        } else if is_tok(t, q, STok::DeDent) {
            G::Got((ExprV::Do(body), join(t[p].span, t[q].span)), q + 1)
        } else {
            G::Miss
        }
    } else {
        G::Miss
    }
}

/// Expressions of a body, one after the other from `p`.
pub open spec fn do_body(t: Toks, p: int) -> Many
    decreases t.len() - p, 4int,
{
    if p < 0 || p > t.len() {
        (Seq::empty(), p, false)
    } else {
        match rule_func_expr(t, p) {
            G::Got(e, q) => if q <= p || q > t.len() {
                (Seq::empty(), p, false)
            } else {
                let (rest, r, stop) = do_body(t, q);
                (seq![e] + rest, r, stop)
            },
            G::Miss => (Seq::empty(), p, false),
            G::Stop => (Seq::empty(), p, true),
        }
    }
}

/// A function: its name token, parameters, `=` (and an indentation), and its
/// body (and the closing of the indentation).
pub open spec fn rule_function(t: Toks, p: int) -> G {
    match tok_at(t, p) {
        Some(STok::Fn(name)) => {
            let n = (name, t[p].span);
            let (ps, p1) = names(t, p + 1);
            if is_tok(t, p1, STok::Op("="@)) {
                let p2 = if is_tok(t, p1 + 1, STok::InDent) {
                    p1 + 2
                } else {
                    p1 + 1
                };
                match rule_func_expr(t, p2) {
                    G::Got(b, q) => G::Got(
                        (ExprV::Function(n, ps, Box::new(b)), join(n.1, b.1)),
                        if is_tok(t, q, STok::DeDent) {
                            q + 1
                        } else {
                            q
                        },
                    ),
                    r => r,
                }
            } else {
                G::Miss
            }
        },
        _ => G::Miss,
    }
}

/// Functions, one after the other from `p`.
pub open spec fn functions(t: Toks, p: int) -> Many
    decreases t.len() - p,
{
    if p < 0 || p >= t.len() {
        (Seq::empty(), p, false)
    } else {
        match rule_function(t, p) {
            G::Got(f, q) => if q <= p || q > t.len() {
                (Seq::empty(), p, false)
            } else {
                let (rest, r, stop) = functions(t, q);
                (seq![f] + rest, r, stop)
            },
            G::Miss => (Seq::empty(), p, false),
            G::Stop => (Seq::empty(), p, true),
        }
    }
}

/// What a rule read: an expression and the place after it, nothing, or a
/// stop for good.
pub enum Read {
    Got(Spanned<Expr>, usize),
    Miss,
    Stop,
}

/// The view of what a rule read.
pub open spec fn read_view(r: Read) -> G {
    match r {
        Read::Got(e, q) => G::Got(sview(e), q as int),
        Read::Miss => G::Miss,
        Read::Stop => G::Stop,
    }
}

/// The view of what a repetition read.
pub open spec fn many_view(r: (Vec<Spanned<Expr>>, usize, bool)) -> Many {
    (sviews(r.0@), r.1 as int, r.2)
}

/// The views of expressions, one by one.
proof fn lemma_sviews_index(s: Seq<Spanned<Expr>>)
    ensures
        sviews(s).len() == s.len(),
        forall|k: int| 0 <= k < s.len() ==> #[trigger] sviews(s)[k] == sview(s[k]),
    decreases s.len(),
{
    if s.len() > 0 {
        let init = s.subrange(0, s.len() - 1);
        lemma_sviews_index(init);
        assert forall|k: int| 0 <= k < s.len() implies #[trigger] sviews(s)[k] == sview(s[k]) by {
            if k < s.len() - 1 {
                assert(init[k] == s[k]);
            }
        }
    }
}

/// The views of an expression put in front of others.
proof fn lemma_sviews_prepend(e: Spanned<Expr>, s: Seq<Spanned<Expr>>)
    ensures
        sviews(seq![e] + s) == seq![sview(e)] + sviews(s),
{
    lemma_sviews_index(seq![e] + s);
    lemma_sviews_index(s);
    assert(sviews(seq![e] + s) =~= seq![sview(e)] + sviews(s));
}

/// Whether the token at `p` is `x`.
fn tok_is(t: &[Spanned<Token>], p: usize, x: &Token) -> (r: bool)
    ensures
        r == is_tok(t@, p as int, tok_view(*x)),
        r ==> p < t.len(),
{
    p < t.len() && same_token(&t[p].node, x)
}

/// The span from the start of `a` to the end of `b`, in the file of `a`.
fn join_exec(a: &Span, b: &Span) -> (r: Span)
    ensures
        r == join(*a, *b),
{
    Span { start: a.start.clone(), end: b.end.clone(), loc: a.loc.clone() }
}

/// A name at `p`.
fn name_exec(t: &[Spanned<Token>], p: usize) -> (r: Option<Spanned<String>>)
    ensures
        r matches Some(n) ==> name_at(t@, p as int) == Some(name_view(n)) && p < t.len(),
        r is None ==> name_at(t@, p as int) is None,
{
    if p >= t.len() {
        return None;
    }
    match &t[p].node {
        Token::Id(n) => Some(Spanned { node: n.clone(), span: t[p].span.clone() }),
        _ => None,
    }
}

/// Names, one after the other from `p`.
fn names_exec(t: &[Spanned<Token>], p: usize) -> (r: (Vec<Spanned<String>>, usize))
    ensures
        names(t@, p as int) == (names_view(r.0@), r.1 as int),
        p <= t@.len() ==> r.1 <= t@.len(),
    decreases t@.len() - p,
{
    match name_exec(t, p) {
        Some(n) => {
            let (mut rest, q) = names_exec(t, p + 1);
            let ghost old_rest = rest@;
            rest.insert(0, n);
            assert(names_view(rest@) =~= seq![name_view(n)] + names_view(old_rest));
            (rest, q)
        },
        None => (Vec::new(), p),
    }
}

/// A constant at `p`.
fn constant_exec(t: &[Spanned<Token>], p: usize) -> (r: Read)
    ensures
        r matches Read::Got(_, q) ==> q <= t@.len(),
        read_view(r) == rule_constant(t@, p as int),
{
    if p >= t.len() {
        return Read::Miss;
    }
    let sp = t[p].span.clone();
    let rest = slice_subrange(t, p, t.len());
    assert(rest@ =~= t@.subrange(p as int, t@.len() as int));
    match crate::parser::builtin(rest) {
        Ok((_, b)) => {
            return Read::Got(Spanned { node: Expr::Constant(Atom::BuiltIn(b.node)), span: sp }, p + 1);
        },
        Err(_) => {},
    }
    match &t[p].node {
        Token::KeyWord(KeyWord::True) => Read::Got(Spanned { node: Expr::Constant(Atom::Boolean(true)), span: sp }, p + 1),
        Token::KeyWord(KeyWord::False) => Read::Got(Spanned { node: Expr::Constant(Atom::Boolean(false)), span: sp }, p + 1),
        Token::String(x) => Read::Got(Spanned { node: Expr::Constant(Atom::String(x.clone())), span: sp }, p + 1),
        Token::Float(x) => Read::Got(Spanned { node: Expr::Constant(Atom::Float(x.clone())), span: sp }, p + 1),
        Token::Int(d) => match parse_i32(d.as_str()) {
            Some(v) => Read::Got(Spanned { node: Expr::Constant(Atom::Int(v)), span: sp }, p + 1),
            None => Read::Stop,
        },
        _ => Read::Miss,
    }
}

/// A name as an expression at `p`.
fn local_exec(t: &[Spanned<Token>], p: usize) -> (r: Read)
    ensures
        r matches Read::Got(_, q) ==> q <= t@.len(),
        read_view(r) == local(t@, p as int),
        r matches Read::Got(_, q) ==> q == p + 1,
{
    match name_exec(t, p) {
        Some(n) => {
            let sp = n.span.clone();
            Read::Got(Spanned { node: Expr::Local(n), span: sp }, p + 1)
        },
        None => Read::Miss,
    }
}

/// What an application applies, at `p`.
fn head_exec(t: &[Spanned<Token>], p: usize) -> (r: Read)
    ensures
        r matches Read::Got(_, q) ==> q <= t@.len(),
        read_view(r) == head(t@, p as int),
        r matches Read::Got(_, q) ==> q == p + 1,
{
    match local_exec(t, p) {
        Read::Miss => {},
        r => {
            return r;
        },
    }
    if p >= t.len() {
        return Read::Miss;
    }
    let rest = slice_subrange(t, p, t.len());
    assert(rest@ =~= t@.subrange(p as int, t@.len() as int));
    match crate::parser::builtin(rest) {
        Ok((_, b)) => Read::Got(Spanned { node: Expr::Constant(Atom::BuiltIn(b.node)), span: b.span }, p + 1),
        Err(_) => Read::Miss,
    }
}

/// An application at `p`.
fn app_exec(t: &[Spanned<Token>], p: usize) -> (r: Read)
    ensures
        r matches Read::Got(_, q) ==> q <= t@.len(),
        read_view(r) == rule_app(t@, p as int),
    decreases t@.len() - p, 2int,
{
    match head_exec(t, p) {
        Read::Got(h, p1) => {
            let (args, q, stop) = app_args_exec(t, p1);
            if stop {
                Read::Stop
            } else {
                Read::Got(Spanned { node: Expr::Application(Box::new(h.node), args), span: h.span }, q)
            }
        },
        Read::Miss => Read::Miss,
        Read::Stop => Read::Stop,
    }
}

/// Arguments, one after the other from `p`.
fn app_args_exec(t: &[Spanned<Token>], p: usize) -> (r: (Vec<Spanned<Expr>>, usize, bool))
    ensures
        p <= t@.len() ==> r.1 <= t@.len(),
        many_view(r) == app_args(t@, p as int),
    decreases t@.len() - p, 1int,
{
    if p >= t.len() {
        return (Vec::new(), p, false);
    }
    match arg_exec(t, p) {
        Read::Got(e, q) => {
            if q <= p || q > t.len() {
                (Vec::new(), p, false)
            } else {
                let (mut rest, r, stop) = app_args_exec(t, q);
                let ghost old_rest = rest@;
                proof {
                    lemma_sviews_prepend(e, old_rest);
                }
                rest.insert(0, e);
                assert(rest@ =~= seq![e] + old_rest);
                (rest, r, stop)
            }
        },
        Read::Miss => (Vec::new(), p, false),
        Read::Stop => (Vec::new(), p, true),
    }
}

/// An argument at `p`.
fn arg_exec(t: &[Spanned<Token>], p: usize) -> (r: Read)
    ensures
        r matches Read::Got(_, q) ==> q <= t@.len(),
        read_view(r) == arg(t@, p as int),
    decreases t@.len() - p, 0int,
{
    if p >= t.len() {
        return Read::Miss;
    }
    match local_exec(t, p) {
        Read::Miss => {},
        r => {
            return r;
        },
    }
    let inner = if tok_is(t, p, &Token::Ctrl('(')) {
        let a = match app_exec(t, p + 1) {
            Read::Miss => match local_exec(t, p + 1) {
                Read::Miss => constant_exec(t, p + 1),
                r => r,
            },
            r => r,
        };
        match a {
            Read::Got(e, q) => if tok_is(t, q, &Token::Ctrl(')')) {
                Read::Got(e, q + 1)
            } else {
                Read::Miss
            },
            r => r,
        }
    } else {
        Read::Miss
    };
    match inner {
        Read::Miss => constant_exec(t, p),
        r => r,
    }
}

/// An application or a constant at `p`.
fn app_or_constant_exec(t: &[Spanned<Token>], p: usize) -> (r: Read)
    ensures
        r matches Read::Got(_, q) ==> q <= t@.len(),
        read_view(r) == app_or_constant(t@, p as int),
{
    match app_exec(t, p) {
        Read::Miss => constant_exec(t, p),
        r => r,
    }
}

/// A branch of a conditional at `p`.
fn branch_exec(t: &[Spanned<Token>], p: usize) -> (r: Read)
    ensures
        r matches Read::Got(_, q) ==> q <= t@.len(),
        read_view(r) == branch(t@, p as int),
{
    let indented = if tok_is(t, p, &Token::InDent) {
        match app_or_constant_exec(t, p + 1) {
            Read::Got(e, q) => if tok_is(t, q, &Token::DeDent) {
                Read::Got(e, q + 1)
            } else {
                Read::Miss
            },
            r => r,
        }
    } else {
        Read::Miss
    };
    match indented {
        Read::Miss => app_or_constant_exec(t, p),
        r => r,
    }
}

/// What `if condition then branch` read.
pub enum IfRead {
    Got(Spanned<Expr>, Spanned<Expr>, usize),
    Miss,
    Stop,
}

/// The view of what `if condition then branch` read.
pub open spec fn if_view(r: IfRead) -> IfV {
    match r {
        IfRead::Got(c, b, q) => IfV::Got(sview(c), sview(b), q as int),
        IfRead::Miss => IfV::Miss,
        IfRead::Stop => IfV::Stop,
    }
}

/// `if condition then branch` at `p`.
fn if_part_exec(t: &[Spanned<Token>], p: usize) -> (r: IfRead)
    ensures
        if_view(r) == if_part(t@, p as int),
        r matches IfRead::Got(_, _, q) ==> q <= t@.len(),
{
    if !tok_is(t, p, &Token::KeyWord(KeyWord::If)) {
        return IfRead::Miss;
    }
    match app_or_constant_exec(t, p + 1) {
        Read::Got(c, q) => if tok_is(t, q, &Token::KeyWord(KeyWord::Then)) {
            match branch_exec(t, q + 1) {
                Read::Got(b, r) => IfRead::Got(c, b, r),
                Read::Miss => IfRead::Miss,
                Read::Stop => IfRead::Stop,
            }
        } else {
            IfRead::Miss
        },
        Read::Miss => IfRead::Miss,
        Read::Stop => IfRead::Stop,
    }
}

/// The views of conditions with their branches.
pub open spec fn pairs_view(s: Seq<(Spanned<Expr>, Spanned<Expr>)>) -> Seq<((ExprV, Span), (ExprV, Span))> {
    s.map_values(|x: (Spanned<Expr>, Spanned<Expr>)| (sview(x.0), sview(x.1)))
}

/// `else if` parts, one after the other from `p`.
fn else_ifs_exec(t: &[Spanned<Token>], p: usize) -> (r: (Vec<(Spanned<Expr>, Spanned<Expr>)>, usize, bool))
    ensures
        else_ifs(t@, p as int) == (pairs_view(r.0@), r.1 as int, r.2),
        p <= t@.len() ==> r.1 <= t@.len(),
    decreases t@.len() - p,
{
    if p >= t.len() || !tok_is(t, p, &Token::KeyWord(KeyWord::Else)) {
        return (Vec::new(), p, false);
    }
    match if_part_exec(t, p + 1) {
        IfRead::Got(c, b, q) => {
            if q <= p || q > t.len() {
                (Vec::new(), p, false)
            } else {
                let (mut rest, r, stop) = else_ifs_exec(t, q);
                let ghost old_rest = rest@;
                let ghost cb = (sview(c), sview(b));
                rest.insert(0, (c, b));
                assert(pairs_view(rest@) =~= seq![cb] + pairs_view(old_rest));
                (rest, r, stop)
            }
        },
        IfRead::Miss => (Vec::new(), p, false),
        IfRead::Stop => (Vec::new(), p, true),
    }
}

/// `else branch` at `p`.
fn else_part_exec(t: &[Spanned<Token>], p: usize) -> (r: Read)
    ensures
        r matches Read::Got(_, q) ==> q <= t@.len(),
        read_view(r) == else_part(t@, p as int),
{
    if tok_is(t, p, &Token::KeyWord(KeyWord::Else)) {
        branch_exec(t, p + 1)
    } else {
        Read::Miss
    }
}

/// A condition and its branch, and what follows when the condition is false.
fn choice_exec(c: Spanned<Expr>, b: Spanned<Expr>, otherwise: Option<Spanned<Expr>>) -> (r: Spanned<Expr>)
    ensures
        sview(r) == choice(
            sview(c),
            sview(b),
            match otherwise {
                Some(o) => Some(sview(o)),
                None => None,
            },
        ),
{
    match otherwise {
        Some(o) => {
            let span = join_exec(&c.span, &o.span);
            Spanned { node: Expr::IfElse(Box::new(c), Box::new(b), Box::new(o)), span }
        },
        None => {
            let span = join_exec(&c.span, &b.span);
            Spanned { node: Expr::If(Box::new(c), Box::new(b)), span }
        },
    }
}

/// The view of an optional expression.
pub open spec fn opt_view(o: Option<Spanned<Expr>>) -> Option<(ExprV, Span)> {
    match o {
        Some(e) => Some(sview(e)),
        None => None,
    }
}

/// A conditional at `p`.
fn conditional_exec(t: &[Spanned<Token>], p: usize) -> (r: Read)
    ensures
        r matches Read::Got(_, q) ==> q <= t@.len(),
        read_view(r) == rule_conditional(t@, p as int),
{
    match if_part_exec(t, p) {
        IfRead::Got(c, b, q) => {
            let (eis, q2, stop) = else_ifs_exec(t, q);
            if stop {
                return Read::Stop;
            }
            let ghost ev = pairs_view(eis@);
            let mut bs = eis;
            bs.insert(0, (c, b));
            let ghost bv = pairs_view(bs@);
            assert(bv =~= seq![(sview(c), sview(b))] + ev);
            let n = bs.len();
            let (acc0, end) = match else_part_exec(t, q2) {
                Read::Stop => {
                    return Read::Stop;
                },
                Read::Got(e, q3) => (Some(e), q3),
                Read::Miss => (None, q2),
            };
            let ghost a0 = opt_view(acc0);
            let mut acc = acc0;
            let mut k = n;
            while k > 0
                invariant
                    k <= n,
                    n == bv.len(),
                    n >= 1,
                    bs@.len() == k,
                    pairs_view(bs@) =~= bv.subrange(0, k as int),
                    nest(bv, n as int, a0) == nest(bv, k as int, opt_view(acc)),
                    k < n ==> acc is Some,
                decreases k,
            {
                let ghost before = bs@;
                let (c1, b1) = bs.pop().unwrap();
                proof {
                    assert(pairs_view(before)[k - 1] == (sview(c1), sview(b1)));
                    assert(bv.subrange(0, k as int)[k - 1] == bv[k - 1]);
                    assert(pairs_view(bs@) =~= pairs_view(before).subrange(0, k - 1));
                }
                k = k - 1;
                acc = Some(choice_exec(c1, b1, acc));
            }
            match acc {
                Some(e) => Read::Got(e, end),
                None => Read::Miss,
            }
        },
        IfRead::Miss => Read::Miss,
        IfRead::Stop => Read::Stop,
    }
}

/// `name params = body` inside a `let`, at `p`.
fn let_function_exec(t: &[Spanned<Token>], p: usize) -> (r: Read)
    ensures
        r matches Read::Got(_, q) ==> q <= t@.len(),
        read_view(r) == let_function(t@, p as int),
{
    match name_exec(t, p) {
        Some(n) => {
            let (ps, p1) = names_exec(t, p + 1);
            if tok_is(t, p1, &Token::Op("=")) {
                match app_or_constant_exec(t, p1 + 1) {
                    Read::Got(b, q) => {
                        let span = Span { start: n.span.start.clone(), end: b.span.end.clone(), loc: n.span.loc.clone() };
                        Read::Got(Spanned { node: Expr::Function(n, ps, Box::new(b)), span }, q)
                    },
                    Read::Miss => Read::Miss,
                    Read::Stop => Read::Stop,
                }
            } else {
                Read::Miss
            }
        },
        None => Read::Miss,
    }
}

/// `, definition` parts, one after the other from `p`.
fn more_defs_exec(t: &[Spanned<Token>], p: usize) -> (r: (Vec<Spanned<Expr>>, usize, bool))
    ensures
        p <= t@.len() ==> r.1 <= t@.len(),
        many_view(r) == more_defs(t@, p as int),
    decreases t@.len() - p,
{
    if p >= t.len() || !tok_is(t, p, &Token::Ctrl(',')) {
        return (Vec::new(), p, false);
    }
    match let_function_exec(t, p + 1) {
        Read::Got(d, q) => {
            if q <= p || q > t.len() {
                (Vec::new(), p, false)
            } else {
                let (mut rest, r, stop) = more_defs_exec(t, q);
                let ghost old_rest = rest@;
                proof {
                    lemma_sviews_prepend(d, old_rest);
                }
                rest.insert(0, d);
                assert(rest@ =~= seq![d] + old_rest);
                (rest, r, stop)
            }
        },
        Read::Miss => (Vec::new(), p, false),
        Read::Stop => (Vec::new(), p, true),
    }
}

/// What a `let` binding read.
pub enum LetRead {
    Got(Vec<Spanned<Expr>>, usize),
    Miss,
    Stop,
}

/// The view of what a `let` binding read.
pub open spec fn let_view(r: LetRead) -> LetV {
    match r {
        LetRead::Got(ds, q) => LetV::Got(sviews(ds@), q as int),
        LetRead::Miss => LetV::Miss,
        LetRead::Stop => LetV::Stop,
    }
}

/// Definitions separated by commas, at `p`.
fn let_binding_exec(t: &[Spanned<Token>], p: usize) -> (r: LetRead)
    ensures
        let_view(r) == let_binding(t@, p as int),
        r matches LetRead::Got(_, q) ==> q <= t@.len(),
{
    match let_function_exec(t, p) {
        Read::Got(d, q) => {
            let (mut rest, r, stop) = more_defs_exec(t, q);
            if stop {
                return LetRead::Stop;
            }
            let ghost old_rest = rest@;
            proof {
                lemma_sviews_prepend(d, old_rest);
            }
            rest.insert(0, d);
            assert(rest@ =~= seq![d] + old_rest);
            let end = if tok_is(t, r, &Token::Ctrl(',')) {
                r + 1
            } else {
                r
            };
            LetRead::Got(rest, end)
        },
        Read::Miss => LetRead::Miss,
        Read::Stop => LetRead::Stop,
    }
}

/// `let definitions in body` at `p`.
fn let_expr_exec(t: &[Spanned<Token>], p: usize) -> (r: Read)
    ensures
        r matches Read::Got(_, q) ==> q <= t@.len(),
        read_view(r) == rule_let_expr(t@, p as int),
{
    if !tok_is(t, p, &Token::KeyWord(KeyWord::Let)) {
        return Read::Miss;
    }
    let indented = if tok_is(t, p + 1, &Token::InDent) {
        match let_binding_exec(t, p + 2) {
            LetRead::Got(ds, q) => if tok_is(t, q, &Token::DeDent) {
                LetRead::Got(ds, q + 1)
            } else {
                LetRead::Miss
            },
            r => r,
        }
    } else {
        LetRead::Miss
    };
    let binding = match indented {
        LetRead::Miss => let_binding_exec(t, p + 1),
        r => r,
    };
    match binding {
        LetRead::Got(ds, q) => if tok_is(t, q, &Token::KeyWord(KeyWord::In)) {
            let body = match app_exec(t, q + 1) {
                Read::Miss => match local_exec(t, q + 1) {
                    Read::Miss => constant_exec(t, q + 1),
                    r => r,
                },
                r => r,
            };
            match body {
                Read::Got(b, r) => {
                    let span = join_exec(&t[p].span, &b.span);
                    Read::Got(Spanned { node: Expr::Let(ds, Box::new(b)), span }, r)
                },
                r => r,
            }
        } else {
            Read::Miss
        },
        LetRead::Miss => Read::Miss,
        LetRead::Stop => Read::Stop,
    }
}

/// An expression of a function's body at `p`.
fn func_expr_exec(t: &[Spanned<Token>], p: usize) -> (r: Read)
    ensures
        r matches Read::Got(_, q) ==> q <= t@.len(),
        read_view(r) == rule_func_expr(t@, p as int),
    decreases t@.len() - p, 3int,
{
    match let_expr_exec(t, p) {
        Read::Miss => {},
        r => {
            return r;
        },
    }
    match do_expr_exec(t, p) {
        Read::Miss => {},
        r => {
            return r;
        },
    }
    match conditional_exec(t, p) {
        Read::Miss => {},
        r => {
            return r;
        },
    }
    app_or_constant_exec(t, p)
}

/// `do`, then indented expressions, at `p`.
fn do_expr_exec(t: &[Spanned<Token>], p: usize) -> (r: Read)
    ensures
        r matches Read::Got(_, q) ==> q <= t@.len(),
        read_view(r) == do_expr(t@, p as int),
    decreases t@.len() - p, 2int,
{
    if !(tok_is(t, p, &Token::KeyWord(KeyWord::Do)) && tok_is(t, p + 1, &Token::InDent)) {
        return Read::Miss;
    }
    let (body, q, stop) = do_body_exec(t, p + 2);
    if stop {
        Read::Stop
    } else if body.len() == 0 {
        Read::Miss
    } else if tok_is(t, q, &Token::DeDent) {
        let span = join_exec(&t[p].span, &t[q].span);
        Read::Got(Spanned { node: Expr::Do(body), span }, q + 1)
    } else {
        Read::Miss
    }
}

/// Expressions of a body, one after the other from `p`.
fn do_body_exec(t: &[Spanned<Token>], p: usize) -> (r: (Vec<Spanned<Expr>>, usize, bool))
    requires
        p <= t@.len(),
    ensures
        p <= t@.len() ==> r.1 <= t@.len(),
        many_view(r) == do_body(t@, p as int),
        r.0@.len() == sviews(r.0@).len(),
    decreases t@.len() - p, 4int,
{
    proof {
        lemma_sviews_index(Seq::<Spanned<Expr>>::empty());
    }
    match func_expr_exec(t, p) {
        Read::Got(e, q) => {
            if q <= p || q > t.len() {
                (Vec::new(), p, false)
            } else {
                let (mut rest, r, stop) = do_body_exec(t, q);
                let ghost old_rest = rest@;
                proof {
                    lemma_sviews_prepend(e, old_rest);
                }
                rest.insert(0, e);
                assert(rest@ =~= seq![e] + old_rest);
                proof {
                    lemma_sviews_index(rest@);
                }
                (rest, r, stop)
            }
        },
        Read::Miss => (Vec::new(), p, false),
        Read::Stop => (Vec::new(), p, true),
    }
}

/// A function at `p`.
fn function_exec(t: &[Spanned<Token>], p: usize) -> (r: Read)
    ensures
        r matches Read::Got(_, q) ==> q <= t@.len(),
        read_view(r) == rule_function(t@, p as int),
{
    if p >= t.len() {
        return Read::Miss;
    }
    let n = match &t[p].node {
        Token::Fn(name) => Spanned { node: name.clone(), span: t[p].span.clone() },
        _ => {
            return Read::Miss;
        },
    };
    let (ps, p1) = names_exec(t, p + 1);
    if !tok_is(t, p1, &Token::Op("=")) {
        return Read::Miss;
    }
    let p2 = if tok_is(t, p1 + 1, &Token::InDent) {
        p1 + 2
    } else {
        p1 + 1
    };
    match func_expr_exec(t, p2) {
        Read::Got(b, q) => {
            let end = if tok_is(t, q, &Token::DeDent) {
                q + 1
            } else {
                q
            };
            let span = join_exec(&n.span, &b.span);
            Read::Got(Spanned { node: Expr::Function(n, ps, Box::new(b)), span }, end)
        },
        Read::Miss => Read::Miss,
        Read::Stop => Read::Stop,
    }
}

/// Functions, one after the other from `p`.
fn functions_exec(t: &[Spanned<Token>], p: usize) -> (r: (Vec<Spanned<Expr>>, usize, bool))
    ensures
        p <= t@.len() ==> r.1 <= t@.len(),
        many_view(r) == functions(t@, p as int),
    decreases t@.len() - p,
{
    if p >= t.len() {
        return (Vec::new(), p, false);
    }
    match function_exec(t, p) {
        Read::Got(f, q) => {
            if q <= p || q > t.len() {
                (Vec::new(), p, false)
            } else {
                let (mut rest, r, stop) = functions_exec(t, q);
                let ghost old_rest = rest@;
                proof {
                    lemma_sviews_prepend(f, old_rest);
                }
                rest.insert(0, f);
                assert(rest@ =~= seq![f] + old_rest);
                (rest, r, stop)
            }
        },
        Read::Miss => (Vec::new(), p, false),
        Read::Stop => (Vec::new(), p, true),
    }
}

/// The rules that read an expression from the front of the input.
#[derive(Debug, Clone, Copy, PartialEq, Eq, Structural)]
pub enum Rule {
    Constant,
    App,
    FuncExpr,
    Function,
    LetExpr,
    Conditional,
}

/// What a rule gives at `p`.
pub open spec fn rule_at(rule: Rule, t: Toks, p: int) -> G {
    match rule {
        Rule::Constant => rule_constant(t, p),
        Rule::App => rule_app(t, p),
        Rule::FuncExpr => rule_func_expr(t, p),
        Rule::Function => rule_function(t, p),
        Rule::LetExpr => rule_let_expr(t, p),
        Rule::Conditional => rule_conditional(t, p),
    }
}

/// Reads by `rule` at `p`.
fn run_rule(rule: Rule, t: &[Spanned<Token>], p: usize) -> (r: Read)
    ensures
        read_view(r) == rule_at(rule, t@, p as int),
        r matches Read::Got(_, q) ==> q <= t@.len(),
{
    match rule {
        Rule::Constant => constant_exec(t, p),
        Rule::App => app_exec(t, p),
        Rule::FuncExpr => func_expr_exec(t, p),
        Rule::Function => function_exec(t, p),
        Rule::LetExpr => let_expr_exec(t, p),
        Rule::Conditional => conditional_exec(t, p),
    }
}

/// Whether `r` is what reading by `g` from the front of `input` gives: the
/// expression and the input after it, or the whole input where nothing was
/// read.
pub open spec fn reads<'a>(input: Toks, g: G, r: ParseResult<'a, Spanned<Expr>>) -> bool {
    match r {
        Ok((rest, e)) => g matches G::Got(v, q) && v == sview(e) && 0 <= q <= input.len() && rest@
            == input.subrange(q, input.len() as int),
        Err(rest) => g == G::Miss && rest@ == input,
    }
}

/// Reads by `rule` from the front of the input.
fn read_front<'a>(rule: Rule, input: &'a [Spanned<Token>]) -> (r: ParseResult<'a, Spanned<Expr>>)
    requires
        rule_at(rule, input@, 0) != G::Stop,
    ensures
        reads(input@, rule_at(rule, input@, 0), r),
{
    match run_rule(rule, input, 0) {
        Read::Got(e, q) => {
            let rest = slice_subrange(input, q, input.len());
            Ok((rest, e))
        },
        _ => Err(input),
    }
}

/// Whether reading by `rule` from the front of the input stops the parser
/// for good.
pub fn stops(rule: Rule, input: &[Spanned<Token>]) -> (r: bool)
    ensures
        r == (rule_at(rule, input@, 0) == G::Stop),
{
    match run_rule(rule, input, 0) {
        Read::Stop => true,
        _ => false,
    }
}

/// A constant: a built-in function, a boolean, a string or a number. Inputs
/// at which it stops the parser for good, as `stops` tells, are not accepted.
pub fn constant<'a>(input: &'a [Spanned<Token>]) -> (r: ParseResult<'a, Spanned<Expr>>)
    requires
        rule_constant(input@, 0) != G::Stop,
    ensures
        reads(input@, rule_constant(input@, 0), r),
{
    read_front(Rule::Constant, input)
}

/// An application: a name or built-in function and its arguments.
pub fn app<'a>(input: &'a [Spanned<Token>]) -> (r: ParseResult<'a, Spanned<Expr>>)
    requires
        rule_app(input@, 0) != G::Stop,
    ensures
        reads(input@, rule_app(input@, 0), r),
{
    read_front(Rule::App, input)
}

/// An expression of a function's body.
pub fn func_expr<'a>(input: &'a [Spanned<Token>]) -> (r: ParseResult<'a, Spanned<Expr>>)
    requires
        rule_func_expr(input@, 0) != G::Stop,
    ensures
        reads(input@, rule_func_expr(input@, 0), r),
{
    read_front(Rule::FuncExpr, input)
}

/// A function definition.
pub fn function<'a>(input: &'a [Spanned<Token>]) -> (r: ParseResult<'a, Spanned<Expr>>)
    requires
        rule_function(input@, 0) != G::Stop,
    ensures
        reads(input@, rule_function(input@, 0), r),
{
    read_front(Rule::Function, input)
}

/// `let definitions in body`.
pub fn let_expr<'a>(input: &'a [Spanned<Token>]) -> (r: ParseResult<'a, Spanned<Expr>>)
    requires
        rule_let_expr(input@, 0) != G::Stop,
    ensures
        reads(input@, rule_let_expr(input@, 0), r),
{
    read_front(Rule::LetExpr, input)
}

/// A conditional.
pub fn conditional<'a>(input: &'a [Spanned<Token>]) -> (r: ParseResult<'a, Spanned<Expr>>)
    requires
        rule_conditional(input@, 0) != G::Stop,
    ensures
        reads(input@, rule_conditional(input@, 0), r),
{
    read_front(Rule::Conditional, input)
}

/// A function by its name, parameters, body and span.
pub type FnV = (Seq<char>, Seq<NameV>, ExprV, Span);

/// The view of a function.
pub open spec fn fn_view(f: Function) -> FnV {
    (f.name@, names_view(f.prams@), expr_view(f.body), f.span)
}

/// Where the entry called `name` stands, if anywhere.
pub open spec fn find_entry(es: Seq<FnV>, name: Seq<char>) -> Option<int>
    decreases es.len(),
{
    if es.len() == 0 {
        None
    } else if es.last().0 == name {
        Some(es.len() - 1)
    } else {
        find_entry(es.drop_last(), name)
    }
}

/// The table that the first `k` definitions make: a later definition of a
/// name takes the place of the earlier one.
pub open spec fn table(fs: Seq<(ExprV, Span)>, k: int) -> Seq<FnV>
    decreases k,
{
    if k <= 0 || k > fs.len() {
        Seq::empty()
    } else {
        let prev = table(fs, k - 1);
        match fs[k - 1].0 {
            ExprV::Function(n, ps, b) => {
                let e = (n.0, ps, b.0, join(n.1, b.1));
                match find_entry(prev, n.0) {
                    Some(i) => prev.update(i, e),
                    None => prev.push(e),
                }
            },
            _ => prev,
        }
    }
}

/// What reading the functions of a program gives: their table and the place
/// after them, nothing read, or a stop for good.
pub enum TableV {
    Got(Seq<FnV>, int),
    Miss,
    Stop,
}

/// One or more functions from the front of the tokens.
pub open spec fn rule_parser(t: Toks) -> TableV {
    let (fs, q, stop) = functions(t, 0);
    if stop {
        TableV::Stop
    } else if fs.len() == 0 {
        TableV::Miss
    } else {
        TableV::Got(table(fs, fs.len() as int), q)
    }
}

/// Where a function called `name` stands among `out`, if anywhere.
fn find_entry_exec(out: &Vec<Function>, name: &String) -> (r: Option<usize>)
    ensures
        r matches Some(i) ==> i < out@.len() && find_entry(out@.map_values(|f: Function| fn_view(f)), name@)
            == Some(i as int),
        r is None ==> find_entry(out@.map_values(|f: Function| fn_view(f)), name@) is None,
{
    let ghost ov = out@.map_values(|f: Function| fn_view(f));
    let mut k: usize = out.len();
    assert(ov.subrange(0, k as int) =~= ov);
    while k > 0
        invariant
            k <= out@.len(),
            ov == out@.map_values(|f: Function| fn_view(f)),
            find_entry(ov, name@) == find_entry(ov.subrange(0, k as int), name@),
        decreases k,
    {
        proof {
            let sub = ov.subrange(0, k as int);
            assert(sub.drop_last() =~= ov.subrange(0, k - 1));
        }
        if str_eq(out[k - 1].name.as_str(), name.as_str()) {
            return Some(k - 1);
        }
        k = k - 1;
    }
    None
}

/// The whole program's functions: one or more from the front of the input,
/// a later definition of a name taking the place of the earlier one. Inputs
/// at which reading stops the parser for good, as `parser_stops` tells, are
/// not accepted.
pub fn parser<'a>(input: &'a [Spanned<Token>]) -> (r: Result<(&'a [Spanned<Token>], Vec<Function>), &'a [Spanned<Token>]>)
    requires
        rule_parser(input@) != TableV::Stop,
    ensures
        match r {
            Ok((rest, v)) => rule_parser(input@) matches TableV::Got(tb, q) && v@.map_values(
                |f: Function| fn_view(f),
            ) == tb && 0 <= q <= input@.len() && rest@ == input@.subrange(q, input@.len() as int),
            Err(rest) => rule_parser(input@) == TableV::Miss && rest@ == input@,
        },
{
    let (mut fs, q, stop) = functions_exec(input, 0);
    if stop || fs.len() == 0 {
        return Err(input);
    }
    let ghost fv = sviews(fs@);
    let ghost all = fs@;
    let n = fs.len();
    proof {
        lemma_sviews_index(fs@);
    }
    let mut out: Vec<Function> = Vec::new();
    let mut k: usize = 0;
    while k < n
        invariant
            k <= n,
            n == all.len(),
            fv == sviews(all),
            fv.len() == all.len(),
            forall|j: int| 0 <= j < all.len() ==> #[trigger] fv[j] == sview(all[j]),
            fs@ == all.subrange(k as int, n as int),
            out@.map_values(|f: Function| fn_view(f)) == table(fv, k as int),
        decreases n - k,
    {
        let ghost before = out@;
        let f = fs.remove(0);
        assert(f == all[k as int]);
        assert(fs@ =~= all.subrange(k + 1, n as int));
        let ghost fg = f;
        let ghost prev = before.map_values(|f: Function| fn_view(f));
        match f.node {
            Expr::Function(name, prams, body) => {
                let span = join_exec(&name.span, &body.span);
                let made = Function::new(name.node.as_str(), prams.as_slice(), body.node, span);
                let ghost e = (name.node@, names_view(prams@), expr_view(body.node), join(name.span, body.span));
                proof {
                    assert(names_view(made.prams@) =~= names_view(prams@));
                    assert(fn_view(made) == e);
                    assert(fv[k as int] == sview(fg));
                    assert(fv[k as int].0 == ExprV::Function(
                        name_view(name),
                        names_view(prams@),
                        Box::new(sview(*body)),
                    ));
                }
                match find_entry_exec(&out, &name.node) {
                    Some(i) => {
                        out.set(i, made);
                        assert(out@.map_values(|f: Function| fn_view(f)) =~= prev.update(i as int, e));
                    },
                    None => {
                        out.push(made);
                        assert(out@.map_values(|f: Function| fn_view(f)) =~= prev.push(e));
                    },
                }
                assert(out@.map_values(|f: Function| fn_view(f)) =~= table(fv, k + 1));
            },
            _ => {},
        }
        k = k + 1;
    }
    let rest = slice_subrange(input, q, input.len());
    Ok((rest, out))
}

/// Whether reading the program's functions stops the parser for good.
pub fn parser_stops(input: &[Spanned<Token>]) -> (r: bool)
    ensures
        r == (rule_parser(input@) == TableV::Stop),
{
    let (_, _, stop) = functions_exec(input, 0);
    stop
}

/// Whether what a rule gave at `p` lies after `p` and within `n` tokens.
pub open spec fn advances(g: G, p: int, n: int) -> bool {
    g matches G::Got(_, q) ==> p < q <= n
}

proof fn lemma_names(t: Toks, p: int)
    requires
        0 <= p <= t.len(),
    ensures
        p <= names(t, p).1 <= t.len(),
    decreases t.len() - p,
{
    if name_at(t, p) is Some {
        lemma_names(t, p + 1);
    }
}

proof fn lemma_app_args(t: Toks, p: int)
    requires
        0 <= p <= t.len(),
    ensures
        p <= app_args(t, p).1 <= t.len(),
    decreases t.len() - p,
{
    if p < t.len() {
        match arg(t, p) {
            G::Got(_, q) => if !(q <= p || q > t.len()) {
                lemma_app_args(t, q);
            },
            _ => {},
        }
    }
}

proof fn lemma_app(t: Toks, p: int)
    ensures
        advances(rule_app(t, p), p, t.len() as int),
{
    if head(t, p) is Got {
        lemma_app_args(t, p + 1);
    }
}

proof fn lemma_app_or_constant(t: Toks, p: int)
    ensures
        advances(app_or_constant(t, p), p, t.len() as int),
{
    lemma_app(t, p);
}

proof fn lemma_branch(t: Toks, p: int)
    ensures
        advances(branch(t, p), p, t.len() as int),
{
    lemma_app_or_constant(t, p + 1);
    lemma_app_or_constant(t, p);
}

proof fn lemma_if_part(t: Toks, p: int)
    ensures
        if_part(t, p) matches IfV::Got(_, _, q) ==> p < q <= t.len(),
{
    lemma_app_or_constant(t, p + 1);
    match app_or_constant(t, p + 1) {
        G::Got(_, q) => lemma_branch(t, q + 1),
        _ => {},
    }
}

proof fn lemma_else_ifs(t: Toks, p: int)
    requires
        0 <= p <= t.len(),
    ensures
        p <= else_ifs(t, p).1 <= t.len(),
    decreases t.len() - p,
{
    if p < t.len() && is_tok(t, p, STok::KeyWord(KeyWord::Else)) {
        match if_part(t, p + 1) {
            IfV::Got(_, _, q) => if !(q <= p || q > t.len()) {
                lemma_else_ifs(t, q);
            },
            _ => {},
        }
    }
}

proof fn lemma_conditional(t: Toks, p: int)
    ensures
        advances(rule_conditional(t, p), p, t.len() as int),
{
    lemma_if_part(t, p);
    match if_part(t, p) {
        IfV::Got(_, _, q) => {
            lemma_else_ifs(t, q);
            lemma_branch(t, else_ifs(t, q).1 + 1);
        },
        _ => {},
    }
}

proof fn lemma_let_function(t: Toks, p: int)
    ensures
        advances(let_function(t, p), p, t.len() as int),
{
    if name_at(t, p) is Some {
        lemma_names(t, p + 1);
        lemma_app_or_constant(t, names(t, p + 1).1 + 1);
    }
}

proof fn lemma_more_defs(t: Toks, p: int)
    requires
        0 <= p <= t.len(),
    ensures
        p <= more_defs(t, p).1 <= t.len(),
    decreases t.len() - p,
{
    if p < t.len() && is_tok(t, p, STok::Ctrl(',')) {
        match let_function(t, p + 1) {
            G::Got(_, q) => if !(q <= p || q > t.len()) {
                lemma_more_defs(t, q);
            },
            _ => {},
        }
    }
}

proof fn lemma_let_binding(t: Toks, p: int)
    ensures
        let_binding(t, p) matches LetV::Got(_, q) ==> p < q <= t.len(),
{
    lemma_let_function(t, p);
    match let_function(t, p) {
        G::Got(_, q) => lemma_more_defs(t, q),
        _ => {},
    }
}

proof fn lemma_let_expr(t: Toks, p: int)
    ensures
        advances(rule_let_expr(t, p), p, t.len() as int),
{
    lemma_let_binding(t, p + 2);
    lemma_let_binding(t, p + 1);
    let indented = if is_tok(t, p + 1, STok::InDent) {
        match let_binding(t, p + 2) {
            LetV::Got(ds, q) => if is_tok(t, q, STok::DeDent) {
                LetV::Got(ds, q + 1)
            } else {
                LetV::Miss
            },
            r => r,
        }
    } else {
        LetV::Miss
    };
    let binding = match indented {
        LetV::Miss => let_binding(t, p + 1),
        r => r,
    };
    match binding {
        LetV::Got(_, q) => lemma_app(t, q + 1),
        _ => {},
    }
}

proof fn lemma_do_body(t: Toks, p: int)
    requires
        0 <= p <= t.len(),
    ensures
        p <= do_body(t, p).1 <= t.len(),
    decreases t.len() - p,
{
    match rule_func_expr(t, p) {
        G::Got(_, q) => if !(q <= p || q > t.len()) {
            lemma_do_body(t, q);
        },
        _ => {},
    }
}

proof fn lemma_func_expr(t: Toks, p: int)
    ensures
        advances(rule_func_expr(t, p), p, t.len() as int),
{
    lemma_let_expr(t, p);
    if 0 <= p && p + 2 <= t.len() {
        lemma_do_body(t, p + 2);
    }
    lemma_conditional(t, p);
    lemma_app_or_constant(t, p);
}

/// Whatever a rule reads lies after where it started and within the tokens:
/// each rule that reads something moves forward.
pub proof fn law_rules_advance(rule: Rule, t: Toks, p: int)
    ensures
        rule_at(rule, t, p) matches G::Got(_, q) ==> p < q <= t.len(),
{
    match rule {
        Rule::Constant => {},
        Rule::App => lemma_app(t, p),
        Rule::FuncExpr => lemma_func_expr(t, p),
        Rule::Function => {
            if tok_at(t, p) matches Some(STok::Fn(_)) {
                lemma_names(t, p + 1);
                let p1 = names(t, p + 1).1;
                lemma_func_expr(t, p1 + 2);
                lemma_func_expr(t, p1 + 1);
            }
        },
        Rule::LetExpr => lemma_let_expr(t, p),
        Rule::Conditional => lemma_conditional(t, p),
    }
}

} // verus!
