//! The first generation's grammar of functions and expressions, over the
//! first lexer's tokens.
//!
//! Each rule tries its alternatives in order and takes the first that
//! succeeds; a repetition stops at the first item that fails and gives back
//! what that item read. Where the grammar builds its result, three inputs
//! stop the parser for good: an integer literal too
//! large for an `i128`, an `if` without an `else` branch, and a `;` with no
//! expression after it.
use vstd::prelude::*;
use core::ops::Range;
use crate::text::{i128_of, parse_i128, str_eq};
use super::lox::{BinaryOp, Value};
use super::token::{BlockType, KeyWord, Span, Token, TokenV};

verus! {

/// An expression with the range of characters it came from.
pub type Spanned<T> = (T, Span);

/// An expression of the first language.
#[derive(Debug, PartialEq)]
pub enum Expr {
    /// What error recovery leaves in place of a broken expression.
    Error,
    Value(Value),
    List(Vec<Spanned<Expr>>),
    Local(String),
    Let(String, Box<Spanned<Expr>>, Box<Spanned<Expr>>),
    Then(Box<Spanned<Expr>>, Box<Spanned<Expr>>),
    Binary(Box<Spanned<Expr>>, BinaryOp, Box<Spanned<Expr>>),
    Call(Box<Spanned<Expr>>, Spanned<Vec<Spanned<Expr>>>),
    If(Box<Spanned<Expr>>, Box<Spanned<Expr>>, Box<Spanned<Expr>>),
    Print(Box<Spanned<Expr>>),
    PrintLn(Box<Spanned<Expr>>),
}

/// An expression with its lists as sequences.
pub enum ExprV {
    Error,
    Value(Value),
    List(Seq<(ExprV, Span)>),
    Local(String),
    Let(String, Box<(ExprV, Span)>, Box<(ExprV, Span)>),
    Then(Box<(ExprV, Span)>, Box<(ExprV, Span)>),
    Binary(Box<(ExprV, Span)>, BinaryOp, Box<(ExprV, Span)>),
    Call(Box<(ExprV, Span)>, Seq<(ExprV, Span)>, Span),
    If(Box<(ExprV, Span)>, Box<(ExprV, Span)>, Box<(ExprV, Span)>),
    Print(Box<(ExprV, Span)>),
    PrintLn(Box<(ExprV, Span)>),
}

/// The view of an expression.
pub open spec fn expr_view(e: Expr) -> ExprV
    decreases e,
{
    match e {
        Expr::Error => ExprV::Error,
        Expr::Value(v) => ExprV::Value(v),
        Expr::List(items) => ExprV::List(exprs_view(items@)),
        Expr::Local(n) => ExprV::Local(n),
        Expr::Let(n, v, b) => ExprV::Let(n, Box::new(sview(*v)), Box::new(sview(*b))),
        Expr::Then(a, b) => ExprV::Then(Box::new(sview(*a)), Box::new(sview(*b))),
        Expr::Binary(a, op, b) => ExprV::Binary(Box::new(sview(*a)), op, Box::new(sview(*b))),
        Expr::Call(f, args) => ExprV::Call(Box::new(sview(*f)), exprs_view(args.0@), args.1),
        Expr::If(c, a, b) => ExprV::If(Box::new(sview(*c)), Box::new(sview(*a)), Box::new(sview(*b))),
        Expr::Print(a) => ExprV::Print(Box::new(sview(*a))),
        Expr::PrintLn(a) => ExprV::PrintLn(Box::new(sview(*a))),
    }
}

/// The view of an expression with its span.
pub open spec fn sview(e: Spanned<Expr>) -> (ExprV, Span)
    decreases e,
{
    (expr_view(e.0), e.1)
}

/// The views of expressions with their spans.
pub open spec fn exprs_view(s: Seq<Spanned<Expr>>) -> Seq<(ExprV, Span)>
    decreases s,
{
    if s.len() == 0 {
        Seq::empty()
    } else {
        exprs_view(s.subrange(0, s.len() - 1)).push(sview(s[s.len() - 1]))
    }
}

/// The tokens a parser reads.
pub type Toks = Seq<(Token, Span)>;

/// What a rule gives: an expression with its span and the place after it,
/// no match, or a stop for good.
pub enum R {
    Got(ExprV, Span, int),
    Miss,
    Panic,
}

/// Whether the token at `p` is `t`.
pub open spec fn is_tok(toks: Toks, p: int, t: TokenV) -> bool {
    0 <= p < toks.len() && toks[p].0@ == t
}

/// The range from the start of the token at `i` to the end of the one before
/// `j`.
pub open spec fn span_of(toks: Toks, i: int, j: int) -> Span {
    Range { start: toks[i].1.start, end: toks[j - 1].1.end }
}

/// The range from the start of one range to the end of another.
pub open spec fn join(a: Span, b: Span) -> Span {
    Range { start: a.start, end: b.end }
}

/// The value that the token at `p` is, if any; `None` inside for an integer
/// too large to read.
pub open spec fn value_at(toks: Toks, p: int) -> Option<Option<Value>> {
    if 0 <= p < toks.len() {
        match toks[p].0 {
            Token::KeyWord(KeyWord::True) => Some(Some(Value::Boolean(true))),
            Token::KeyWord(KeyWord::False) => Some(Some(Value::Boolean(false))),
            Token::Int(n) => Some(
                match i128_of(n@) {
                    Some(v) => Some(Value::Int(v)),
                    None => None,
                },
            ),
            Token::Float(f) => Some(Some(Value::Float(f))),
            Token::String(s) => Some(Some(Value::String(s))),
            _ => None,
        }
    } else {
        None
    }
}

/// The operators of a binary level: 0 products, 1 sums, 2 comparisons.
pub open spec fn level_op(level: nat, t: TokenV) -> Option<BinaryOp> {
    if level == 0 {
        if t == TokenV::Op("*"@) {
            Some(BinaryOp::Mul)
        } else if t == TokenV::Op("/"@) {
            Some(BinaryOp::Div)
        } else {
            None
        }
    } else if level == 1 {
        if t == TokenV::Op("+"@) {
            Some(BinaryOp::Add)
        } else if t == TokenV::Op("-"@) {
            Some(BinaryOp::Sub)
        } else {
            None
        }
    } else {
        if t == TokenV::Op("=="@) {
            Some(BinaryOp::Eq)
        } else if t == TokenV::Op("!="@) {
            Some(BinaryOp::NotEq)
        } else {
            None
        }
    }
}

/// A sequence of expressions, each read where the one before ended.
pub enum RS {
    Got(Seq<(ExprV, Span)>, int),
    Panic,
}

/// An expression: block expressions chained, or an operator expression; then
/// `;` and the next expression, again and again.
pub open spec fn expr(toks: Toks, p: int) -> R
    decreases toks.len() - p, 20nat,
{
    if p < 0 || p > toks.len() {
        R::Miss
    } else {
        let first = match block_chain(toks, p) {
            R::Miss => raw(toks, p),
            other => other,
        };
        match first {
            R::Got(e, s, p1) => if p1 <= p || p1 > toks.len() {
                R::Miss
            } else {
                then_rest(toks, e, s, p1)
            },
            other => other,
        }
    }
}

/// After an expression: `;` and the next expression, grouped to the right.
pub open spec fn then_rest(toks: Toks, a: ExprV, s: Span, p: int) -> R
    decreases toks.len() - p, 19nat,
{
    if p < 0 || p > toks.len() {
        R::Miss
    } else if is_tok(toks, p, TokenV::Ctrl(';')) {
        match expr(toks, p + 1) {
            R::Got(b, bs, p2) => R::Got(ExprV::Then(Box::new((a, s)), Box::new((b, bs))), s, p2),
            _ => R::Panic,
        }
    } else {
        R::Got(a, s, p)
    }
}

/// Block expressions one after the other.
pub open spec fn block_chain(toks: Toks, p: int) -> R
    decreases toks.len() - p, 18nat,
{
    if p < 0 || p > toks.len() {
        R::Miss
    } else {
        match block_expr(toks, p) {
            R::Got(e, s, p1) => if p1 <= p || p1 > toks.len() {
                R::Miss
            } else {
                chain_rest(toks, e, s, p1)
            },
            other => other,
        }
    }
}

/// More block expressions after one.
pub open spec fn chain_rest(toks: Toks, a: ExprV, s: Span, p: int) -> R
    decreases toks.len() - p, 17nat,
{
    if p < 0 || p > toks.len() {
        R::Miss
    } else {
        match block_expr(toks, p) {
            R::Got(b, bs, p1) => if p1 <= p || p1 > toks.len() {
                R::Miss
            } else {
                chain_rest(toks, ExprV::Then(Box::new((a, s)), Box::new((b, bs))), join(s, bs), p1)
            },
            R::Miss => R::Got(a, s, p),
            R::Panic => R::Panic,
        }
    }
}

/// A block or an `if`.
pub open spec fn block_expr(toks: Toks, p: int) -> R
    decreases toks.len() - p, 16nat,
{
    if p < 0 || p > toks.len() {
        R::Miss
    } else {
        match block(toks, p) {
            R::Miss => if_expr(toks, p),
            other => other,
        }
    }
}

/// An expression between the opening and the closing of a `do` block.
pub open spec fn block(toks: Toks, p: int) -> R
    decreases toks.len() - p, 15nat,
{
    if p < 0 || p >= toks.len() || !is_tok(toks, p, TokenV::OpenBlock(BlockType::Do)) {
        R::Miss
    } else {
        match expr(toks, p + 1) {
            R::Got(e, s, p1) => if is_tok(toks, p1, TokenV::CloseBlock(BlockType::Do)) {
                R::Got(e, s, p1 + 1)
            } else {
                R::Miss
            },
            other => other,
        }
    }
}

/// `if`, a condition, a block, and `else` with a block or another `if`.
pub open spec fn if_expr(toks: Toks, p: int) -> R
    decreases toks.len() - p, 15nat,
{
    if p < 0 || p >= toks.len() || !is_tok(toks, p, TokenV::KeyWord(KeyWord::If)) {
        R::Miss
    } else {
        match expr(toks, p + 1) {
            R::Got(c, cs, p1) => if p1 <= p || p1 > toks.len() {
                R::Miss
            } else {
                match block(toks, p1) {
                    R::Got(a, as_, p2) => if p2 <= p1 || p2 > toks.len() {
                        R::Miss
                    } else if is_tok(toks, p2, TokenV::KeyWord(KeyWord::Else)) {
                        let other = match block(toks, p2 + 1) {
                            R::Miss => if_expr(toks, p2 + 1),
                            o => o,
                        };
                        match other {
                            R::Got(b, bs, p3) => if p3 <= p || p3 > toks.len() {
                                R::Miss
                            } else {
                                R::Got(
                                    ExprV::If(Box::new((c, cs)), Box::new((a, as_)), Box::new((b, bs))),
                                    span_of(toks, p, p3),
                                    p3,
                                )
                            },
                            _ => R::Panic,
                        }
                    } else {
                        R::Panic
                    },
                    other => other,
                }
            },
            other => other,
        }
    }
}

/// An operator expression: comparisons of sums of products of calls.
pub open spec fn raw(toks: Toks, p: int) -> R
    decreases toks.len() - p, 14nat,
{
    level(toks, 2, p)
}

/// A binary level: operands joined by the level's operators, grouped to the
/// left.
pub open spec fn level(toks: Toks, l: nat, p: int) -> R
    decreases toks.len() - p, 9 + 2 * l,
{
    if p < 0 || p > toks.len() || l > 2 {
        R::Miss
    } else {
        let first = if l == 0 {
            call(toks, p)
        } else {
            level(toks, (l - 1) as nat, p)
        };
        match first {
            R::Got(e, s, p1) => if p1 <= p || p1 > toks.len() {
                R::Miss
            } else {
                level_rest(toks, l, e, s, p1)
            },
            other => other,
        }
    }
}

/// The operators and operands after a left operand.
pub open spec fn level_rest(toks: Toks, l: nat, a: ExprV, s: Span, p: int) -> R
    decreases toks.len() - p, 8 + 2 * l,
{
    if p < 0 || p > toks.len() || l > 2 {
        R::Miss
    } else if p < toks.len() && level_op(l, toks[p].0@) is Some {
        let op = level_op(l, toks[p].0@)->0;
        let right = if l == 0 {
            call(toks, p + 1)
        } else {
            level(toks, (l - 1) as nat, p + 1)
        };
        match right {
            R::Got(b, bs, p2) => if p2 <= p || p2 > toks.len() {
                R::Miss
            } else {
                level_rest(toks, l, ExprV::Binary(Box::new((a, s)), op, Box::new((b, bs))), join(s, bs), p2)
            },
            R::Miss => R::Got(a, s, p),
            R::Panic => R::Panic,
        }
    } else {
        R::Got(a, s, p)
    }
}

/// An atom, then argument blocks.
pub open spec fn call(toks: Toks, p: int) -> R
    decreases toks.len() - p, 8nat,
{
    if p < 0 || p > toks.len() {
        R::Miss
    } else {
        match atom(toks, p) {
            R::Got(e, s, p1) => if p1 <= p || p1 > toks.len() {
                R::Miss
            } else {
                call_rest(toks, e, s, p1)
            },
            other => other,
        }
    }
}

/// Argument blocks after a function.
pub open spec fn call_rest(toks: Toks, f: ExprV, s: Span, p: int) -> R
    decreases toks.len() - p, 7nat,
{
    if p < 0 || p > toks.len() {
        R::Miss
    } else if is_tok(toks, p, TokenV::OpenBlock(BlockType::Arg)) {
        match exprs_from(toks, p + 1) {
            RS::Panic => R::Panic,
            RS::Got(args, p1) => if p1 <= p || p1 > toks.len() {
                R::Miss
            } else if is_tok(toks, p1, TokenV::CloseBlock(BlockType::Arg)) {
                let args_span = span_of(toks, p, p1 + 1);
                call_rest(toks, ExprV::Call(Box::new((f, s)), args, args_span), join(s, args_span), p1 + 1)
            } else {
                R::Got(f, s, p)
            },
        }
    } else {
        R::Got(f, s, p)
    }
}

/// Expressions, as many as can be read.
pub open spec fn exprs_from(toks: Toks, p: int) -> RS
    decreases toks.len() - p, 21nat,
{
    if p < 0 || p > toks.len() {
        RS::Got(Seq::empty(), p)
    } else {
        match expr(toks, p) {
            R::Got(e, s, p1) => if p1 <= p || p1 > toks.len() {
                RS::Got(Seq::empty(), p)
            } else {
                match exprs_from(toks, p1) {
                    RS::Got(rest, p2) => RS::Got(seq![(e, s)] + rest, p2),
                    RS::Panic => RS::Panic,
                }
            },
            R::Miss => RS::Got(Seq::empty(), p),
            R::Panic => RS::Panic,
        }
    }
}

/// Expressions separated by `,`, with a `,` after the last one allowed.
pub open spec fn items_from(toks: Toks, p: int) -> RS
    decreases toks.len() - p, 21nat,
{
    if p < 0 || p > toks.len() {
        RS::Got(Seq::empty(), p)
    } else {
        match expr(toks, p) {
            R::Got(e, s, p1) => if p1 <= p || p1 > toks.len() {
                RS::Got(Seq::empty(), p)
            } else if is_tok(toks, p1, TokenV::Ctrl(',')) {
                match items_from(toks, p1 + 1) {
                    RS::Got(rest, p2) => RS::Got(seq![(e, s)] + rest, p2),
                    RS::Panic => RS::Panic,
                }
            } else {
                RS::Got(seq![(e, s)], p1)
            },
            R::Miss => RS::Got(Seq::empty(), p),
            R::Panic => RS::Panic,
        }
    }
}

/// A value, a name, a `let`, a list, a print, or an expression in brackets.
pub open spec fn atom(toks: Toks, p: int) -> R
    decreases toks.len() - p, 6nat,
{
    if p < 0 || p >= toks.len() {
        R::Miss
    } else {
        let t = toks[p].0;
        match value_at(toks, p) {
            Some(None) => R::Panic,
            Some(Some(v)) => R::Got(ExprV::Value(v), span_of(toks, p, p + 1), p + 1),
            None => match t {
                Token::Id(n) => R::Got(ExprV::Local(n), span_of(toks, p, p + 1), p + 1),
                Token::OpenBlock(BlockType::Let) => if p + 2 < toks.len() && toks[p + 1].0 is Id
                    && is_tok(toks, p + 2, TokenV::Op("="@)) {
                    let name = toks[p + 1].0->Id_0;
                    match raw(toks, p + 3) {
                        R::Got(v, vs, p1) => if p1 <= p || p1 >= toks.len() || !is_tok(
                            toks,
                            p1,
                            TokenV::CloseBlock(BlockType::Let),
                        ) {
                            R::Miss
                        } else {
                            match expr(toks, p1 + 1) {
                                R::Got(b, bs, p2) => if p2 <= p || p2 > toks.len() {
                                    R::Miss
                                } else {
                                    R::Got(
                                        ExprV::Let(name, Box::new((v, vs)), Box::new((b, bs))),
                                        span_of(toks, p, p2),
                                        p2,
                                    )
                                },
                                other => other,
                            }
                        },
                        other => other,
                    }
                } else {
                    R::Miss
                },
                Token::Ctrl('[') => match items_from(toks, p + 1) {
                    RS::Panic => R::Panic,
                    RS::Got(items, p1) => if p1 <= p || p1 > toks.len() {
                        R::Miss
                    } else if is_tok(toks, p1, TokenV::Ctrl(']')) {
                        R::Got(ExprV::List(items), span_of(toks, p, p1 + 1), p1 + 1)
                    } else {
                        R::Miss
                    },
                },
                Token::KeyWord(KeyWord::Print) | Token::KeyWord(KeyWord::PrintLn) => if is_tok(
                    toks,
                    p + 1,
                    TokenV::OpenBlock(BlockType::Arg),
                ) {
                    match expr(toks, p + 2) {
                        R::Got(a, s, p1) => if p1 > p && is_tok(toks, p1, TokenV::CloseBlock(BlockType::Arg)) {
                            let e = if t == Token::KeyWord(KeyWord::Print) {
                                ExprV::Print(Box::new((a, s)))
                            } else {
                                ExprV::PrintLn(Box::new((a, s)))
                            };
                            R::Got(e, span_of(toks, p, p1 + 1), p1 + 1)
                        } else {
                            R::Miss
                        },
                        other => other,
                    }
                } else {
                    R::Miss
                },
                Token::Ctrl('(') => match expr(toks, p + 1) {
                    R::Got(e, s, p1) => if is_tok(toks, p1, TokenV::Ctrl(')')) {
                        R::Got(e, s, p1 + 1)
                    } else {
                        R::Miss
                    },
                    other => other,
                },
                _ => R::Miss,
            },
        }
    }
}

/// What a rule gives, as the parser runs.
#[derive(Debug)]
pub enum Parsed {
    Got(Spanned<Expr>, usize),
    Miss,
    Panic,
}

/// The view of a rule's result.
pub open spec fn parsed_view(r: Parsed) -> R {
    match r {
        Parsed::Got(e, p) => R::Got(expr_view(e.0), e.1, p as int),
        Parsed::Miss => R::Miss,
        Parsed::Panic => R::Panic,
    }
}

/// A sequence of expressions, as the parser runs.
#[derive(Debug)]
pub enum ParsedList {
    Got(Vec<Spanned<Expr>>, usize),
    Panic,
}

/// The view of a sequence's result.
pub open spec fn list_view(r: ParsedList) -> RS {
    match r {
        ParsedList::Got(v, p) => RS::Got(exprs_view(v@), p as int),
        ParsedList::Panic => RS::Panic,
    }
}

/// Prepending an expression to a sequence.
proof fn lemma_exprs_view_prepend(e: Spanned<Expr>, v: Seq<Spanned<Expr>>)
    ensures
        exprs_view(seq![e] + v) == seq![sview(e)] + exprs_view(v),
    decreases v.len(),
{
    if v.len() == 0 {
        assert(seq![e] + v =~= seq![e]);
        assert(seq![e].subrange(0, 0) =~= Seq::<Spanned<Expr>>::empty());
        assert(exprs_view(Seq::<Spanned<Expr>>::empty()) =~= Seq::<(ExprV, Span)>::empty());
        assert(exprs_view(seq![e]) =~= seq![sview(e)]);
        assert(seq![sview(e)] + exprs_view(v) =~= seq![sview(e)]);
    } else {
        let w = seq![e] + v;
        assert(w.subrange(0, w.len() - 1) =~= seq![e] + v.subrange(0, v.len() - 1));
        lemma_exprs_view_prepend(e, v.subrange(0, v.len() - 1));
        assert(w[w.len() - 1] == v[v.len() - 1]);
        assert(seq![sview(e)] + exprs_view(v) =~= (seq![sview(e)] + exprs_view(v.subrange(0, v.len() - 1))).push(
            sview(v[v.len() - 1]),
        ));
    }
}

/// Whether the token at `p` is `Ctrl(c)`.
fn at_ctrl(toks: &[(Token, Span)], p: usize, c: char) -> (r: bool)
    ensures
        r == is_tok(toks@, p as int, TokenV::Ctrl(c)),
{
    p < toks.len() && match &toks[p].0 {
        Token::Ctrl(d) => *d == c,
        _ => false,
    }
}

/// Whether the token at `p` opens a block of kind `b`.
fn at_open(toks: &[(Token, Span)], p: usize, b: BlockType) -> (r: bool)
    ensures
        r == is_tok(toks@, p as int, TokenV::OpenBlock(b)),
{
    p < toks.len() && match &toks[p].0 {
        Token::OpenBlock(d) => *d == b,
        _ => false,
    }
}

/// Whether the token at `p` closes a block of kind `b`.
fn at_close(toks: &[(Token, Span)], p: usize, b: BlockType) -> (r: bool)
    ensures
        r == is_tok(toks@, p as int, TokenV::CloseBlock(b)),
{
    p < toks.len() && match &toks[p].0 {
        Token::CloseBlock(d) => *d == b,
        _ => false,
    }
}

/// Whether the token at `p` is the keyword `k`.
fn at_keyword(toks: &[(Token, Span)], p: usize, k: KeyWord) -> (r: bool)
    ensures
        r == is_tok(toks@, p as int, TokenV::KeyWord(k)),
{
    p < toks.len() && match &toks[p].0 {
        Token::KeyWord(d) => *d == k,
        _ => false,
    }
}

/// Whether the token at `p` is the operator `op`.
fn at_op(toks: &[(Token, Span)], p: usize, op: &str) -> (r: bool)
    ensures
        r == is_tok(toks@, p as int, TokenV::Op(op@)),
{
    p < toks.len() && match &toks[p].0 {
        Token::Op(s) => str_eq(s.as_str(), op),
        _ => false,
    }
}

/// The range of the tokens from `i` to before `j`.
fn span_exec(toks: &[(Token, Span)], i: usize, j: usize) -> (r: Span)
    requires
        i < j <= toks@.len(),
    ensures
        r == span_of(toks@, i as int, j as int),
{
    Range { start: toks[i].1.start, end: toks[j - 1].1.end }
}

/// The operator of level `l` that the token at `p` is, if any.
fn level_op_exec(toks: &[(Token, Span)], p: usize, l: u8) -> (r: Option<BinaryOp>)
    requires
        p < toks@.len(),
        l <= 2,
    ensures
        r == level_op(l as nat, toks@[p as int].0@),
{
    match &toks[p].0 {
        Token::Op(s) => {
            let s = s.as_str();
            if l == 0 {
                if str_eq(s, "*") {
                    Some(BinaryOp::Mul)
                } else if str_eq(s, "/") {
                    Some(BinaryOp::Div)
                } else {
                    None
                }
            } else if l == 1 {
                if str_eq(s, "+") {
                    Some(BinaryOp::Add)
                } else if str_eq(s, "-") {
                    Some(BinaryOp::Sub)
                } else {
                    None
                }
            } else {
                if str_eq(s, "==") {
                    Some(BinaryOp::Eq)
                } else if str_eq(s, "!=") {
                    Some(BinaryOp::NotEq)
                } else {
                    None
                }
            }
        },
        _ => None,
    }
}

/// Reads an expression at `p`.
fn expr_exec(toks: &[(Token, Span)], p: usize) -> (r: Parsed)
    ensures
        parsed_view(r) == expr(toks@, p as int),
    decreases toks@.len() - p, 20nat,
{
    if p > toks.len() {
        return Parsed::Miss;
    }
    let first = match block_chain_exec(toks, p) {
        Parsed::Miss => raw_exec(toks, p),
        other => other,
    };
    match first {
        Parsed::Got(e, p1) => {
            if p1 <= p || p1 > toks.len() {
                Parsed::Miss
            } else {
                then_rest_exec(toks, e, p1)
            }
        },
        other => other,
    }
}

fn then_rest_exec(toks: &[(Token, Span)], a: Spanned<Expr>, p: usize) -> (r: Parsed)
    ensures
        parsed_view(r) == then_rest(toks@, expr_view(a.0), a.1, p as int),
    decreases toks@.len() - p, 19nat,
{
    if p > toks.len() {
        return Parsed::Miss;
    }
    if at_ctrl(toks, p, ';') {
        match expr_exec(toks, p + 1) {
            Parsed::Got(b, p2) => {
                let s = Range { start: a.1.start, end: a.1.end };
                Parsed::Got((Expr::Then(Box::new(a), Box::new(b)), s), p2)
            },
            _ => Parsed::Panic,
        }
    } else {
        Parsed::Got(a, p)
    }
}

fn block_chain_exec(toks: &[(Token, Span)], p: usize) -> (r: Parsed)
    ensures
        parsed_view(r) == block_chain(toks@, p as int),
    decreases toks@.len() - p, 18nat,
{
    if p > toks.len() {
        return Parsed::Miss;
    }
    match block_expr_exec(toks, p) {
        Parsed::Got(e, p1) => {
            if p1 <= p || p1 > toks.len() {
                Parsed::Miss
            } else {
                chain_rest_exec(toks, e, p1)
            }
        },
        other => other,
    }
}

fn chain_rest_exec(toks: &[(Token, Span)], a: Spanned<Expr>, p: usize) -> (r: Parsed)
    ensures
        parsed_view(r) == chain_rest(toks@, expr_view(a.0), a.1, p as int),
    decreases toks@.len() - p, 17nat,
{
    if p > toks.len() {
        return Parsed::Miss;
    }
    match block_expr_exec(toks, p) {
        Parsed::Got(b, p1) => {
            if p1 <= p || p1 > toks.len() {
                Parsed::Miss
            } else {
                let s = Range { start: a.1.start, end: b.1.end };
                chain_rest_exec(toks, (Expr::Then(Box::new(a), Box::new(b)), s), p1)
            }
        },
        Parsed::Miss => Parsed::Got(a, p),
        Parsed::Panic => Parsed::Panic,
    }
}

fn block_expr_exec(toks: &[(Token, Span)], p: usize) -> (r: Parsed)
    ensures
        parsed_view(r) == block_expr(toks@, p as int),
    decreases toks@.len() - p, 16nat,
{
    if p > toks.len() {
        return Parsed::Miss;
    }
    match block_exec(toks, p) {
        Parsed::Miss => if_exec(toks, p),
        other => other,
    }
}

fn block_exec(toks: &[(Token, Span)], p: usize) -> (r: Parsed)
    ensures
        parsed_view(r) == block(toks@, p as int),
    decreases toks@.len() - p, 15nat,
{
    if p >= toks.len() || !at_open(toks, p, BlockType::Do) {
        return Parsed::Miss;
    }
    match expr_exec(toks, p + 1) {
        Parsed::Got(e, p1) => {
            if at_close(toks, p1, BlockType::Do) {
                Parsed::Got(e, p1 + 1)
            } else {
                Parsed::Miss
            }
        },
        other => other,
    }
}

fn if_exec(toks: &[(Token, Span)], p: usize) -> (r: Parsed)
    ensures
        parsed_view(r) == if_expr(toks@, p as int),
    decreases toks@.len() - p, 15nat,
{
    if p >= toks.len() || !at_keyword(toks, p, KeyWord::If) {
        return Parsed::Miss;
    }
    match expr_exec(toks, p + 1) {
        Parsed::Got(c, p1) => {
            if p1 <= p || p1 > toks.len() {
                return Parsed::Miss;
            }
            match block_exec(toks, p1) {
                Parsed::Got(a, p2) => {
                    if p2 <= p1 || p2 > toks.len() {
                        Parsed::Miss
                    } else if at_keyword(toks, p2, KeyWord::Else) {
                        let other = match block_exec(toks, p2 + 1) {
                            Parsed::Miss => if_exec(toks, p2 + 1),
                            o => o,
                        };
                        match other {
                            Parsed::Got(b, p3) => {
                                if p3 <= p || p3 > toks.len() {
                                    return Parsed::Miss;
                                }
                                let s = span_exec(toks, p, p3);
                                Parsed::Got((Expr::If(Box::new(c), Box::new(a), Box::new(b)), s), p3)
                            },
                            _ => Parsed::Panic,
                        }
                    } else {
                        Parsed::Panic
                    }
                },
                other => other,
            }
        },
        other => other,
    }
}

fn raw_exec(toks: &[(Token, Span)], p: usize) -> (r: Parsed)
    ensures
        parsed_view(r) == raw(toks@, p as int),
    decreases toks@.len() - p, 14nat,
{
    level_exec(toks, 2, p)
}

fn level_exec(toks: &[(Token, Span)], l: u8, p: usize) -> (r: Parsed)
    ensures
        parsed_view(r) == level(toks@, l as nat, p as int),
    decreases toks@.len() - p, 9 + 2 * l,
{
    if p > toks.len() || l > 2 {
        return Parsed::Miss;
    }
    let first = if l == 0 {
        call_exec(toks, p)
    } else {
        level_exec(toks, l - 1, p)
    };
    match first {
        Parsed::Got(e, p1) => {
            if p1 <= p || p1 > toks.len() {
                Parsed::Miss
            } else {
                level_rest_exec(toks, l, e, p1)
            }
        },
        other => other,
    }
}

fn level_rest_exec(toks: &[(Token, Span)], l: u8, a: Spanned<Expr>, p: usize) -> (r: Parsed)
    ensures
        parsed_view(r) == level_rest(toks@, l as nat, expr_view(a.0), a.1, p as int),
    decreases toks@.len() - p, 8 + 2 * l,
{
    if p > toks.len() || l > 2 {
        return Parsed::Miss;
    }
    if p == toks.len() {
        return Parsed::Got(a, p);
    }
    match level_op_exec(toks, p, l) {
        None => Parsed::Got(a, p),
        Some(op) => {
            let right = if l == 0 {
                call_exec(toks, p + 1)
            } else {
                level_exec(toks, l - 1, p + 1)
            };
            match right {
                Parsed::Got(b, p2) => {
                    if p2 <= p || p2 > toks.len() {
                        Parsed::Miss
                    } else {
                        let s = Range { start: a.1.start, end: b.1.end };
                        level_rest_exec(toks, l, (Expr::Binary(Box::new(a), op, Box::new(b)), s), p2)
                    }
                },
                Parsed::Miss => Parsed::Got(a, p),
                Parsed::Panic => Parsed::Panic,
            }
        },
    }
}

fn call_exec(toks: &[(Token, Span)], p: usize) -> (r: Parsed)
    ensures
        parsed_view(r) == call(toks@, p as int),
    decreases toks@.len() - p, 8nat,
{
    if p > toks.len() {
        return Parsed::Miss;
    }
    match atom_exec(toks, p) {
        Parsed::Got(e, p1) => {
            if p1 <= p || p1 > toks.len() {
                Parsed::Miss
            } else {
                call_rest_exec(toks, e, p1)
            }
        },
        other => other,
    }
}

fn call_rest_exec(toks: &[(Token, Span)], f: Spanned<Expr>, p: usize) -> (r: Parsed)
    ensures
        parsed_view(r) == call_rest(toks@, expr_view(f.0), f.1, p as int),
    decreases toks@.len() - p, 7nat,
{
    if p > toks.len() {
        return Parsed::Miss;
    }
    if !at_open(toks, p, BlockType::Arg) {
        return Parsed::Got(f, p);
    }
    match exprs_exec(toks, p + 1) {
        ParsedList::Panic => Parsed::Panic,
        ParsedList::Got(args, p1) => {
            if p1 <= p || p1 > toks.len() {
                Parsed::Miss
            } else if at_close(toks, p1, BlockType::Arg) {
                let args_span = span_exec(toks, p, p1 + 1);
                let s = Range { start: f.1.start, end: args_span.end };
                call_rest_exec(toks, (Expr::Call(Box::new(f), (args, args_span)), s), p1 + 1)
            } else {
                Parsed::Got(f, p)
            }
        },
    }
}

fn exprs_exec(toks: &[(Token, Span)], p: usize) -> (r: ParsedList)
    ensures
        list_view(r) == exprs_from(toks@, p as int),
    decreases toks@.len() - p, 21nat,
{
    if p > toks.len() {
        proof {
            assert(exprs_view(Seq::<Spanned<Expr>>::empty()) =~= Seq::<(ExprV, Span)>::empty());
        }
        return ParsedList::Got(Vec::new(), p);
    }
    match expr_exec(toks, p) {
        Parsed::Got(e, p1) => {
            if p1 <= p || p1 > toks.len() {
                proof {
                    assert(exprs_view(Seq::<Spanned<Expr>>::empty()) =~= Seq::<(ExprV, Span)>::empty());
                }
                ParsedList::Got(Vec::new(), p)
            } else {
                match exprs_exec(toks, p1) {
                    ParsedList::Got(rest, p2) => {
                        let ghost e0 = e;
                        let ghost rv = rest@;
                        let mut v = vec![e];
                        let mut rest = rest;
                        v.append(&mut rest);
                        proof {
                            assert(v@ =~= seq![e0] + rv);
                            lemma_exprs_view_prepend(e0, rv);
                        }
                        ParsedList::Got(v, p2)
                    },
                    ParsedList::Panic => ParsedList::Panic,
                }
            }
        },
        Parsed::Miss => {
            proof {
                assert(exprs_view(Seq::<Spanned<Expr>>::empty()) =~= Seq::<(ExprV, Span)>::empty());
            }
            ParsedList::Got(Vec::new(), p)
        },
        Parsed::Panic => ParsedList::Panic,
    }
}

fn items_exec(toks: &[(Token, Span)], p: usize) -> (r: ParsedList)
    ensures
        list_view(r) == items_from(toks@, p as int),
    decreases toks@.len() - p, 21nat,
{
    proof {
        assert(exprs_view(Seq::<Spanned<Expr>>::empty()) =~= Seq::<(ExprV, Span)>::empty());
    }
    if p > toks.len() {
        return ParsedList::Got(Vec::new(), p);
    }
    match expr_exec(toks, p) {
        Parsed::Got(e, p1) => {
            if p1 <= p || p1 > toks.len() {
                ParsedList::Got(Vec::new(), p)
            } else if at_ctrl(toks, p1, ',') {
                match items_exec(toks, p1 + 1) {
                    ParsedList::Got(rest, p2) => {
                        let ghost e0 = e;
                        let ghost rv = rest@;
                        let mut v = vec![e];
                        let mut rest = rest;
                        v.append(&mut rest);
                        proof {
                            assert(v@ =~= seq![e0] + rv);
                            lemma_exprs_view_prepend(e0, rv);
                        }
                        ParsedList::Got(v, p2)
                    },
                    ParsedList::Panic => ParsedList::Panic,
                }
            } else {
                let ghost e0 = e;
                let v = vec![e];
                proof {
                    assert(v@ =~= seq![e0] + Seq::<Spanned<Expr>>::empty());
                    lemma_exprs_view_prepend(e0, Seq::<Spanned<Expr>>::empty());
                    assert(seq![sview(e0)] + Seq::<(ExprV, Span)>::empty() =~= seq![sview(e0)]);
                }
                ParsedList::Got(v, p1)
            }
        },
        Parsed::Miss => ParsedList::Got(Vec::new(), p),
        Parsed::Panic => ParsedList::Panic,
    }
}

fn atom_exec(toks: &[(Token, Span)], p: usize) -> (r: Parsed)
    ensures
        parsed_view(r) == atom(toks@, p as int),
    decreases toks@.len() - p, 6nat,
{
    if p >= toks.len() {
        return Parsed::Miss;
    }
    let one = span_exec(toks, p, p + 1);
    match &toks[p].0 {
        Token::KeyWord(KeyWord::True) => Parsed::Got((Expr::Value(Value::Boolean(true)), one), p + 1),
        Token::KeyWord(KeyWord::False) => Parsed::Got((Expr::Value(Value::Boolean(false)), one), p + 1),
        Token::Int(n) => match parse_i128(n.as_str()) {
            Some(v) => Parsed::Got((Expr::Value(Value::Int(v)), one), p + 1),
            None => Parsed::Panic,
        },
        Token::Float(f) => Parsed::Got((Expr::Value(Value::Float(f.clone())), one), p + 1),
        Token::String(s) => Parsed::Got((Expr::Value(Value::String(s.clone())), one), p + 1),
        Token::Id(n) => Parsed::Got((Expr::Local(n.clone()), one), p + 1),
        Token::OpenBlock(BlockType::Let) => {
            if toks.len() - p <= 2 || !at_op(toks, p + 2, "=") {
                return Parsed::Miss;
            }
            let name = match &toks[p + 1].0 {
                Token::Id(n) => n.clone(),
                _ => {
                    return Parsed::Miss;
                },
            };
            match raw_exec(toks, p + 3) {
                Parsed::Got(v, p1) => {
                    if p1 <= p || p1 >= toks.len() || !at_close(toks, p1, BlockType::Let) {
                        Parsed::Miss
                    } else {
                        match expr_exec(toks, p1 + 1) {
                            Parsed::Got(b, p2) => {
                                if p2 <= p || p2 > toks.len() {
                                    return Parsed::Miss;
                                }
                                let s = span_exec(toks, p, p2);
                                Parsed::Got((Expr::Let(name, Box::new(v), Box::new(b)), s), p2)
                            },
                            other => other,
                        }
                    }
                },
                other => other,
            }
        },
        Token::Ctrl('[') => match items_exec(toks, p + 1) {
            ParsedList::Panic => Parsed::Panic,
            ParsedList::Got(items, p1) => {
                if p1 <= p || p1 > toks.len() {
                    Parsed::Miss
                } else if at_ctrl(toks, p1, ']') {
                    let s = span_exec(toks, p, p1 + 1);
                    Parsed::Got((Expr::List(items), s), p1 + 1)
                } else {
                    Parsed::Miss
                }
            },
        },
        Token::KeyWord(KeyWord::Print) | Token::KeyWord(KeyWord::PrintLn) => {
            let is_print = match &toks[p].0 {
                Token::KeyWord(KeyWord::Print) => true,
                _ => false,
            };
            if !at_open(toks, p + 1, BlockType::Arg) {
                return Parsed::Miss;
            }
            match expr_exec(toks, p + 2) {
                Parsed::Got(a, p1) => {
                    if p1 > p && at_close(toks, p1, BlockType::Arg) {
                        let s = span_exec(toks, p, p1 + 1);
                        let e = if is_print {
                            Expr::Print(Box::new(a))
                        } else {
                            Expr::PrintLn(Box::new(a))
                        };
                        Parsed::Got((e, s), p1 + 1)
                    } else {
                        Parsed::Miss
                    }
                },
                other => other,
            }
        },
        Token::Ctrl('(') => match expr_exec(toks, p + 1) {
            Parsed::Got(e, p1) => {
                if at_ctrl(toks, p1, ')') {
                    Parsed::Got(e, p1 + 1)
                } else {
                    Parsed::Miss
                }
            },
            other => other,
        },
        _ => Parsed::Miss,
    }
}

/// Reads an expression at `pos`: the expression and the place after it, or
/// `None` where none starts there. Positions where `expr(tokens@, pos)` is
/// `R::Panic`, as `expr_panics` tells, are not accepted.
pub fn parse_expr(tokens: &[(Token, Span)], pos: usize) -> (r: Option<(Spanned<Expr>, usize)>)
    requires
        expr(tokens@, pos as int) != R::Panic,
    ensures
        match r {
            Some((e, p)) => expr(tokens@, pos as int) == R::Got(expr_view(e.0), e.1, p as int),
            None => expr(tokens@, pos as int) == R::Miss,
        },
{
    match expr_exec(tokens, pos) {
        Parsed::Got(e, p) => Some((e, p)),
        _ => None,
    }
}

/// Whether reading an expression at `pos` stops the parser for good.
pub fn expr_panics(tokens: &[(Token, Span)], pos: usize) -> (r: bool)
    ensures
        r == (expr(tokens@, pos as int) == R::Panic),
{
    match expr_exec(tokens, pos) {
        Parsed::Panic => true,
        _ => false,
    }
}

/// A function: its parameters and its body.
#[derive(Debug)]
pub struct Func {
    pub args: Vec<String>,
    pub body: Spanned<Expr>,
}

/// A function by its name, parameters and body.
pub type FuncV = (String, Seq<String>, (ExprV, Span));

/// The view of a named function.
pub open spec fn func_view(f: (String, Func)) -> FuncV {
    (f.0, f.1.args@, sview(f.1.body))
}

/// Names, one after the other from `p`, and the place after them.
pub open spec fn names_from(toks: Toks, p: int) -> (Seq<String>, int)
    decreases toks.len() - p,
{
    if 0 <= p < toks.len() && toks[p].0 is Id {
        let (rest, q) = names_from(toks, p + 1);
        (seq![toks[p].0->Id_0] + rest, q)
    } else {
        (Seq::empty(), p)
    }
}

/// What reading a function definition gives.
pub enum RF {
    Got(FuncV, Span, int),
    Miss,
    Panic,
}

/// A function definition: the opening of a function, its name, parameters
/// between the opening and closing of a parameter block (or none), `=`, and
/// its body between the opening and closing of a function block, then the
/// closing of the function. `Got` holds the span of the name too.
pub open spec fn func(toks: Toks, p: int) -> RF {
    if !is_tok(toks, p, TokenV::OpenBlock(BlockType::Fn)) || !(p + 1 < toks.len() && toks[p + 1].0 is Id) {
        RF::Miss
    } else {
        let name = toks[p + 1].0->Id_0;
        let (args, q) = if is_tok(toks, p + 2, TokenV::OpenBlock(BlockType::Pram)) {
            let (a, q0) = names_from(toks, p + 3);
            if is_tok(toks, q0, TokenV::CloseBlock(BlockType::Pram)) {
                (a, q0 + 1)
            } else {
                (Seq::empty(), p + 2)
            }
        } else {
            (Seq::empty(), p + 2)
        };
        if !is_tok(toks, q, TokenV::Op("="@)) || !is_tok(toks, q + 1, TokenV::OpenBlock(BlockType::FnBlock)) {
            RF::Miss
        } else {
            match expr(toks, q + 2) {
                R::Got(b, bs, q2) => if is_tok(toks, q2, TokenV::CloseBlock(BlockType::FnBlock)) && is_tok(
                    toks,
                    q2 + 1,
                    TokenV::CloseBlock(BlockType::Fn),
                ) {
                    RF::Got((name, args, (b, bs)), toks[p + 1].1, q2 + 2)
                } else {
                    RF::Miss
                },
                R::Miss => RF::Miss,
                R::Panic => RF::Panic,
            }
        }
    }
}

/// Function definitions, one after the other.
pub enum RFs {
    Got(Seq<FuncV>, Seq<Span>, int),
    Panic,
}

/// Function definitions from `p`, as many as can be read, with the spans of
/// their names.
pub open spec fn funcs_from(toks: Toks, p: int) -> RFs
    decreases toks.len() - p,
{
    if p < 0 || p > toks.len() {
        RFs::Got(Seq::empty(), Seq::empty(), p)
    } else {
        match func(toks, p) {
            RF::Got(f, s, q) => if q <= p || q > toks.len() {
                RFs::Got(Seq::empty(), Seq::empty(), p)
            } else {
                match funcs_from(toks, q) {
                    RFs::Got(fs, ss, q2) => RFs::Got(seq![f] + fs, seq![s] + ss, q2),
                    RFs::Panic => RFs::Panic,
                }
            },
            RF::Miss => RFs::Got(Seq::empty(), Seq::empty(), p),
            RF::Panic => RFs::Panic,
        }
    }
}

/// The first place from `i` on whose name an earlier function has, if any.
pub open spec fn first_dup(fs: Seq<FuncV>, i: int) -> Option<int>
    decreases fs.len() - i,
{
    if i < 0 || i >= fs.len() {
        None
    } else if exists|j: int| 0 <= j < i && #[trigger] fs[j].0@ == fs[i].0@ {
        Some(i)
    } else {
        first_dup(fs, i + 1)
    }
}

/// What reading the whole token sequence as function definitions gives.
pub enum FO {
    Parsed(Seq<FuncV>),
    /// A second function with the name, at the span of that name.
    Dup(Seq<char>, Span),
    /// The tokens from this place on are no function definition.
    Unexpected(int),
    Panic,
}

/// Function definitions up to the end of the tokens, each name once.
pub open spec fn funcs(toks: Toks) -> FO {
    match funcs_from(toks, 0) {
        RFs::Panic => FO::Panic,
        RFs::Got(fs, ss, q) => match first_dup(fs, 0) {
            Some(i) => FO::Dup(fs[i].0@, ss[i]),
            None => if q == toks.len() {
                FO::Parsed(fs)
            } else {
                FO::Unexpected(q)
            },
        },
    }
}

/// Why the tokens are no list of function definitions.
#[derive(Debug)]
pub enum FuncsError {
    /// A function of this name exists already; the span is the second name's.
    Duplicate(String, Span),
    /// The tokens from this place on are no function definition.
    Unexpected(usize),
}

fn names_exec(toks: &[(Token, Span)], p: usize) -> (r: (Vec<String>, usize))
    requires
        p <= toks@.len(),
    ensures
        (r.0@, r.1 as int) == names_from(toks@, p as int),
        r.1 <= toks@.len(),
    decreases toks@.len() - p,
{
    if p < toks.len() {
        match &toks[p].0 {
            Token::Id(n) => {
                let (rest, q) = names_exec(toks, p + 1);
                let mut v = vec![n.clone()];
                let ghost rv = rest@;
                let mut rest = rest;
                v.append(&mut rest);
                assert(v@ =~= seq![toks@[p as int].0->Id_0] + rv);
                return (v, q);
            },
            _ => {},
        }
    }
    (Vec::new(), p)
}

fn func_exec(toks: &[(Token, Span)], p: usize) -> (r: (Option<(String, Func, Span)>, usize, bool))
    ensures
        match func(toks@, p as int) {
            RF::Got(f, s, q) => r.0 matches Some((n, fu, sp)) && func_view((n, fu)) == f && sp == s && r.1
                == q,
            RF::Miss => r.0 is None && !r.2,
            RF::Panic => r.0 is None && r.2,
        },
{
    if !at_open(toks, p, BlockType::Fn) {
        return (None, p, false);
    }
    if toks.len() - p <= 1 {
        return (None, p, false);
    }
    let name = match &toks[p + 1].0 {
        Token::Id(n) => n.clone(),
        _ => {
            return (None, p, false);
        },
    };
    let mut args: Vec<String> = Vec::new();
    let mut q = p + 2;
    if at_open(toks, p + 2, BlockType::Pram) {
        let (a, q0) = names_exec(toks, p + 3);
        if at_close(toks, q0, BlockType::Pram) {
            args = a;
            q = q0 + 1;
        }
    }
    assert(args@.len() == 0 ==> args@ =~= Seq::<String>::empty());
    if !at_op(toks, q, "=") || !at_open(toks, q + 1, BlockType::FnBlock) {
        return (None, p, false);
    }
    match expr_exec(toks, q + 2) {
        Parsed::Got(b, q2) => {
            if at_close(toks, q2, BlockType::FnBlock) && at_close(toks, q2 + 1, BlockType::Fn) {
                let span = Range { start: toks[p + 1].1.start, end: toks[p + 1].1.end };
                (Some((name, Func { args, body: b }, span)), q2 + 2, false)
            } else {
                (None, p, false)
            }
        },
        Parsed::Miss => (None, p, false),
        Parsed::Panic => (None, p, true),
    }
}

fn funcs_exec(toks: &[(Token, Span)], p: usize) -> (r: (Vec<(String, Func)>, Vec<Span>, usize, bool))
    ensures
        match funcs_from(toks@, p as int) {
            RFs::Got(fs, ss, q) => !r.3 && r.0@.map_values(|f: (String, Func)| func_view(f)) == fs && r.1@
                == ss && r.2 == q,
            RFs::Panic => r.3,
        },
        r.1@.len() == r.0@.len(),
    decreases toks@.len() - p,
{
    proof {
        assert(Seq::<(String, Func)>::empty().map_values(|f: (String, Func)| func_view(f)) =~= Seq::<FuncV>::empty());
    }
    if p > toks.len() {
        return (Vec::new(), Vec::new(), p, false);
    }
    match func_exec(toks, p) {
        (Some((n, f, s)), q, _) => {
            if q <= p || q > toks.len() {
                return (Vec::new(), Vec::new(), p, false);
            }
            let (rest, spans, q2, panics) = funcs_exec(toks, q);
            if panics {
                return (Vec::new(), Vec::new(), p, true);
            }
            let ghost item = (n, f);
            let ghost rv = rest@;
            let ghost sv = spans@;
            let ghost s0 = s;
            let mut v = vec![(n, f)];
            let mut rest = rest;
            v.append(&mut rest);
            let mut w = vec![s];
            let mut spans = spans;
            w.append(&mut spans);
            assert(v@ =~= seq![item] + rv);
            assert(w@ =~= seq![s0] + sv);
            assert((seq![item] + rv).map_values(|f: (String, Func)| func_view(f)) =~= seq![func_view(item)]
                + rv.map_values(|f: (String, Func)| func_view(f)));
            (v, w, q2, false)
        },
        (None, _, panics) => (Vec::new(), Vec::new(), p, panics),
    }
}

/// Reads the whole token sequence as function definitions, each name once.
/// Token sequences where `funcs(tokens@)` is `FO::Panic`, as `funcs_panic`
/// tells, are not accepted.
pub fn parse_funcs(tokens: &[(Token, Span)]) -> (r: Result<Vec<(String, Func)>, FuncsError>)
    requires
        funcs(tokens@) != FO::Panic,
    ensures
        match funcs(tokens@) {
            FO::Parsed(fs) => r matches Ok(v) && v@.map_values(|f: (String, Func)| func_view(f)) == fs,
            FO::Dup(n, s) => r matches Err(FuncsError::Duplicate(m, sp)) && m@ == n && sp == s,
            FO::Unexpected(q) => r matches Err(FuncsError::Unexpected(k)) && k == q,
            FO::Panic => false,
        },
{
    let (fs, spans, q, _) = funcs_exec(tokens, 0);
    let ghost view = fs@.map_values(|f: (String, Func)| func_view(f));
    let mut i: usize = 0;
    while i < fs.len()
        invariant
            i <= fs@.len(),
            view == fs@.map_values(|f: (String, Func)| func_view(f)),
            funcs_from(tokens@, 0) matches RFs::Got(vs, ss, q0) && vs == view && ss == spans@ && q0 == q,
            spans@.len() == fs@.len(),
            first_dup(view, 0) == first_dup(view, i as int),
        decreases fs@.len() - i,
    {
        let mut j: usize = 0;
        while j < i
            invariant
                j <= i < fs@.len(),
                spans@.len() == fs@.len(),
                funcs_from(tokens@, 0) matches RFs::Got(vs, ss, q0) && vs == view && ss == spans@ && q0 == q,
                first_dup(view, 0) == first_dup(view, i as int),
                view == fs@.map_values(|f: (String, Func)| func_view(f)),
                forall|k: int| 0 <= k < j ==> view[k].0@ != view[i as int].0@,
            decreases i - j,
        {
            if str_eq(fs[j].0.as_str(), fs[i].0.as_str()) {
                assert(view[j as int].0@ == view[i as int].0@);
                assert(first_dup(view, i as int) == Some(i as int));
                let name = fs[i].0.clone();
                let sp = Range { start: spans[i].start, end: spans[i].end };
                assert(view[i as int].0 == fs@[i as int].0);
                assert(sp == spans@[i as int]);
                assert(funcs(tokens@) == FO::Dup(view[i as int].0@, spans@[i as int]));
                return Err(FuncsError::Duplicate(name, sp));
            }
            j = j + 1;
        }
        assert(first_dup(view, i as int) == first_dup(view, i + 1));
        i = i + 1;
    }
    if q == tokens.len() {
        Ok(fs)
    } else {
        Err(FuncsError::Unexpected(q))
    }
}

/// Whether reading the tokens as function definitions stops the parser for
/// good.
pub fn funcs_panic(tokens: &[(Token, Span)]) -> (r: bool)
    ensures
        r == (funcs(tokens@) == FO::Panic),
{
    let (_, _, _, panics) = funcs_exec(tokens, 0);
    panics
}

} // verus!
