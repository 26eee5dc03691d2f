//! The first generation's expression parser: recursive descent over the
//! first lexer's tokens, one function per precedence level.
use vstd::prelude::*;
use core::ops::Range;
use crate::text::{i128_of, parse_i128, str_eq};
use super::token::{KeyWord, Span, Spanned, Token, TokenV};
use super::eval::{Halt, HaltV, ValueV, lox_eval, lox_ev_exec, result_view};

verus! {

/// A value. A float keeps the text of its literal.
#[derive(Debug, PartialEq)]
pub enum Value {
    Boolean(bool),
    Int(i128),
    Float(String),
    String(String),
    List(Vec<Value>),
    Func(String),
}

/// A binary operator.
#[derive(Debug, Clone, Copy, PartialEq, Eq, Structural)]
pub enum BinaryOp {
    Add,
    Sub,
    Mul,
    Div,
    Eq,
    NotEq,
}

/// The binary operator that a token stands for, if any.
pub open spec fn binary_op_of(t: TokenV) -> Option<BinaryOp> {
    match t {
        TokenV::Op(s) => if s == "+"@ {
            Some(BinaryOp::Add)
        } else if s == "-"@ {
            Some(BinaryOp::Sub)
        } else if s == "*"@ {
            Some(BinaryOp::Mul)
        } else if s == "/"@ {
            Some(BinaryOp::Div)
        } else if s == "=="@ {
            Some(BinaryOp::Eq)
        } else if s == "!="@ {
            Some(BinaryOp::NotEq)
        } else {
            None
        },
        _ => None,
    }
}

/// The binary operator that `token` stands for, if any.
fn binary_op_exec(token: &Token) -> (r: Option<BinaryOp>)
    ensures
        r == binary_op_of(token@),
{
    match token {
        Token::Op(s) => {
            if str_eq(s.as_str(), "+") {
                Some(BinaryOp::Add)
            } else if str_eq(s.as_str(), "-") {
                Some(BinaryOp::Sub)
            } else if str_eq(s.as_str(), "*") {
                Some(BinaryOp::Mul)
            } else if str_eq(s.as_str(), "/") {
                Some(BinaryOp::Div)
            } else if str_eq(s.as_str(), "==") {
                Some(BinaryOp::Eq)
            } else if str_eq(s.as_str(), "!=") {
                Some(BinaryOp::NotEq)
            } else {
                None
            }
        },
        _ => None,
    }
}

impl BinaryOp {
    /// The binary operator that `token` stands for; the token must stand for
    /// one.
    pub fn new(token: &Token) -> (r: Self)
        requires
            binary_op_of(token@) is Some,
        ensures
            binary_op_of(token@) == Some(r),
    {
        match binary_op_exec(token) {
            Some(op) => op,
            None => BinaryOp::Add,
        }
    }
}

/// A unary operator.
#[derive(Debug, Clone, Copy, PartialEq, Eq, Structural)]
pub enum UnaryOp {
    Not,
    Neg,
}

/// The unary operator that a token stands for, if any.
pub open spec fn unary_op_of(t: TokenV) -> Option<UnaryOp> {
    match t {
        TokenV::KeyWord(KeyWord::Not) => Some(UnaryOp::Not),
        TokenV::Op(s) => if s == "!"@ {
            Some(UnaryOp::Not)
        } else if s == "-"@ {
            Some(UnaryOp::Neg)
        } else {
            None
        },
        _ => None,
    }
}

/// The unary operator that `token` stands for, if any.
fn unary_op_exec(token: &Token) -> (r: Option<UnaryOp>)
    ensures
        r == unary_op_of(token@),
{
    match token {
        Token::KeyWord(KeyWord::Not) => Some(UnaryOp::Not),
        Token::Op(s) => {
            if str_eq(s.as_str(), "!") {
                Some(UnaryOp::Not)
            } else if str_eq(s.as_str(), "-") {
                Some(UnaryOp::Neg)
            } else {
                None
            }
        },
        _ => None,
    }
}

impl UnaryOp {
    /// The unary operator that `token` stands for; the token must stand for
    /// one.
    pub fn new(token: &Token) -> (r: Self)
        requires
            unary_op_of(token@) is Some,
        ensures
            unary_op_of(token@) == Some(r),
    {
        match unary_op_exec(token) {
            Some(op) => op,
            None => UnaryOp::Not,
        }
    }
}

/// An expression node; children carry the range of characters they came
/// from.
#[derive(Debug, PartialEq)]
pub enum Expr {
    Error,
    Value(Value),
    List(Vec<Spanned<Expr>>),
    Local(String),
    Let(String, Box<Spanned<Expr>>, Box<Spanned<Expr>>),
    Binary(Box<Spanned<Expr>>, Spanned<BinaryOp>, Box<Spanned<Expr>>),
    Grouping(Box<Spanned<Expr>>),
    Unary(Spanned<UnaryOp>, Box<Spanned<Expr>>),
    App(Box<Spanned<Expr>>, Spanned<Vec<Spanned<Expr>>>),
    If(Box<Spanned<Expr>>, Box<Spanned<Expr>>, Box<Spanned<Expr>>),
    Then(Box<Spanned<Expr>>, Box<Spanned<Expr>>),
    Print(Box<Spanned<Expr>>),
}

/// A function: its arguments and its body.
#[derive(Debug)]
pub struct Func {
    pub args: Vec<String>,
    pub body: Spanned<Expr>,
}

/// An error with the range of characters it concerns.
#[derive(Debug)]
pub struct Error {
    pub span: Span,
    pub msg: String,
}

/// A copy of a range.
fn copy_span(s: &Span) -> (r: Span)
    ensures
        r == *s,
{
    Range { start: s.start, end: s.end }
}

/// The tokens a parser reads.
pub type Toks = Seq<Spanned<Token>>;

/// Whether the token at `cur` is the end; `None` when there is no token there
/// (reading it would go out of bounds).
pub open spec fn at_end(toks: Toks, cur: int) -> Option<bool> {
    if 0 <= cur < toks.len() {
        Some(toks[cur].0@ == TokenV::Eof)
    } else {
        None
    }
}

/// Whether the token at `cur` is the operator `op` (never at the end).
pub open spec fn check_op(toks: Toks, cur: int, op: Seq<char>) -> Option<bool> {
    match at_end(toks, cur) {
        None => None,
        Some(true) => Some(false),
        Some(false) => Some(toks[cur].0@ == TokenV::Op(op)),
    }
}

/// Reading past the token at `cur` (staying at the end); the token before
/// the new position must exist.
pub open spec fn advance(toks: Toks, cur: int) -> Option<int> {
    match at_end(toks, cur) {
        None => None,
        Some(end) => {
            let next = if end { cur } else { cur + 1 };
            if next >= 1 {
                Some(next)
            } else {
                None
            }
        },
    }
}

/// Reading past the first of `ops` that the token at `cur` is, if any.
pub open spec fn match_ops(toks: Toks, cur: int, ops: Seq<Seq<char>>) -> Option<(bool, int)>
    decreases ops.len(),
{
    if ops.len() == 0 {
        Some((false, cur))
    } else {
        match check_op(toks, cur, ops[0]) {
            None => None,
            Some(true) => match advance(toks, cur) {
                None => None,
                Some(next) => Some((true, next)),
            },
            Some(false) => match_ops(toks, cur, ops.drop_first()),
        }
    }
}

/// A failed match reads nothing.
pub proof fn lemma_match_ops_false(toks: Toks, cur: int, ops: Seq<Seq<char>>)
    ensures
        match_ops(toks, cur, ops) matches Some((false, c)) ==> c == cur,
    decreases ops.len(),
{
    if ops.len() > 0 {
        lemma_match_ops_false(toks, cur, ops.drop_first());
    }
}

/// A parse result: the expression with its range, and the position after it.
pub type PRes = Option<(Spanned<Expr>, int)>;

/// The range from the start of one range to the end of another.
pub open spec fn join(a: Span, b: Span) -> Span {
    Range { start: a.start, end: b.end }
}

/// A primary expression: a literal. A parenthesis makes the parser call
/// itself at the same place, forever; anything else is a panic.
pub open spec fn primary(toks: Toks, cur: int) -> PRes {
    if 0 <= cur < toks.len() {
        let span = toks[cur].1;
        let v = match toks[cur].0 {
            Token::KeyWord(KeyWord::False) => Some(Value::Boolean(false)),
            Token::KeyWord(KeyWord::True) => Some(Value::Boolean(true)),
            Token::String(s) => Some(Value::String(s)),
            Token::Int(i) => match i128_of(i@) {
                Some(n) => Some(Value::Int(n)),
                None => None,
            },
            Token::Float(f) => Some(Value::Float(f)),
            _ => None,
        };
        match v {
            None => None,
            Some(v) => match advance(toks, cur) {
                None => None,
                Some(next) => Some(((Expr::Value(v), span), next)),
            },
        }
    } else {
        None
    }
}

/// The operators of a level.
pub open spec fn unary_ops() -> Seq<Seq<char>> {
    seq!["!"@, "-"@]
}

/// A unary expression: operators before a primary expression.
pub open spec fn unary(toks: Toks, cur: int) -> PRes
    decreases toks.len() - cur,
{
    match match_ops(toks, cur, unary_ops()) {
        None => None,
        Some((false, _)) => primary(toks, cur),
        Some((true, c)) => if c <= cur || c > toks.len() {
            None
        } else {
            let prev = toks[c - 1];
            match unary_op_of(prev.0@) {
                None => None,
                Some(op) => match unary(toks, c) {
                    None => None,
                    Some((right, c2)) => Some(
                        (
                            (Expr::Unary((op, prev.1), Box::new(right)), join(prev.1, right.1)),
                            c2,
                        ),
                    ),
                },
            }
        },
    }
}

/// The operators of each binary level: 0 products, 1 sums, 2 comparisons,
/// 3 equalities.
pub open spec fn level_ops(level: nat) -> Seq<Seq<char>> {
    if level == 0 {
        seq!["/"@, "*"@]
    } else if level == 1 {
        seq!["-"@, "+"@]
    } else if level == 2 {
        seq![">"@, ">="@, "<"@, ">="@]
    } else {
        seq!["!="@, "=="@]
    }
}

/// The operands of a level: the level below, or unary expressions for
/// products.
pub open spec fn operand(toks: Toks, level: nat, cur: int) -> PRes
    decreases toks.len() - cur, level, 1nat,
{
    if level == 0 {
        unary(toks, cur)
    } else {
        binary(toks, (level - 1) as nat, cur)
    }
}

/// A binary level: an operand, then operators and operands, grouped to the
/// left.
pub open spec fn binary(toks: Toks, level: nat, cur: int) -> PRes
    decreases toks.len() - cur, level, 2nat,
{
    match operand(toks, level, cur) {
        None => None,
        Some((left, c)) => if c < cur || c > toks.len() {
            None
        } else {
            binary_rest(toks, level, left, c)
        },
    }
}

/// The operators and operands after a left operand.
pub open spec fn binary_rest(toks: Toks, level: nat, left: Spanned<Expr>, cur: int) -> PRes
    decreases toks.len() - cur, level, 0nat,
{
    match match_ops(toks, cur, level_ops(level)) {
        None => None,
        Some((false, c)) => Some((left, c)),
        Some((true, c)) => if c <= cur || c > toks.len() {
            None
        } else {
            let prev = toks[c - 1];
            match binary_op_of(prev.0@) {
                None => None,
                Some(op) => match operand(toks, level, c) {
                    None => None,
                    Some((right, c2)) => if c2 < c || c2 > toks.len() {
                        None
                    } else {
                        binary_rest(
                            toks,
                            level,
                            (
                                Expr::Binary(Box::new(left), (op, prev.1), Box::new(right)),
                                join(left.1, right.1),
                            ),
                            c2,
                        )
                    },
                },
            }
        },
    }
}

/// An expression: the equality level.
pub open spec fn expression(toks: Toks, cur: int) -> PRes {
    binary(toks, 3, cur)
}

/// A parser over a sequence of tokens, which ends with `Eof`.
pub struct Parser<'a> {
    tokens: &'a [Spanned<Token>],
    current: usize,
}

impl<'a> Parser<'a> {
    /// The tokens.
    pub closed spec fn toks(&self) -> Toks {
        self.tokens@
    }

    /// The position reached.
    pub closed spec fn pos(&self) -> int {
        self.current as int
    }

    /// A parser at the first token.
    pub fn new(tokens: &'a [Spanned<Token>]) -> (r: Self)
        ensures
            r.toks() == tokens@,
            r.pos() == 0,
    {
        Self { tokens, current: 0 }
    }

    /// Whether the token at the position is `Eof`; `None` when there is no
    /// token there.
    fn is_at_end(&self) -> (r: Option<bool>)
        ensures
            r == at_end(self.toks(), self.pos()),
    {
        if self.current < self.tokens.len() {
            Some(matches!(self.tokens[self.current].0, Token::Eof))
        } else {
            None
        }
    }

    /// Whether the token at the position is the operator `op`.
    fn check(&self, op: &str) -> (r: Option<bool>)
        ensures
            r == check_op(self.toks(), self.pos(), op@),
    {
        match self.is_at_end() {
            None => None,
            Some(true) => Some(false),
            Some(false) => match &self.tokens[self.current].0 {
                Token::Op(s) => Some(str_eq(s.as_str(), op)),
                _ => Some(false),
            },
        }
    }

    /// Reads past the token at the position, unless it is the end; false
    /// where that cannot be done.
    fn advance(&mut self) -> (r: bool)
        ensures
            final(self).toks() == old(self).toks(),
            r == advance(old(self).toks(), old(self).pos()) is Some,
            r ==> Some(final(self).pos()) == advance(old(self).toks(), old(self).pos()),
    {
        match self.is_at_end() {
            None => false,
            Some(end) => {
                let n = self.tokens.len();
                assert(self.current < n);
                let next = if end {
                    self.current
                } else {
                    self.current + 1
                };
                if next >= 1 {
                    self.current = next;
                    true
                } else {
                    false
                }
            },
        }
    }

    /// Reads past the first of `ops` that the token at the position is.
    fn match_(&mut self, ops: &[&str]) -> (r: Option<bool>)
        ensures
            final(self).toks() == old(self).toks(),
            match r {
                Some(b) => Some((b, final(self).pos())) == match_ops(
                    old(self).toks(),
                    old(self).pos(),
                    ops@.map_values(|o: &str| o@),
                ),
                None => match_ops(old(self).toks(), old(self).pos(), ops@.map_values(|o: &str| o@))
                    is None,
            },
    {
        let ghost all = ops@.map_values(|o: &str| o@);
        let mut k: usize = 0;
        assert(all.subrange(0, all.len() as int) =~= all);
        while k < ops.len()
            invariant
                k <= ops@.len(),
                all == ops@.map_values(|o: &str| o@),
                self.toks() == old(self).toks(),
                self.pos() == old(self).pos(),
                match_ops(self.toks(), self.pos(), all) == match_ops(
                    self.toks(),
                    self.pos(),
                    all.subrange(k as int, all.len() as int),
                ),
            decreases ops@.len() - k,
        {
            let ghost rest = all.subrange(k as int, all.len() as int);
            assert(rest[0] == ops@[k as int]@);
            assert(rest.drop_first() =~= all.subrange(k + 1, all.len() as int));
            match self.check(ops[k]) {
                None => {
                    return None;
                },
                Some(true) => {
                    if self.advance() {
                        return Some(true);
                    } else {
                        return None;
                    }
                },
                Some(false) => {},
            }
            k = k + 1;
        }
        assert(all.subrange(k as int, all.len() as int) =~= Seq::<Seq<char>>::empty());
        Some(false)
    }

    /// Whether an expression can be read from the position: where not, the
    /// parser would read out of bounds, meet a token that no expression starts
    /// with, or call itself at the same place forever.
    pub fn parses(&self) -> (r: bool)
        ensures
            r == (expression(self.toks(), self.pos()) is Some),
    {
        let mut p = Parser { tokens: self.tokens, current: self.current };
        p.expression().is_some()
    }

    /// Parses an expression.
    pub fn parse(&mut self) -> (r: Spanned<Expr>)
        requires
            expression(old(self).toks(), old(self).pos()) is Some,
        ensures
            Some((r, final(self).pos())) == expression(old(self).toks(), old(self).pos()),
    {
        match self.expression() {
            Some(e) => e,
            None => {
                assert(false);
                (Expr::Value(Value::Boolean(false)), 0..0)
            },
        }
    }

    fn expression(&mut self) -> (r: Option<Spanned<Expr>>)
        ensures
            final(self).toks() == old(self).toks(),
            lands(r, final(self).pos(), expression(old(self).toks(), old(self).pos())),
    {
        self.equality()
    }

    /// Equalities: comparisons joined by `!=` and `==`.
    fn equality(&mut self) -> (r: Option<Spanned<Expr>>)
        ensures
            final(self).toks() == old(self).toks(),
            lands(r, final(self).pos(), binary(old(self).toks(), 3, old(self).pos())),
    {
        self.binary(3)
    }

    /// Comparisons: terms joined by `>`, `>=` and `<`.
    fn comparison(&mut self) -> (r: Option<Spanned<Expr>>)
        ensures
            final(self).toks() == old(self).toks(),
            lands(r, final(self).pos(), binary(old(self).toks(), 2, old(self).pos())),
        decreases old(self).toks().len() - old(self).pos(), 2nat, 3nat,
    {
        self.binary(2)
    }

    /// Terms: factors joined by `-` and `+`.
    fn term(&mut self) -> (r: Option<Spanned<Expr>>)
        ensures
            final(self).toks() == old(self).toks(),
            lands(r, final(self).pos(), binary(old(self).toks(), 1, old(self).pos())),
        decreases old(self).toks().len() - old(self).pos(), 1nat, 3nat,
    {
        self.binary(1)
    }

    /// Factors: unary expressions joined by `/` and `*`.
    fn factor(&mut self) -> (r: Option<Spanned<Expr>>)
        ensures
            final(self).toks() == old(self).toks(),
            lands(r, final(self).pos(), binary(old(self).toks(), 0, old(self).pos())),
        decreases old(self).toks().len() - old(self).pos(), 0nat, 3nat,
    {
        self.binary(0)
    }

    /// A primary expression.
    fn primary(&mut self) -> (r: Option<Spanned<Expr>>)
        ensures
            final(self).toks() == old(self).toks(),
            lands(r, final(self).pos(), primary(old(self).toks(), old(self).pos())),
    {
        if self.current >= self.tokens.len() {
            return None;
        }
        let next = &self.tokens[self.current];
        let span = copy_span(&next.1);
        let value = match &next.0 {
            Token::KeyWord(KeyWord::False) => Value::Boolean(false),
            Token::KeyWord(KeyWord::True) => Value::Boolean(true),
            Token::String(s) => Value::String(s.clone()),
            Token::Int(i) => match parse_i128(i.as_str()) {
                Some(n) => Value::Int(n),
                None => {
                    return None;
                },
            },
            Token::Float(f) => Value::Float(f.clone()),
            _ => {
                return None;
            },
        };
        if self.advance() {
            Some((Expr::Value(value), span))
        } else {
            None
        }
    }

    /// A unary expression.
    fn unary(&mut self) -> (r: Option<Spanned<Expr>>)
        ensures
            final(self).toks() == old(self).toks(),
            lands(r, final(self).pos(), unary(old(self).toks(), old(self).pos())),
        decreases old(self).toks().len() - old(self).pos(),
    {
        let ghost toks = self.toks();
        let ghost cur = self.pos();
        let start = self.current;
        let ops: [&str; 2] = ["!", "-"];
        assert(ops@.map_values(|o: &str| o@) =~= unary_ops());
        proof {
            lemma_match_ops_false(toks, cur, unary_ops());
        }
        match self.match_(&ops) {
            None => None,
            Some(true) => {
                if self.current <= start || self.current > self.tokens.len() {
                    return None;
                }
                let (token, span) = &self.tokens[self.current - 1];
                let op_span = copy_span(span);
                let op = match unary_op_exec(token) {
                    Some(op) => op,
                    None => {
                        return None;
                    },
                };
                match self.unary() {
                    None => None,
                    Some(right) => {
                        let span = op_span.start..right.1.end;
                        Some((Expr::Unary((op, op_span), Box::new(right)), span))
                    },
                }
            },
            Some(false) => self.primary(),
        }
    }

    /// The operators of a binary level.
    fn level_ops(level: u8) -> (r: Vec<&'static str>)
        requires
            level <= 3,
        ensures
            r@.map_values(|o: &str| o@) == level_ops(level as nat),
    {
        let mut v: Vec<&'static str> = Vec::new();
        if level == 0 {
            v.push("/");
            v.push("*");
        } else if level == 1 {
            v.push("-");
            v.push("+");
        } else if level == 2 {
            v.push(">");
            v.push(">=");
            v.push("<");
            v.push(">=");
        } else {
            v.push("!=");
            v.push("==");
        }
        assert(v@.map_values(|o: &str| o@) =~= level_ops(level as nat));
        v
    }

    /// The operand of a binary level.
    fn operand(&mut self, level: u8) -> (r: Option<Spanned<Expr>>)
        requires
            level <= 3,
        ensures
            final(self).toks() == old(self).toks(),
            lands(r, final(self).pos(), operand(old(self).toks(), level as nat, old(self).pos())),
        decreases old(self).toks().len() - old(self).pos(), level, 1nat,
    {
        if level == 0 {
            self.unary()
        } else if level == 1 {
            self.factor()
        } else if level == 2 {
            self.term()
        } else {
            self.comparison()
        }
    }

    /// A binary level: operands joined by the level's operators, grouped to
    /// the left.
    fn binary(&mut self, level: u8) -> (r: Option<Spanned<Expr>>)
        requires
            level <= 3,
        ensures
            final(self).toks() == old(self).toks(),
            lands(r, final(self).pos(), binary(old(self).toks(), level as nat, old(self).pos())),
        decreases old(self).toks().len() - old(self).pos(), level, 2nat,
    {
        let start = self.current;
        match self.operand(level) {
            None => None,
            Some(left) => {
                if self.current < start || self.current > self.tokens.len() {
                    return None;
                }
                self.binary_rest(level, left)
            },
        }
    }

    fn binary_rest(&mut self, level: u8, left: Spanned<Expr>) -> (r: Option<Spanned<Expr>>)
        requires
            level <= 3,
        ensures
            final(self).toks() == old(self).toks(),
            lands(r, final(self).pos(), binary_rest(old(self).toks(), level as nat, left, old(self).pos())),
        decreases old(self).toks().len() - old(self).pos(), level, 0nat,
    {
        let start = self.current;
        let ops = Self::level_ops(level);
        match self.match_(ops.as_slice()) {
            None => None,
            Some(false) => Some(left),
            Some(true) => {
                if self.current <= start || self.current > self.tokens.len() {
                    return None;
                }
                let (token, span) = &self.tokens[self.current - 1];
                let op_span = copy_span(span);
                let op = match binary_op_exec(token) {
                    Some(op) => op,
                    None => {
                        return None;
                    },
                };
                let c = self.current;
                match self.operand(level) {
                    None => None,
                    Some(right) => {
                        if self.current < c || self.current > self.tokens.len() {
                            return None;
                        }
                        let span = left.1.start..right.1.end;
                        let joined = (Expr::Binary(Box::new(left), (op, op_span), Box::new(right)), span);
                        self.binary_rest(level, joined)
                    },
                }
            },
        }
    }
}

/// Whether `r`, read up to `pos`, is what the parse result `p` says.
pub open spec fn lands(r: Option<Spanned<Expr>>, pos: int, p: PRes) -> bool {
    match r {
        Some(e) => p == Some((e, pos)),
        None => p is None,
    }
}

/// Evaluates an expression: its value, or why there is none (a floating-point
/// operation or comparison is not computed here). Expressions on which
/// evaluation cannot go on, as `eval_panics` tells, are not accepted.
pub fn eval_expr(expr: &Spanned<Expr>) -> (r: Result<Value, Halt>)
    requires
        lox_eval(*expr) != Err::<ValueV, HaltV>(HaltV::Panic),
    ensures
        result_view(r) == lox_eval(*expr),
{
    lox_ev_exec(expr)
}

/// Whether evaluating `expr` cannot go on: an integer overflow, a
/// division by zero, or a form of expression that it does not evaluate.
pub fn eval_panics(expr: &Spanned<Expr>) -> (r: bool)
    ensures
        r == (lox_eval(*expr) == Err::<ValueV, HaltV>(HaltV::Panic)),
{
    match lox_ev_exec(expr) {
        Err(Halt::Panic) => true,
        _ => false,
    }
}

} // verus!
