//! The precedence-climbing parser, proved to compute what `grammar` states.
use vstd::prelude::*;
use crate::text::{parse_i32, string_of};
use vstd::string::StringExecFns;
use super::grammar::{
    Toks, PState, Fail, Outcome, measure, advanced, next, lemma_next, expect, lemma_expect,
    identifiers, lemma_identifiers, signature, lemma_signature, variants, lemma_variants,
    as_identifiers, parse_enum, binary_operator, prefix_operator, precedence, parse_primary,
    parse_expression, parse_if, parse_function, parse_binary_op, binary_rest, parse_prefix_op,
    parse_all, start,
};
use super::{
    Token, TokenV, Expr, ExprV, Atom, Operator, token_view, opt_token_view, opt_debug_text,
    expr_view, exprs_view, strings_view,
};

verus! {

/// The view of the tokens a parser is given: an unreadable token is `None`.
pub open spec fn toks_view(v: Seq<Result<Token, ()>>) -> Toks {
    v.map_values(
        |r: Result<Token, ()>|
            match r {
                Ok(t) => Some(token_view(t)),
                Err(_) => None,
            },
    )
}

/// Why a rule read no expression: an error message, or a token at which the
/// parser stops for good (an integer literal too large for an `i32`).
pub enum Failure {
    Msg(String),
    Stop,
}

/// The view of what a rule returns.
pub open spec fn res_view(r: Result<Expr, Failure>) -> Result<ExprV, Fail> {
    match r {
        Ok(e) => Ok(expr_view(e)),
        Err(Failure::Msg(m)) => Err(Fail::Msg(m@)),
        Err(Failure::Stop) => Err(Fail::Panic),
    }
}

/// The view of what requiring a token returns.
pub open spec fn unit_view(r: Result<(), String>) -> Result<(), Seq<char>> {
    match r {
        Ok(_) => Ok(()),
        Err(m) => Err(m@),
    }
}

/// The view of the variants of an enum.
pub open spec fn variants_view(v: Seq<Vec<Expr>>) -> Seq<Seq<ExprV>> {
    v.map_values(|row: Vec<Expr>| exprs_view(row@))
}

/// A parser over a sequence of tokens, each read or unreadable.
pub struct Parser {
    tokens: Vec<Result<Token, ()>>,
    pos: usize,
    current: Option<Token>,
    last_token: Option<Token>,
}

impl Parser {
    /// The tokens, by their views.
    pub closed spec fn toks(&self) -> Toks {
        toks_view(self.tokens@)
    }

    /// Where the parser stands.
    pub closed spec fn state(&self) -> PState {
        PState {
            pos: self.pos as nat,
            current: opt_token_view(self.current),
            last: opt_token_view(self.last_token),
        }
    }

    /// The position stays within the tokens.
    pub closed spec fn wf(&self) -> bool {
        self.pos <= self.tokens.len()
    }

    /// A parser over `tokens`, with the first token read.
    pub fn new(tokens: Vec<Result<Token, ()>>) -> (p: Self)
        ensures
            p.wf(),
            p.toks() == toks_view(tokens@),
            p.state() == start(p.toks()),
    {
        let mut parser = Parser { tokens, pos: 0, current: None, last_token: None };
        parser.next_token();
        parser
    }

    /// Reads the next token that is not layout.
    fn next_token(&mut self)
        requires
            old(self).wf(),
        ensures
            final(self).wf(),
            final(self).tokens == old(self).tokens,
            final(self).state() == next(old(self).toks(), old(self).state()),
    {
        loop
            invariant
                self.wf(),
                self.tokens == old(self).tokens,
                next(self.toks(), self.state()) == next(old(self).toks(), old(self).state()),
            decreases self.tokens.len() - self.pos,
        {
            if self.pos >= self.tokens.len() {
                self.current = None;
                return ;
            }
            let i = self.pos;
            let read: Option<Token> = match &self.tokens[i] {
                Ok(t) => Some(t.clone()),
                Err(_) => None,
            };
            self.pos = self.pos + 1;
            match read {
                None => {
                    self.current = None;
                    return ;
                },
                Some(t) => {
                    let at_line_start = match &self.last_token {
                        None => true,
                        Some(Token::NewLine) => true,
                        _ => false,
                    };
                    if at_line_start {
                        if let Token::Identifier(name) = &t {
                            let function_name = Token::FunctionName(name.clone());
                            self.current = Some(function_name);
                            self.last_token = Some(t);
                            return ;
                        }
                    }
                    let layout = match &t {
                        Token::Whitespace => true,
                        Token::NewLine => true,
                        Token::Comment(_) => true,
                        _ => false,
                    };
                    if layout {
                        self.last_token = Some(t);
                    } else {
                        self.current = Some(t.clone());
                        self.last_token = Some(t);
                        return ;
                    }
                },
            }
        }
    }

    /// Requires the current token to be `expected` and reads past it.
    fn expect(&mut self, expected: Token) -> (r: Result<(), String>)
        requires
            old(self).wf(),
        ensures
            final(self).wf(),
            final(self).tokens == old(self).tokens,
            (unit_view(r), final(self).state()) == expect(
                old(self).toks(),
                old(self).state(),
                token_view(expected),
            ),
    {
        let found: Option<bool> = match &self.current {
            Some(actual) => Some(actual.same(&expected)),
            None => None,
        };
        match found {
            Some(true) => {
                self.next_token();
                Ok(())
            },
            Some(false) => {
                let mut m = string_of("Expected ");
                m.append(expected.debug_text().as_str());
                m.append(", but found ");
                let actual_text = match &self.current {
                    Some(actual) => actual.debug_text(),
                    None => String::new(),
                };
                m.append(actual_text.as_str());
                Err(m)
            },
            None => Err(string_of("Unexpected end of input")),
        }
    }

    /// Parses expressions while unread tokens are left; the first error stops
    /// it. Inputs at which the parser stops for good (`parse_or_stop` gives
    /// `None`) are not accepted.
    pub fn parse(&mut self) -> (r: Result<Vec<Expr>, Vec<String>>)
        requires
            old(self).wf(),
            parse_all(old(self).toks(), old(self).state(), seq![]) != Outcome::Panics,
        ensures
            match r {
                Ok(v) => parse_all(old(self).toks(), old(self).state(), seq![])
                    == Outcome::Parsed(exprs_view(v@)),
                Err(es) => parse_all(old(self).toks(), old(self).state(), seq![])
                    == Outcome::Failed(strings_view(es@)),
            },
    {
        match self.parse_or_stop() {
            Some(r) => r,
            None => Err(Vec::new()),
        }
    }

    /// Parses expressions while unread tokens are left; the first error stops
    /// it. `None` where the parser stops for good: at a token that the lexer
    /// could not read, met between expressions or after an error, or at an
    /// integer literal too large for an `i32`.
    pub fn parse_or_stop(&mut self) -> (r: Option<Result<Vec<Expr>, Vec<String>>>)
        requires
            old(self).wf(),
        ensures
            match r {
                None => parse_all(old(self).toks(), old(self).state(), seq![]) == Outcome::Panics,
                Some(Ok(v)) => parse_all(old(self).toks(), old(self).state(), seq![])
                    == Outcome::Parsed(exprs_view(v@)),
                Some(Err(es)) => parse_all(old(self).toks(), old(self).state(), seq![])
                    == Outcome::Failed(strings_view(es@)),
            },
    {
        let ghost toks = old(self).toks();
        let ghost s0 = old(self).state();
        let mut exprs: Vec<Expr> = Vec::new();
        assert(exprs_view(exprs@) =~= seq![]);
        loop
            invariant
                self.wf(),
                self.tokens == old(self).tokens,
                self.toks() == toks,
                toks == old(self).toks(),
                s0 == old(self).state(),
                parse_all(toks, s0, seq![]) == parse_all(toks, self.state(), exprs_view(exprs@)),
            decreases self.tokens.len() - self.pos,
        {
            if self.pos >= self.tokens.len() {
                return Some(Ok(exprs));
            }
            let unreadable = match &self.tokens[self.pos] {
                Ok(_) => false,
                Err(_) => true,
            };
            if unreadable {
                return None;
            }
            match self.parse_expression() {
                Ok(expr) => {
                    proof {
                        assert(exprs_view(exprs@.push(expr)) =~= exprs_view(exprs@).push(
                            expr_view(expr),
                        ));
                    }
                    exprs.push(expr);
                },
                Err(Failure::Stop) => {
                    return None;
                },
                Err(Failure::Msg(m)) => {
                    if self.pos < self.tokens.len() {
                        let stuck = match &self.tokens[self.pos] {
                            Ok(_) => false,
                            Err(_) => true,
                        };
                        if stuck {
                            return None;
                        }
                    }
                    let mut errors: Vec<String> = Vec::new();
                    errors.push(m);
                    proof {
                        assert(strings_view(errors@) =~= seq![errors@[0]@]);
                    }
                    return Some(Err(errors));
                },
            }
        }
    }

    /// An expression: a conditional, an enum, a function, or an operator
    /// expression.
    fn parse_expression(&mut self) -> (r: Result<Expr, Failure>)
        requires
            old(self).wf(),
        ensures
            final(self).wf(),
            final(self).tokens == old(self).tokens,
            (res_view(r), final(self).state()) == parse_expression(
                old(self).toks(),
                old(self).state(),
            ),
            advanced(old(self).toks(), old(self).state(), final(self).state()),
            r is Ok && old(self).pos < old(self).tokens.len() ==> final(self).pos > old(self).pos,
        decreases measure(old(self).toks(), old(self).state()), 6nat,
    {
        let kind: u8 = match &self.current {
            Some(Token::If) => 0,
            Some(Token::Enum) => 1,
            Some(Token::FunctionName(_)) => 2,
            _ => 3,
        };
        if kind == 0 {
            self.parse_if()
        } else if kind == 1 {
            self.parse_enum()
        } else if kind == 2 {
            self.parse_function()
        } else {
            self.parse_binary_op(0)
        }
    }

    /// `if condition then branch [else branch]`
    fn parse_if(&mut self) -> (r: Result<Expr, Failure>)
        requires
            old(self).wf(),
        ensures
            final(self).wf(),
            final(self).tokens == old(self).tokens,
            (res_view(r), final(self).state()) == parse_if(old(self).toks(), old(self).state()),
            advanced(old(self).toks(), old(self).state(), final(self).state()),
            r is Ok && old(self).pos < old(self).tokens.len() ==> final(self).pos > old(self).pos,
        decreases measure(old(self).toks(), old(self).state()), 5nat,
    {
        let ghost toks = self.toks();
        let ghost s = self.state();
        proof {
            lemma_expect(toks, s, TokenV::If);
            lemma_next(toks, s);
        }
        match self.expect(Token::If) {
            Err(m) => return Err(Failure::Msg(m)),
            Ok(()) => {},
        }
        let ghost s0 = self.state();
        let condition = match self.parse_expression() {
            Ok(e) => e,
            Err(m) => return Err(m),
        };
        let ghost s1 = self.state();
        proof {
            lemma_expect(toks, s1, TokenV::Then);
        }
        match self.expect(Token::Then) {
            Err(m) => return Err(Failure::Msg(m)),
            Ok(()) => {},
        }
        let ghost s2 = self.state();
        let then_branch = match self.parse_expression() {
            Ok(e) => e,
            Err(m) => return Err(m),
        };
        let ghost s3 = self.state();
        let has_else = match &self.current {
            Some(Token::Else) => true,
            _ => false,
        };
        let else_branch = if has_else {
            proof {
                lemma_next(toks, s3);
            }
            self.next_token();
            match self.parse_expression() {
                Ok(e) => Some(Box::new(e)),
                Err(m) => return Err(m),
            }
        } else {
            None
        };
        Ok(
            Expr::If {
                condition: Box::new(condition),
                then_branch: Box::new(then_branch),
                else_branch,
            },
        )
    }

    /// The identifiers at the current position.
    fn identifiers(&mut self) -> (r: Vec<String>)
        requires
            old(self).wf(),
        ensures
            final(self).wf(),
            final(self).tokens == old(self).tokens,
            (strings_view(r@), final(self).state()) == identifiers(
                old(self).toks(),
                old(self).state(),
            ),
    {
        let ghost toks = self.toks();
        let ghost s0 = self.state();
        let mut names: Vec<String> = Vec::new();
        loop
            invariant
                self.wf(),
                self.tokens == old(self).tokens,
                self.toks() == toks,
                toks == old(self).toks(),
                s0 == old(self).state(),
                identifiers(toks, s0).0 == strings_view(names@) + identifiers(
                    toks,
                    self.state(),
                ).0,
                identifiers(toks, s0).1 == identifiers(toks, self.state()).1,
            decreases measure(toks, self.state()),
        {
            let found: Option<String> = match &self.current {
                Some(Token::Identifier(name)) => Some(name.clone()),
                _ => None,
            };
            match found {
                Some(name) => {
                    let ghost s = self.state();
                    proof {
                        lemma_next(toks, s);
                        assert(strings_view(names@.push(name)) =~= strings_view(names@).push(
                            name@,
                        ));
                        assert(identifiers(toks, s).0 =~= seq![name@].add(
                            identifiers(toks, next(toks, s)).0,
                        ));
                        assert((strings_view(names@) + seq![name@]) + identifiers(
                            toks,
                            next(toks, s),
                        ).0 =~= strings_view(names@) + seq![name@].add(
                            identifiers(toks, next(toks, s)).0,
                        ));
                    }
                    names.push(name);
                    self.next_token();
                },
                None => {
                    proof {
                        assert(identifiers(toks, self.state()).0 =~= Seq::<Seq<char>>::empty());
                        assert(identifiers(toks, self.state()).1 == self.state());
                        assert(strings_view(names@) + identifiers(toks, self.state()).0
                            =~= strings_view(names@));
                    }
                    return names;
                },
            }
        }
    }

    /// `enum Name args = Variant types | ...`
    fn parse_enum(&mut self) -> (r: Result<Expr, Failure>)
        requires
            old(self).wf(),
        ensures
            final(self).wf(),
            final(self).tokens == old(self).tokens,
            (res_view(r), final(self).state()) == parse_enum(old(self).toks(), old(self).state()),
            advanced(old(self).toks(), old(self).state(), final(self).state()),
            r is Ok && old(self).pos < old(self).tokens.len() ==> final(self).pos > old(self).pos,
    {
        let ghost toks = self.toks();
        let ghost s = self.state();
        proof {
            lemma_expect(toks, s, TokenV::Enum);
            lemma_next(toks, s);
        }
        match self.expect(Token::Enum) {
            Err(m) => return Err(Failure::Msg(m)),
            Ok(()) => {},
        }
        let ghost s0 = self.state();
        let found: Option<String> = match &self.current {
            Some(Token::Identifier(name)) => Some(name.clone()),
            _ => None,
        };
        let enum_name = match found {
            Some(name) => name,
            None => return Err(Failure::Msg(string_of("Expected identifier after 'enum'"))),
        };
        proof {
            lemma_next(toks, s0);
        }
        self.next_token();
        let ghost s1 = self.state();
        proof {
            lemma_identifiers(toks, s1);
        }
        let type_args = self.identifiers();
        let ghost s2 = self.state();
        proof {
            lemma_expect(toks, s2, TokenV::Equals);
        }
        match self.expect(Token::Equals) {
            Err(m) => return Err(Failure::Msg(m)),
            Ok(()) => {},
        }
        let ghost s3 = self.state();
        proof {
            lemma_variants(toks, s3);
        }
        let variants = self.variants();
        let r = Expr::Enum { name: enum_name, type_args, variants };
        proof {
            let e = expr_view(r);
            let vs = variants_view(variants@);
            assert(e->Enum_variants =~~= vs);
        }
        Ok(r)
    }

    /// The variants of an enum.
    fn variants(&mut self) -> (r: Vec<Vec<Expr>>)
        requires
            old(self).wf(),
        ensures
            final(self).wf(),
            final(self).tokens == old(self).tokens,
            (variants_view(r@), final(self).state()) == variants(
                old(self).toks(),
                old(self).state(),
            ),
    {
        let ghost toks = self.toks();
        let ghost s0 = self.state();
        let mut all: Vec<Vec<Expr>> = Vec::new();
        let mut going = true;
        loop
            invariant
                self.wf(),
                self.tokens == old(self).tokens,
                self.toks() == toks,
                toks == old(self).toks(),
                s0 == old(self).state(),
                going ==> variants(toks, s0).0 == variants_view(all@) + variants(
                    toks,
                    self.state(),
                ).0,
                going ==> variants(toks, s0).1 == variants(toks, self.state()).1,
                !going ==> variants(toks, s0) == (variants_view(all@), self.state()),
            decreases measure(toks, self.state()), (if going { 1int } else { 0int }),
        {
            if !going {
                return all;
            }
            let found: Option<String> = match &self.current {
                Some(Token::Identifier(name)) => Some(name.clone()),
                _ => None,
            };
            match found {
                None => {
                    proof {
                        assert(variants_view(all@) + variants(toks, self.state()).0
                            =~= variants_view(all@));
                    }
                    return all;
                },
                Some(name) => {
                    let ghost s = self.state();
                    proof {
                        lemma_next(toks, s);
                    }
                    self.next_token();
                    let ghost s1 = self.state();
                    proof {
                        lemma_identifiers(toks, s1);
                    }
                    let types = self.identifiers();
                    let ghost s2 = self.state();
                    let mut variant: Vec<Expr> = Vec::new();
                    variant.push(Expr::Identifier(name));
                    let mut k: usize = 0;
                    while k < types.len()
                        invariant
                            k <= types.len(),
                            exprs_view(variant@) =~= seq![ExprV::Identifier(name@)].add(
                                as_identifiers(strings_view(types@.subrange(0, k as int))),
                            ),
                        decreases types.len() - k,
                    {
                        let t = types[k].clone();
                        proof {
                            assert(types@.subrange(0, k + 1) =~= types@.subrange(0, k as int).push(
                                types@[k as int],
                            ));
                            assert(exprs_view(variant@.push(Expr::Identifier(t))) =~= exprs_view(
                                variant@,
                            ).push(ExprV::Identifier(t@)));
                        }
                        variant.push(Expr::Identifier(t));
                        k = k + 1;
                        proof {
                            assert(as_identifiers(strings_view(types@.subrange(0, k as int)))
                                =~= as_identifiers(strings_view(types@.subrange(0, k - 1))).push(
                                ExprV::Identifier(types@[k - 1]@),
                            ));
                        }
                    }
                    proof {
                        assert(types@.subrange(0, types.len() as int) =~= types@);
                        lemma_expect(toks, s2, TokenV::Pipe);
                        assert(variants_view(all@.push(variant)) =~= variants_view(all@).push(
                            exprs_view(variant@),
                        ));
                    }
                    all.push(variant);
                    let piped = self.expect(Token::Pipe);
                    proof {
                        let rest = variants(toks, self.state()).0;
                        let v = exprs_view(variant@);
                        assert((variants_view(all@.drop_last()) + seq![v]) + rest
                            =~= variants_view(all@.drop_last()) + seq![v].add(rest));
                        assert(all@.drop_last() =~= all@.subrange(0, all@.len() - 1));
                        assert(variants_view(all@) =~= variants_view(all@.drop_last()).push(v));
                    }
                    if piped.is_err() {
                        going = false;
                    }
                },
            }
        }
    }

    /// The types of a signature, joined by arrows.
    fn signature(&mut self) -> (r: Vec<String>)
        requires
            old(self).wf(),
        ensures
            final(self).wf(),
            final(self).tokens == old(self).tokens,
            (strings_view(r@), final(self).state()) == signature(
                old(self).toks(),
                old(self).state(),
            ),
    {
        let ghost toks = self.toks();
        let ghost s0 = self.state();
        let mut types: Vec<String> = Vec::new();
        let mut going = true;
        loop
            invariant
                self.wf(),
                self.tokens == old(self).tokens,
                self.toks() == toks,
                toks == old(self).toks(),
                s0 == old(self).state(),
                going ==> signature(toks, s0).0 == strings_view(types@) + signature(
                    toks,
                    self.state(),
                ).0,
                going ==> signature(toks, s0).1 == signature(toks, self.state()).1,
                !going ==> signature(toks, s0) == (strings_view(types@), self.state()),
            decreases measure(toks, self.state()), (if going { 1int } else { 0int }),
        {
            if !going {
                return types;
            }
            let found: Option<String> = match &self.current {
                Some(Token::Identifier(name)) => Some(name.clone()),
                _ => None,
            };
            match found {
                None => {
                    proof {
                        assert(strings_view(types@) + signature(toks, self.state()).0
                            =~= strings_view(types@));
                    }
                    return types;
                },
                Some(name) => {
                    let ghost s = self.state();
                    proof {
                        lemma_next(toks, s);
                        lemma_expect(toks, next(toks, s), TokenV::Arrow);
                        assert(strings_view(types@.push(name)) =~= strings_view(types@).push(
                            name@,
                        ));
                    }
                    types.push(name);
                    self.next_token();
                    let arrow = self.expect(Token::Arrow);
                    proof {
                        let rest = signature(toks, self.state()).0;
                        let v = types@[types@.len() - 1]@;
                        assert((strings_view(types@.drop_last()) + seq![v]) + rest
                            =~= strings_view(types@.drop_last()) + seq![v].add(rest));
                        assert(strings_view(types@) =~= strings_view(types@.drop_last()).push(v));
                    }
                    if arrow.is_err() {
                        going = false;
                    }
                },
            }
        }
    }

    /// `name params : Type -> Type = body`, the current token being the name.
    fn parse_function(&mut self) -> (r: Result<Expr, Failure>)
        requires
            old(self).wf(),
            old(self).current matches Some(Token::FunctionName(_)),
        ensures
            final(self).wf(),
            final(self).tokens == old(self).tokens,
            (res_view(r), final(self).state()) == parse_function(
                old(self).toks(),
                old(self).state(),
            ),
            advanced(old(self).toks(), old(self).state(), final(self).state()),
            r is Ok && old(self).pos < old(self).tokens.len() ==> final(self).pos > old(self).pos,
        decreases measure(old(self).toks(), old(self).state()), 5nat,
    {
        let ghost toks = self.toks();
        let ghost s = self.state();
        let name = match &self.current {
            Some(Token::FunctionName(name)) => name.clone(),
            _ => String::new(),
        };
        proof {
            lemma_next(toks, s);
        }
        self.next_token();
        let ghost s1 = self.state();
        proof {
            lemma_identifiers(toks, s1);
        }
        let params = self.identifiers();
        let ghost s2 = self.state();
        proof {
            lemma_expect(toks, s2, TokenV::Colon);
        }
        match self.expect(Token::Colon) {
            Err(m) => return Err(Failure::Msg(m)),
            Ok(()) => {},
        }
        let ghost s3 = self.state();
        proof {
            lemma_signature(toks, s3);
        }
        let signature = self.signature();
        let ghost s4 = self.state();
        proof {
            lemma_expect(toks, s4, TokenV::Equals);
        }
        match self.expect(Token::Equals) {
            Err(m) => return Err(Failure::Msg(m)),
            Ok(()) => {},
        }
        let body = match self.parse_expression() {
            Ok(e) => e,
            Err(m) => return Err(m),
        };
        Ok(Expr::Function { name, params, signature, body: Box::new(body) })
    }

    /// Operator expressions whose operators bind at least as tightly as
    /// `min_prec`.
    fn parse_binary_op(&mut self, min_prec: u8) -> (r: Result<Expr, Failure>)
        requires
            old(self).wf(),
        ensures
            final(self).wf(),
            final(self).tokens == old(self).tokens,
            (res_view(r), final(self).state()) == parse_binary_op(
                old(self).toks(),
                min_prec as int,
                old(self).state(),
            ),
            advanced(old(self).toks(), old(self).state(), final(self).state()),
            r is Ok && old(self).pos < old(self).tokens.len() ==> final(self).pos > old(self).pos,
        decreases measure(old(self).toks(), old(self).state()), 5nat,
    {
        let ghost toks = self.toks();
        let ghost s = self.state();
        let mut left = match self.parse_prefix_op() {
            Ok(e) => e,
            Err(m) => return Err(m),
        };
        let ghost s1 = self.state();
        loop
            invariant
                self.wf(),
                self.tokens == old(self).tokens,
                self.toks() == toks,
                toks == old(self).toks(),
                s == old(self).state(),
                advanced(toks, s, self.state()),
                advanced(toks, s1, self.state()),
                s.pos < toks.len() ==> self.pos > s.pos,
                parse_binary_op(toks, min_prec as int, s) == binary_rest(
                    toks,
                    min_prec as int,
                    expr_view(left),
                    self.state(),
                ),
            decreases measure(toks, self.state()),
        {
            let op = match self.current_operator() {
                Some(op) => op,
                None => return Ok(left),
            };
            let prec = self.get_precedence(&op);
            if prec < min_prec {
                return Ok(left);
            }
            let ghost s2 = self.state();
            proof {
                lemma_next(toks, s2);
            }
            self.next_token();
            let right = match self.parse_binary_op(prec + 1) {
                Ok(e) => e,
                Err(m) => return Err(m),
            };
            left = Expr::BinaryOp { left: Box::new(left), op, right: Box::new(right) };
        }
    }

    /// Prefix operators before a primary expression.
    fn parse_prefix_op(&mut self) -> (r: Result<Expr, Failure>)
        requires
            old(self).wf(),
        ensures
            final(self).wf(),
            final(self).tokens == old(self).tokens,
            (res_view(r), final(self).state()) == parse_prefix_op(
                old(self).toks(),
                old(self).state(),
            ),
            advanced(old(self).toks(), old(self).state(), final(self).state()),
            r is Ok && old(self).pos < old(self).tokens.len() ==> final(self).pos > old(self).pos,
        decreases measure(old(self).toks(), old(self).state()), 3nat,
    {
        let ghost toks = self.toks();
        let ghost s = self.state();
        if let Some(op) = self.current_prefix_operator() {
            proof {
                lemma_next(toks, s);
            }
            self.next_token();
            let right = match self.parse_prefix_op() {
                Ok(e) => e,
                Err(m) => return Err(m),
            };
            return Ok(Expr::PrefixOp { op, right: Box::new(right) });
        }
        self.parse_primary()
    }

    /// A primary expression: an identifier or an integer literal.
    fn parse_primary(&mut self) -> (r: Result<Expr, Failure>)
        requires
            old(self).wf(),
        ensures
            final(self).wf(),
            final(self).tokens == old(self).tokens,
            (res_view(r), final(self).state()) == parse_primary(
                old(self).toks(),
                old(self).state(),
            ),
            advanced(old(self).toks(), old(self).state(), final(self).state()),
            r is Ok && old(self).pos < old(self).tokens.len() ==> final(self).pos > old(self).pos,
    {
        let ghost toks = self.toks();
        let ghost s = self.state();
        proof {
            lemma_next(toks, s);
        }
        let found: Option<(bool, String)> = match &self.current {
            Some(Token::Identifier(name)) => Some((true, name.clone())),
            Some(Token::IntLiteral(number)) => Some((false, number.clone())),
            _ => None,
        };
        match found {
            Some((true, name)) => {
                self.next_token();
                Ok(Expr::Identifier(name))
            },
            Some((false, number)) => {
                self.next_token();
                match parse_i32(number.as_str()) {
                    Some(v) => Ok(Expr::Atom(Atom::Int(v))),
                    None => Err(Failure::Stop),
                }
            },
            None => {
                let mut m = string_of("Unexpected token in primary expression ");
                m.append(opt_debug_text(&self.current).as_str());
                Err(Failure::Msg(m))
            },
        }
    }

    /// The binary operator that the current token stands for, if any.
    fn current_operator(&self) -> (r: Option<Operator>)
        ensures
            r == binary_operator(opt_token_view(self.current)),
    {
        match &self.current {
            Some(Token::Plus) => Some(Operator::Add),
            Some(Token::Minus) => Some(Operator::Sub),
            Some(Token::Asterisk) => Some(Operator::Mul),
            Some(Token::Slash) => Some(Operator::Div),
            Some(Token::Percent) => Some(Operator::Mod),
            Some(Token::GreaterThan) => Some(Operator::GreaterThan),
            Some(Token::LessThan) => Some(Operator::LessThan),
            Some(Token::GreaterThanOrEqual) => Some(Operator::GreaterThanOrEqual),
            Some(Token::LessThanOrEqual) => Some(Operator::LessThanOrEqual),
            Some(Token::Equal) => Some(Operator::Equal),
            _ => None,
        }
    }

    /// The prefix operator that the current token stands for, if any.
    fn current_prefix_operator(&self) -> (r: Option<Operator>)
        ensures
            r == prefix_operator(opt_token_view(self.current)),
    {
        match &self.current {
            Some(Token::Minus) => Some(Operator::Sub),
            Some(Token::Bang) => Some(Operator::Not),
            _ => None,
        }
    }

    /// How tightly an operator binds.
    fn get_precedence(&self, op: &Operator) -> (r: u8)
        ensures
            r == precedence(*op),
    {
        match op {
            Operator::Or => 1,
            Operator::And => 2,
            Operator::Equal | Operator::NotEqual => 3,
            Operator::LessThan
            | Operator::GreaterThan
            | Operator::LessThanOrEqual
            | Operator::GreaterThanOrEqual => 4,
            Operator::Add | Operator::Sub => 5,
            Operator::Mul | Operator::Div | Operator::Mod => 6,
            Operator::Not => 7,
        }
    }
}

} // verus!
