//! What the parser computes, stated over token views: a state of reading
//! (the position in the token sequence, the current token and the last one
//! read) and one function per rule of the grammar, each from a state to a
//! result and the state after it.
use vstd::prelude::*;
use crate::text::i32_of;
use super::{TokenV, ExprV, Atom, Operator, opt_token_debug, token_debug};

verus! {

/// The tokens a parser reads; `None` stands for a token the lexer could not
/// make.
pub type Toks = Seq<Option<TokenV>>;

/// Where a parser stands: the next token to read, the current token and the
/// last token read.
pub struct PState {
    pub pos: nat,
    pub current: Option<TokenV>,
    pub last: Option<TokenV>,
}

/// Why a rule did not produce an expression: a message, or a panic of the
/// parser (on an integer literal that does not fit an `i32`, or on an
/// unreadable token met while looking ahead).
pub enum Fail {
    Msg(Seq<char>),
    Panic,
}

/// What a rule gives, and the state after it.
pub type Step = (Result<ExprV, Fail>, PState);

/// How far a state is from the end: two per unread token, one for a current
/// token. Every step of reading lowers it or keeps it.
pub open spec fn measure(toks: Toks, s: PState) -> nat {
    let rest: nat = if s.pos <= toks.len() { (toks.len() - s.pos) as nat } else { 0 };
    2 * rest + if s.current is Some { 1nat } else { 0nat }
}

/// Whether a state reads no further than another one did and has no more left.
pub open spec fn advanced(toks: Toks, before: PState, after: PState) -> bool {
    &&& before.pos <= after.pos
    &&& measure(toks, after) <= measure(toks, before)
}

/// Reading the next token: layout (white space, new lines, comments) is
/// skipped; an identifier at the start of a line becomes a function name; an
/// unreadable token, or the end, leaves no current token.
pub open spec fn next(toks: Toks, s: PState) -> PState
    decreases toks.len() - s.pos,
{
    if s.pos >= toks.len() {
        PState { pos: s.pos, current: None, last: s.last }
    } else {
        match toks[s.pos as int] {
            None => PState { pos: s.pos + 1, current: None, last: s.last },
            Some(t) => {
                let at_line_start = s.last is None || s.last == Some(TokenV::NewLine);
                if at_line_start && t is Identifier {
                    PState {
                        pos: s.pos + 1,
                        current: Some(TokenV::FunctionName(t->Identifier_0)),
                        last: Some(t),
                    }
                } else if t is Whitespace || t is NewLine || t is Comment {
                    next(toks, PState { pos: s.pos + 1, current: s.current, last: Some(t) })
                } else {
                    PState { pos: s.pos + 1, current: Some(t), last: Some(t) }
                }
            },
        }
    }
}

/// Reading a token moves forward; it lowers the measure when there was a
/// current token or something left to read.
pub proof fn lemma_next(toks: Toks, s: PState)
    ensures
        advanced(toks, s, next(toks, s)),
        (s.current is Some || s.pos < toks.len()) ==> measure(toks, next(toks, s)) < measure(
            toks,
            s,
        ),
        s.pos < toks.len() ==> next(toks, s).pos > s.pos,
    decreases toks.len() - s.pos,
{
    if s.pos < toks.len() {
        match toks[s.pos as int] {
            None => {},
            Some(t) => {
                let at_line_start = s.last is None || s.last == Some(TokenV::NewLine);
                if !(at_line_start && t is Identifier) && (t is Whitespace || t is NewLine
                    || t is Comment) {
                    lemma_next(toks, PState { pos: s.pos + 1, current: s.current, last: Some(t) });
                }
            },
        }
    }
}

/// The message for a token other than the one expected.
pub open spec fn expected_msg(expected: TokenV, actual: TokenV) -> Seq<char> {
    "Expected "@ + token_debug(expected) + ", but found "@ + token_debug(actual)
}

/// Requiring the current token to be `expected`, and reading past it.
pub open spec fn expect(toks: Toks, s: PState, expected: TokenV) -> (Result<(), Seq<char>>, PState) {
    match s.current {
        Some(actual) => if actual == expected {
            (Ok(()), next(toks, s))
        } else {
            (Err(expected_msg(expected, actual)), s)
        },
        None => (Err("Unexpected end of input"@), s),
    }
}

/// Requiring a token moves forward, and on success lowers the measure.
pub proof fn lemma_expect(toks: Toks, s: PState, expected: TokenV)
    ensures
        advanced(toks, s, expect(toks, s, expected).1),
        expect(toks, s, expected).0 is Ok ==> measure(toks, expect(toks, s, expected).1) < measure(
            toks,
            s,
        ),
        expect(toks, s, expected).0 is Err ==> expect(toks, s, expected).1 == s,
{
    lemma_next(toks, s);
}

/// The identifiers at the current position, read one after the other.
pub open spec fn identifiers(toks: Toks, s: PState) -> (Seq<Seq<char>>, PState)
    decreases measure(toks, s),
{
    match s.current {
        Some(TokenV::Identifier(name)) => {
            proof {
                lemma_next(toks, s);
            }
            let (rest, s2) = identifiers(toks, next(toks, s));
            (seq![name].add(rest), s2)
        },
        _ => (Seq::empty(), s),
    }
}

/// Reading identifiers moves forward.
pub proof fn lemma_identifiers(toks: Toks, s: PState)
    ensures
        advanced(toks, s, identifiers(toks, s).1),
    decreases measure(toks, s),
{
    if s.current is Some && s.current->0 is Identifier {
        lemma_next(toks, s);
        lemma_identifiers(toks, next(toks, s));
    }
}

/// The types of a signature: identifiers joined by arrows. An identifier not
/// followed by an arrow ends it.
pub open spec fn signature(toks: Toks, s: PState) -> (Seq<Seq<char>>, PState)
    decreases measure(toks, s),
{
    match s.current {
        Some(TokenV::Identifier(name)) => {
            let s1 = next(toks, s);
            let (r, s2) = expect(toks, s1, TokenV::Arrow);
            proof {
                lemma_next(toks, s);
                lemma_expect(toks, s1, TokenV::Arrow);
            }
            if r is Err {
                (seq![name], s1)
            } else {
                let (rest, s3) = signature(toks, s2);
                (seq![name].add(rest), s3)
            }
        },
        _ => (Seq::empty(), s),
    }
}

/// Reading a signature moves forward.
pub proof fn lemma_signature(toks: Toks, s: PState)
    ensures
        advanced(toks, s, signature(toks, s).1),
    decreases measure(toks, s),
{
    if s.current is Some && s.current->0 is Identifier {
        let s1 = next(toks, s);
        lemma_next(toks, s);
        lemma_expect(toks, s1, TokenV::Arrow);
        let (r, s2) = expect(toks, s1, TokenV::Arrow);
        if r is Ok {
            lemma_signature(toks, s2);
        }
    }
}

/// The identifiers of a variant, each as an expression.
pub open spec fn as_identifiers(names: Seq<Seq<char>>) -> Seq<ExprV> {
    names.map_values(|n: Seq<char>| ExprV::Identifier(n))
}

/// The variants of an enum: each a name and its type names, joined by pipes.
/// A variant not followed by a pipe ends them.
pub open spec fn variants(toks: Toks, s: PState) -> (Seq<Seq<ExprV>>, PState)
    decreases measure(toks, s),
{
    match s.current {
        Some(TokenV::Identifier(name)) => {
            let s1 = next(toks, s);
            let (types, s2) = identifiers(toks, s1);
            let variant = seq![ExprV::Identifier(name)].add(as_identifiers(types));
            let (r, s3) = expect(toks, s2, TokenV::Pipe);
            proof {
                lemma_next(toks, s);
                lemma_identifiers(toks, s1);
                lemma_expect(toks, s2, TokenV::Pipe);
            }
            if r is Err {
                (seq![variant], s2)
            } else {
                let (rest, s4) = variants(toks, s3);
                (seq![variant].add(rest), s4)
            }
        },
        _ => (Seq::empty(), s),
    }
}

/// Reading variants moves forward.
pub proof fn lemma_variants(toks: Toks, s: PState)
    ensures
        advanced(toks, s, variants(toks, s).1),
    decreases measure(toks, s),
{
    if s.current is Some && s.current->0 is Identifier {
        let s1 = next(toks, s);
        let (types, s2) = identifiers(toks, s1);
        lemma_next(toks, s);
        lemma_identifiers(toks, s1);
        lemma_expect(toks, s2, TokenV::Pipe);
        let (r, s3) = expect(toks, s2, TokenV::Pipe);
        if r is Ok {
            lemma_variants(toks, s3);
        }
    }
}

/// `enum Name args = Variant types | ...`
pub open spec fn parse_enum(toks: Toks, s: PState) -> Step {
    let (r0, s0) = expect(toks, s, TokenV::Enum);
    match r0 {
        Err(m) => (Err(Fail::Msg(m)), s0),
        Ok(_) => match s0.current {
            Some(TokenV::Identifier(name)) => {
                let s1 = next(toks, s0);
                let (type_args, s2) = identifiers(toks, s1);
                let (r3, s3) = expect(toks, s2, TokenV::Equals);
                match r3 {
                    Err(m) => (Err(Fail::Msg(m)), s3),
                    Ok(_) => {
                        let (vs, s4) = variants(toks, s3);
                        (Ok(ExprV::Enum { name, type_args, variants: vs }), s4)
                    },
                }
            },
            _ => (Err(Fail::Msg("Expected identifier after 'enum'"@)), s0),
        },
    }
}

/// The operator of a binary expression that the current token starts.
pub open spec fn binary_operator(t: Option<TokenV>) -> Option<Operator> {
    match t {
        Some(TokenV::Plus) => Some(Operator::Add),
        Some(TokenV::Minus) => Some(Operator::Sub),
        Some(TokenV::Asterisk) => Some(Operator::Mul),
        Some(TokenV::Slash) => Some(Operator::Div),
        Some(TokenV::Percent) => Some(Operator::Mod),
        Some(TokenV::GreaterThan) => Some(Operator::GreaterThan),
        Some(TokenV::LessThan) => Some(Operator::LessThan),
        Some(TokenV::GreaterThanOrEqual) => Some(Operator::GreaterThanOrEqual),
        Some(TokenV::LessThanOrEqual) => Some(Operator::LessThanOrEqual),
        Some(TokenV::Equal) => Some(Operator::Equal),
        _ => None,
    }
}

/// The operator of a prefix expression that the current token starts.
pub open spec fn prefix_operator(t: Option<TokenV>) -> Option<Operator> {
    match t {
        Some(TokenV::Minus) => Some(Operator::Sub),
        Some(TokenV::Bang) => Some(Operator::Not),
        _ => None,
    }
}

/// How tightly an operator binds: a higher number binds tighter.
pub open spec fn precedence(op: Operator) -> u8 {
    match op {
        Operator::Or => 1,
        Operator::And => 2,
        Operator::Equal | Operator::NotEqual => 3,
        Operator::LessThan
        | Operator::GreaterThan
        | Operator::LessThanOrEqual
        | Operator::GreaterThanOrEqual => 4,
        Operator::Add | Operator::Sub => 5,
        Operator::Mul | Operator::Div | Operator::Mod => 6,
        Operator::Not => 7,
    }
}

/// A primary expression: an identifier or an integer literal.
pub open spec fn parse_primary(toks: Toks, s: PState) -> Step {
    match s.current {
        Some(TokenV::Identifier(name)) => (Ok(ExprV::Identifier(name)), next(toks, s)),
        Some(TokenV::IntLiteral(digits)) => match i32_of(digits) {
            Some(v) => (Ok(ExprV::Atom(Atom::Int(v))), next(toks, s)),
            None => (Err(Fail::Panic), next(toks, s)),
        },
        _ => (
            Err(Fail::Msg("Unexpected token in primary expression "@ + opt_token_debug(s.current))),
            s,
        ),
    }
}

/// The outcome kept when a rule's state did not move forward: never met, as
/// the executable parser proves, and present so that the rules visibly end.
pub open spec fn stalled(s: PState) -> Step {
    (Err(Fail::Panic), s)
}

/// An expression: a conditional, an enum, a function, or an operator
/// expression.
pub open spec fn parse_expression(toks: Toks, s: PState) -> Step
    decreases measure(toks, s), 6nat,
{
    match s.current {
        Some(TokenV::If) => parse_if(toks, s),
        Some(TokenV::Enum) => parse_enum(toks, s),
        Some(TokenV::FunctionName(_)) => parse_function(toks, s),
        _ => parse_binary_op(toks, 0, s),
    }
}

/// `if condition then branch [else branch]`
pub open spec fn parse_if(toks: Toks, s: PState) -> Step
    decreases measure(toks, s), 5nat,
{
    let (r0, s0) = expect(toks, s, TokenV::If);
    proof {
        lemma_expect(toks, s, TokenV::If);
    }
    match r0 {
        Err(m) => (Err(Fail::Msg(m)), s0),
        Ok(_) => {
            let (r1, s1) = parse_expression(toks, s0);
            match r1 {
                Err(f) => (Err(f), s1),
                Ok(condition) => if !advanced(toks, s0, s1) {
                    stalled(s1)
                } else {
                    let (r2, s2) = expect(toks, s1, TokenV::Then);
                    proof {
                        lemma_expect(toks, s1, TokenV::Then);
                    }
                    match r2 {
                        Err(m) => (Err(Fail::Msg(m)), s2),
                        Ok(_) => {
                            let (r3, s3) = parse_expression(toks, s2);
                            match r3 {
                                Err(f) => (Err(f), s3),
                                Ok(then_branch) => if !advanced(toks, s2, s3) {
                                    stalled(s3)
                                } else if s3.current == Some(TokenV::Else) {
                                    let s4 = next(toks, s3);
                                    proof {
                                        lemma_next(toks, s3);
                                    }
                                    let (r5, s5) = parse_expression(toks, s4);
                                    match r5 {
                                        Err(f) => (Err(f), s5),
                                        Ok(else_branch) => (
                                            Ok(
                                                ExprV::If {
                                                    condition: Box::new(condition),
                                                    then_branch: Box::new(then_branch),
                                                    else_branch: Some(Box::new(else_branch)),
                                                },
                                            ),
                                            s5,
                                        ),
                                    }
                                } else {
                                    (
                                        Ok(
                                            ExprV::If {
                                                condition: Box::new(condition),
                                                then_branch: Box::new(then_branch),
                                                else_branch: None,
                                            },
                                        ),
                                        s3,
                                    )
                                },
                            }
                        },
                    }
                },
            }
        },
    }
}

/// `name params : Type -> Type = body`, the current token being the name.
pub open spec fn parse_function(toks: Toks, s: PState) -> Step
    decreases measure(toks, s), 5nat,
{
    let name = s.current->0->FunctionName_0;
    let s1 = next(toks, s);
    let (params, s2) = identifiers(toks, s1);
    let (r3, s3) = expect(toks, s2, TokenV::Colon);
    let (sig, s4) = signature(toks, s3);
    let (r5, s5) = expect(toks, s4, TokenV::Equals);
    proof {
        lemma_next(toks, s);
        lemma_identifiers(toks, s1);
        lemma_expect(toks, s2, TokenV::Colon);
        lemma_signature(toks, s3);
        lemma_expect(toks, s4, TokenV::Equals);
    }
    match r3 {
        Err(m) => (Err(Fail::Msg(m)), s3),
        Ok(_) => match r5 {
            Err(m) => (Err(Fail::Msg(m)), s5),
            Ok(_) => if s.current is None {
                stalled(s)
            } else {
                let (r6, s6) = parse_expression(toks, s5);
                match r6 {
                    Err(f) => (Err(f), s6),
                    Ok(body) => (
                        Ok(
                            ExprV::Function {
                                name,
                                params,
                                signature: sig,
                                body: Box::new(body),
                            },
                        ),
                        s6,
                    ),
                }
            },
        },
    }
}

/// Operator expressions whose operators bind at least as tightly as
/// `min_prec`, by precedence climbing.
pub open spec fn parse_binary_op(toks: Toks, min_prec: int, s: PState) -> Step
    decreases measure(toks, s), 5nat,
{
    let (r, s1) = parse_prefix_op(toks, s);
    match r {
        Err(f) => (Err(f), s1),
        Ok(left) => if !advanced(toks, s, s1) {
            stalled(s1)
        } else {
            binary_rest(toks, min_prec, left, s1)
        },
    }
}

/// The operators and right operands after a left operand.
pub open spec fn binary_rest(toks: Toks, min_prec: int, left: ExprV, s: PState) -> Step
    decreases measure(toks, s), 4nat,
{
    match binary_operator(s.current) {
        None => (Ok(left), s),
        Some(op) => if (precedence(op) as int) < min_prec {
            (Ok(left), s)
        } else {
            let s1 = next(toks, s);
            proof {
                lemma_next(toks, s);
            }
            let (r, s2) = parse_binary_op(toks, precedence(op) + 1, s1);
            match r {
                Err(f) => (Err(f), s2),
                Ok(right) => if !advanced(toks, s1, s2) {
                    stalled(s2)
                } else {
                    binary_rest(
                        toks,
                        min_prec,
                        ExprV::BinaryOp { left: Box::new(left), op, right: Box::new(right) },
                        s2,
                    )
                },
            }
        },
    }
}

/// Prefix operators before a primary expression.
pub open spec fn parse_prefix_op(toks: Toks, s: PState) -> Step
    decreases measure(toks, s), 3nat,
{
    match prefix_operator(s.current) {
        Some(op) => {
            let s1 = next(toks, s);
            proof {
                lemma_next(toks, s);
            }
            let (r, s2) = parse_prefix_op(toks, s1);
            match r {
                Err(f) => (Err(f), s2),
                Ok(right) => (Ok(ExprV::PrefixOp { op, right: Box::new(right) }), s2),
            }
        },
        None => parse_primary(toks, s),
    }
}

/// What parsing a whole token sequence gives: the expressions, or the errors,
/// or a panic.
pub enum Outcome {
    Parsed(Seq<ExprV>),
    Failed(Seq<Seq<char>>),
    Panics,
}

/// Parsing expressions one after the other while unread tokens are left,
/// after `done`. The first error stops it; looking ahead at an unreadable
/// token panics.
pub open spec fn parse_all(toks: Toks, s: PState, done: Seq<ExprV>) -> Outcome
    decreases toks.len() - s.pos,
{
    if s.pos >= toks.len() {
        Outcome::Parsed(done)
    } else if toks[s.pos as int] is None {
        Outcome::Panics
    } else {
        let (r, s1) = parse_expression(toks, s);
        match r {
            Ok(e) => if s1.pos <= s.pos || s1.pos > toks.len() {
                Outcome::Panics
            } else {
                parse_all(toks, s1, done.push(e))
            },
            Err(Fail::Panic) => Outcome::Panics,
            Err(Fail::Msg(m)) => if s1.pos < toks.len() && toks[s1.pos as int] is None {
                Outcome::Panics
            } else {
                Outcome::Failed(seq![m])
            },
        }
    }
}

/// The state of a new parser: the first token read.
pub open spec fn start(toks: Toks) -> PState {
    next(toks, PState { pos: 0, current: None, last: None })
}

} // verus!
