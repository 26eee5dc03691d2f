//! Pieces of the second generation's parser: the built-in functions and the
//! parsers of single tokens, each reading from the front of a token slice.
use vstd::prelude::*;
use vstd::slice::slice_subrange;
use crate::position::Spanned;
use crate::scanner::model::STok;
use crate::scanner::{KeyWord, Token, tok_view};
use crate::text::str_eq;

verus! {

/// A built-in function.
#[derive(Debug, PartialEq, Clone, Copy, Eq, Structural)]
pub enum BuiltIn {
    Plus,
    Mins,
    Mult,
    Div,
    Eq,
    NEq,
    Not,
    Print,
    PrintLn,
}

impl BuiltIn {
    /// How the function is written in source.
    pub fn symbol(&self) -> (r: &'static str)
        ensures
            r@ == builtin_symbol(*self),
    {
        match self {
            BuiltIn::Plus => "+",
            BuiltIn::Mins => "-",
            BuiltIn::Mult => "*",
            BuiltIn::Div => "/",
            BuiltIn::Eq => "==",
            BuiltIn::NEq => "!=",
            BuiltIn::Not => "!",
            BuiltIn::Print => "print",
            BuiltIn::PrintLn => "println",
        }
    }

    /// The function's name.
    pub fn name(&self) -> (r: &'static str)
        ensures
            r@ == builtin_name(*self),
    {
        match self {
            BuiltIn::Plus => "Plus",
            BuiltIn::Mins => "Mins",
            BuiltIn::Mult => "Mult",
            BuiltIn::Div => "Div",
            BuiltIn::Eq => "Eq",
            BuiltIn::NEq => "NEq",
            BuiltIn::Not => "Not",
            BuiltIn::Print => "print",
            BuiltIn::PrintLn => "println",
        }
    }
}

/// How a built-in function is written in source.
pub open spec fn builtin_symbol(b: BuiltIn) -> Seq<char> {
    match b {
        BuiltIn::Plus => "+"@,
        BuiltIn::Mins => "-"@,
        BuiltIn::Mult => "*"@,
        BuiltIn::Div => "/"@,
        BuiltIn::Eq => "=="@,
        BuiltIn::NEq => "!="@,
        BuiltIn::Not => "!"@,
        BuiltIn::Print => "print"@,
        BuiltIn::PrintLn => "println"@,
    }
}

/// A built-in function's name.
pub open spec fn builtin_name(b: BuiltIn) -> Seq<char> {
    match b {
        BuiltIn::Plus => "Plus"@,
        BuiltIn::Mins => "Mins"@,
        BuiltIn::Mult => "Mult"@,
        BuiltIn::Div => "Div"@,
        BuiltIn::Eq => "Eq"@,
        BuiltIn::NEq => "NEq"@,
        BuiltIn::Not => "Not"@,
        BuiltIn::Print => "print"@,
        BuiltIn::PrintLn => "println"@,
    }
}

/// The built-in function that a token stands for, if any.
pub open spec fn builtin_of(t: STok) -> Option<BuiltIn> {
    match t {
        STok::Op(s) => if s == "+"@ {
            Some(BuiltIn::Plus)
        } else if s == "-"@ {
            Some(BuiltIn::Mins)
        } else if s == "*"@ {
            Some(BuiltIn::Mult)
        } else if s == "/"@ {
            Some(BuiltIn::Div)
        } else if s == "=="@ {
            Some(BuiltIn::Eq)
        } else if s == "!="@ {
            Some(BuiltIn::NEq)
        } else if s == "!"@ {
            Some(BuiltIn::Not)
        } else {
            None
        },
        STok::KeyWord(KeyWord::Print) => Some(BuiltIn::Print),
        STok::KeyWord(KeyWord::PrintLn) => Some(BuiltIn::PrintLn),
        _ => None,
    }
}

/// What a parser gives: the rest of the input and what it read, or the input
/// it failed on.
pub type ParseResult<'a, O> = Result<(&'a [Spanned<Token>], O), &'a [Spanned<Token>]>;

/// Whether `r` is what reading a built-in function from the front of `input`
/// gives: the function with the token's span and the rest, or the whole input
/// where it starts with no such token.
pub open spec fn reads_builtin<'a>(input: Seq<Spanned<Token>>, r: ParseResult<'a, Spanned<BuiltIn>>) -> bool {
    match r {
        Ok((rest, b)) => {
            &&& input.len() > 0
            &&& builtin_of(tok_view(input[0].node)) == Some(b.node)
            &&& b.span == input[0].span
            &&& rest@ == input.drop_first()
        },
        Err(rest) => rest@ == input && (input.len() == 0 || builtin_of(tok_view(input[0].node)) is None),
    }
}

/// The built-in function at the front of the input.
pub fn builtin<'a>(input: &'a [Spanned<Token>]) -> (r: ParseResult<'a, Spanned<BuiltIn>>)
    ensures
        reads_builtin(input@, r),
{
    if input.len() == 0 {
        return Err(input);
    }
    let found: Option<BuiltIn> = match &input[0].node {
        Token::Op(s) => {
            if str_eq(s, "+") {
                Some(BuiltIn::Plus)
            } else if str_eq(s, "-") {
                Some(BuiltIn::Mins)
            } else if str_eq(s, "*") {
                Some(BuiltIn::Mult)
            } else if str_eq(s, "/") {
                Some(BuiltIn::Div)
            } else if str_eq(s, "==") {
                Some(BuiltIn::Eq)
            } else if str_eq(s, "!=") {
                Some(BuiltIn::NEq)
            } else if str_eq(s, "!") {
                Some(BuiltIn::Not)
            } else {
                None
            }
        },
        Token::KeyWord(KeyWord::Print) => Some(BuiltIn::Print),
        Token::KeyWord(KeyWord::PrintLn) => Some(BuiltIn::PrintLn),
        _ => None,
    };
    match found {
        Some(b) => {
            let rest = slice_subrange(input, 1, input.len());
            assert(rest@ =~= input@.drop_first());
            Ok((rest, Spanned::new(b, input[0].span())))
        },
        None => Err(input),
    }
}

/// The built-in function at the front of the input (the same reading as
/// `builtin`).
pub fn builtins<'a>(input: &'a [Spanned<Token>]) -> (r: ParseResult<'a, Spanned<BuiltIn>>)
    ensures
        reads_builtin(input@, r),
{
    builtin(input)
}

/// Whether two tokens are the same token.
pub fn same_token(a: &Token, b: &Token) -> (r: bool)
    ensures
        r == (tok_view(*a) == tok_view(*b)),
{
    match a {
        Token::Int(x) => match b {
            Token::Int(y) => str_eq(x, y),
            _ => false,
        },
        Token::Float(x) => match b {
            Token::Float(y) => str_eq(x, y),
            _ => false,
        },
        Token::String(x) => match b {
            Token::String(y) => str_eq(x, y),
            _ => false,
        },
        Token::Id(x) => match b {
            Token::Id(y) => str_eq(x, y),
            _ => false,
        },
        Token::Fn(x) => match b {
            Token::Fn(y) => str_eq(x, y),
            _ => false,
        },
        Token::KeyWord(x) => match b {
            Token::KeyWord(y) => *x == *y,
            _ => false,
        },
        Token::InDent => matches!(b, Token::InDent),
        Token::DeDent => matches!(b, Token::DeDent),
        Token::Delimiter => matches!(b, Token::Delimiter),
        Token::Op(x) => match b {
            Token::Op(y) => str_eq(x, y),
            _ => false,
        },
        Token::Ctrl(x) => match b {
            Token::Ctrl(y) => *x == *y,
            _ => false,
        },
    }
}

/// Whether `r` is what reading the token `t` from the front of `input` gives:
/// that token and the rest, or the whole input when it does not start with it.
pub open spec fn reads_token<'a>(input: Seq<Spanned<Token>>, t: STok, r: ParseResult<'a, Spanned<Token>>) -> bool {
    match r {
        Ok((rest, tok)) => {
            &&& input.len() > 0
            &&& tok_view(input[0].node) == t
            &&& tok == input[0]
            &&& rest@ == input.drop_first()
        },
        Err(rest) => rest@ == input && (input.len() == 0 || tok_view(input[0].node) != t),
    }
}

/// The token at the front of the input, if it is `token`.
pub fn next_token<'a>(input: &'a [Spanned<Token>], token: Token) -> (r: ParseResult<'a, Spanned<Token>>)
    ensures
        reads_token(input@, tok_view(token), r),
{
    if input.len() > 0 && same_token(&input[0].node, &token) {
        let rest = slice_subrange(input, 1, input.len());
        assert(rest@ =~= input@.drop_first());
        let t = Spanned::new(input[0].node.clone(), input[0].span());
        Ok((rest, t))
    } else {
        Err(input)
    }
}

/// An `InDent` at the front of the input.
pub fn indent_token<'a>(input: &'a [Spanned<Token>]) -> (r: ParseResult<'a, Spanned<Token>>)
    ensures
        reads_token(input@, STok::InDent, r),
{
    next_token(input, Token::InDent)
}

/// An `=` at the front of the input.
pub fn equal_token<'a>(input: &'a [Spanned<Token>]) -> (r: ParseResult<'a, Spanned<Token>>)
    ensures
        reads_token(input@, STok::Op("="@), r),
{
    next_token(input, Token::Op("="))
}

/// A `do` at the front of the input.
pub fn do_token<'a>(input: &'a [Spanned<Token>]) -> (r: ParseResult<'a, Spanned<Token>>)
    ensures
        reads_token(input@, STok::KeyWord(KeyWord::Do), r),
{
    next_token(input, Token::KeyWord(KeyWord::Do))
}

/// A `DeDent` at the front of the input.
pub fn dedent_token<'a>(input: &'a [Spanned<Token>]) -> (r: ParseResult<'a, Spanned<Token>>)
    ensures
        reads_token(input@, STok::DeDent, r),
{
    next_token(input, Token::DeDent)
}

/// An `if` at the front of the input.
pub fn if_token<'a>(input: &'a [Spanned<Token>]) -> (r: ParseResult<'a, Spanned<Token>>)
    ensures
        reads_token(input@, STok::KeyWord(KeyWord::If), r),
{
    next_token(input, Token::KeyWord(KeyWord::If))
}

/// A `then` at the front of the input.
pub fn then_token<'a>(input: &'a [Spanned<Token>]) -> (r: ParseResult<'a, Spanned<Token>>)
    ensures
        reads_token(input@, STok::KeyWord(KeyWord::Then), r),
{
    next_token(input, Token::KeyWord(KeyWord::Then))
}

/// An `else` at the front of the input.
pub fn else_token<'a>(input: &'a [Spanned<Token>]) -> (r: ParseResult<'a, Spanned<Token>>)
    ensures
        reads_token(input@, STok::KeyWord(KeyWord::Else), r),
{
    next_token(input, Token::KeyWord(KeyWord::Else))
}

/// A `let` at the front of the input.
pub fn let_token<'a>(input: &'a [Spanned<Token>]) -> (r: ParseResult<'a, Spanned<Token>>)
    ensures
        reads_token(input@, STok::KeyWord(KeyWord::Let), r),
{
    next_token(input, Token::KeyWord(KeyWord::Let))
}

/// A `,` at the front of the input.
pub fn comma<'a>(input: &'a [Spanned<Token>]) -> (r: ParseResult<'a, Spanned<Token>>)
    ensures
        reads_token(input@, STok::Ctrl(','), r),
{
    next_token(input, Token::Ctrl(','))
}

/// Whether `r` is what reading a name from the front of `input` gives: the
/// text of an `Id` token (or of a `Fn` token, where `function` is set) with
/// its span, and the rest; or the whole input where it starts with no such
/// token.
pub open spec fn reads_name<'a>(input: Seq<Spanned<Token>>, function: bool, r: ParseResult<'a, Spanned<String>>) -> bool {
    let named = input.len() > 0 && if function {
        tok_view(input[0].node) is Fn
    } else {
        tok_view(input[0].node) is Id
    };
    match r {
        Ok((rest, name)) => {
            &&& named
            &&& (if function {
                tok_view(input[0].node) == STok::Fn(name.node@)
            } else {
                tok_view(input[0].node) == STok::Id(name.node@)
            })
            &&& name.span == input[0].span
            &&& rest@ == input.drop_first()
        },
        Err(rest) => rest@ == input && !named,
    }
}

/// The name that an `Id` token at the front of the input holds.
pub fn parse_name<'a>(input: &'a [Spanned<Token>]) -> (r: ParseResult<'a, Spanned<String>>)
    ensures
        reads_name(input@, false, r),
{
    if input.len() == 0 {
        return Err(input);
    }
    match &input[0].node {
        Token::Id(name) => {
            let rest = slice_subrange(input, 1, input.len());
            assert(rest@ =~= input@.drop_first());
            Ok((rest, Spanned::new(name.clone(), input[0].span())))
        },
        _ => Err(input),
    }
}

/// The name that a function token at the front of the input holds.
pub fn fn_token<'a>(input: &'a [Spanned<Token>]) -> (r: ParseResult<'a, Spanned<String>>)
    ensures
        reads_name(input@, true, r),
{
    if input.len() == 0 {
        return Err(input);
    }
    match &input[0].node {
        Token::Fn(name) => {
            let rest = slice_subrange(input, 1, input.len());
            assert(rest@ =~= input@.drop_first());
            Ok((rest, Spanned::new(name.clone(), input[0].span())))
        },
        _ => Err(input),
    }
}

} // verus!
