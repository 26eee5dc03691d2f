//! The third generation's front end: its tokens, its syntax tree, and a
//! precedence-climbing parser over a token sequence.
use vstd::prelude::*;
use vstd::string::StringExecFns;
use crate::text::{debug_quoted, str_eq, string_of, str_debug_text};

pub mod grammar;
pub mod lexer;
pub mod parser;
pub mod laws;

pub use parser::Parser;

verus! {

/// A token of the third lexer.
#[derive(Debug, PartialEq)]
pub enum Token {
    Error,
    Enum,
    Match,
    If,
    Then,
    Else,
    On,
    Arrow,
    And,
    ParenL,
    ParenR,
    BraceL,
    BraceR,
    BracketL,
    BracketR,
    Colon,
    Comma,
    Pipe,
    Equals,
    GreaterThan,
    LessThan,
    GreaterThanOrEqual,
    LessThanOrEqual,
    Equal,
    NotEqual,
    Plus,
    Minus,
    Asterisk,
    Slash,
    Percent,
    Bang,
    CharLiteral,
    IntLiteral(String),
    Identifier(String),
    NewLine,
    Whitespace,
    Comment(String),
    FunctionName(String),
}

/// A token with its text as a character sequence.
pub enum TokenV {
    Error,
    Enum,
    Match,
    If,
    Then,
    Else,
    On,
    Arrow,
    And,
    ParenL,
    ParenR,
    BraceL,
    BraceR,
    BracketL,
    BracketR,
    Colon,
    Comma,
    Pipe,
    Equals,
    GreaterThan,
    LessThan,
    GreaterThanOrEqual,
    LessThanOrEqual,
    Equal,
    NotEqual,
    Plus,
    Minus,
    Asterisk,
    Slash,
    Percent,
    Bang,
    CharLiteral,
    IntLiteral(Seq<char>),
    Identifier(Seq<char>),
    NewLine,
    Whitespace,
    Comment(Seq<char>),
    FunctionName(Seq<char>),
}

/// The view of a token.
pub open spec fn token_view(t: Token) -> TokenV {
    match t {
        Token::Error => TokenV::Error,
        Token::Enum => TokenV::Enum,
        Token::Match => TokenV::Match,
        Token::If => TokenV::If,
        Token::Then => TokenV::Then,
        Token::Else => TokenV::Else,
        Token::On => TokenV::On,
        Token::Arrow => TokenV::Arrow,
        Token::And => TokenV::And,
        Token::ParenL => TokenV::ParenL,
        Token::ParenR => TokenV::ParenR,
        Token::BraceL => TokenV::BraceL,
        Token::BraceR => TokenV::BraceR,
        Token::BracketL => TokenV::BracketL,
        Token::BracketR => TokenV::BracketR,
        Token::Colon => TokenV::Colon,
        Token::Comma => TokenV::Comma,
        Token::Pipe => TokenV::Pipe,
        Token::Equals => TokenV::Equals,
        Token::GreaterThan => TokenV::GreaterThan,
        Token::LessThan => TokenV::LessThan,
        Token::GreaterThanOrEqual => TokenV::GreaterThanOrEqual,
        Token::LessThanOrEqual => TokenV::LessThanOrEqual,
        Token::Equal => TokenV::Equal,
        Token::NotEqual => TokenV::NotEqual,
        Token::Plus => TokenV::Plus,
        Token::Minus => TokenV::Minus,
        Token::Asterisk => TokenV::Asterisk,
        Token::Slash => TokenV::Slash,
        Token::Percent => TokenV::Percent,
        Token::Bang => TokenV::Bang,
        Token::CharLiteral => TokenV::CharLiteral,
        Token::IntLiteral(s) => TokenV::IntLiteral(s@),
        Token::Identifier(s) => TokenV::Identifier(s@),
        Token::NewLine => TokenV::NewLine,
        Token::Whitespace => TokenV::Whitespace,
        Token::Comment(s) => TokenV::Comment(s@),
        Token::FunctionName(s) => TokenV::FunctionName(s@),
    }
}

/// The view of an optional token.
pub open spec fn opt_token_view(t: Option<Token>) -> Option<TokenV> {
    match t {
        Some(t) => Some(token_view(t)),
        None => None,
    }
}

/// How a token reads when written with `{:?}`.
pub open spec fn token_debug(t: TokenV) -> Seq<char> {
    match t {
        TokenV::Error => "Error"@,
        TokenV::Enum => "Enum"@,
        TokenV::Match => "Match"@,
        TokenV::If => "If"@,
        TokenV::Then => "Then"@,
        TokenV::Else => "Else"@,
        TokenV::On => "On"@,
        TokenV::Arrow => "Arrow"@,
        TokenV::And => "And"@,
        TokenV::ParenL => "ParenL"@,
        TokenV::ParenR => "ParenR"@,
        TokenV::BraceL => "BraceL"@,
        TokenV::BraceR => "BraceR"@,
        TokenV::BracketL => "BracketL"@,
        TokenV::BracketR => "BracketR"@,
        TokenV::Colon => "Colon"@,
        TokenV::Comma => "Comma"@,
        TokenV::Pipe => "Pipe"@,
        TokenV::Equals => "Equals"@,
        TokenV::GreaterThan => "GreaterThan"@,
        TokenV::LessThan => "LessThan"@,
        TokenV::GreaterThanOrEqual => "GreaterThanOrEqual"@,
        TokenV::LessThanOrEqual => "LessThanOrEqual"@,
        TokenV::Equal => "Equal"@,
        TokenV::NotEqual => "NotEqual"@,
        TokenV::Plus => "Plus"@,
        TokenV::Minus => "Minus"@,
        TokenV::Asterisk => "Asterisk"@,
        TokenV::Slash => "Slash"@,
        TokenV::Percent => "Percent"@,
        TokenV::Bang => "Bang"@,
        TokenV::CharLiteral => "CharLiteral"@,
        TokenV::IntLiteral(s) => "IntLiteral("@ + str_debug_text(s) + ")"@,
        TokenV::Identifier(s) => "Identifier("@ + str_debug_text(s) + ")"@,
        TokenV::NewLine => "NewLine"@,
        TokenV::Whitespace => "Whitespace"@,
        TokenV::Comment(s) => "Comment("@ + str_debug_text(s) + ")"@,
        TokenV::FunctionName(s) => "FunctionName("@ + str_debug_text(s) + ")"@,
    }
}

/// How an optional token reads when written with `{:?}`.
pub open spec fn opt_token_debug(t: Option<TokenV>) -> Seq<char> {
    match t {
        Some(t) => "Some("@ + token_debug(t) + ")"@,
        None => "None"@,
    }
}

impl Clone for Token {
    fn clone(&self) -> (r: Self)
        ensures
            r == *self,
    {
        match self {
            Token::Error => Token::Error,
            Token::Enum => Token::Enum,
            Token::Match => Token::Match,
            Token::If => Token::If,
            Token::Then => Token::Then,
            Token::Else => Token::Else,
            Token::On => Token::On,
            Token::Arrow => Token::Arrow,
            Token::And => Token::And,
            Token::ParenL => Token::ParenL,
            Token::ParenR => Token::ParenR,
            Token::BraceL => Token::BraceL,
            Token::BraceR => Token::BraceR,
            Token::BracketL => Token::BracketL,
            Token::BracketR => Token::BracketR,
            Token::Colon => Token::Colon,
            Token::Comma => Token::Comma,
            Token::Pipe => Token::Pipe,
            Token::Equals => Token::Equals,
            Token::GreaterThan => Token::GreaterThan,
            Token::LessThan => Token::LessThan,
            Token::GreaterThanOrEqual => Token::GreaterThanOrEqual,
            Token::LessThanOrEqual => Token::LessThanOrEqual,
            Token::Equal => Token::Equal,
            Token::NotEqual => Token::NotEqual,
            Token::Plus => Token::Plus,
            Token::Minus => Token::Minus,
            Token::Asterisk => Token::Asterisk,
            Token::Slash => Token::Slash,
            Token::Percent => Token::Percent,
            Token::Bang => Token::Bang,
            Token::CharLiteral => Token::CharLiteral,
            Token::IntLiteral(s) => Token::IntLiteral(s.clone()),
            Token::Identifier(s) => Token::Identifier(s.clone()),
            Token::NewLine => Token::NewLine,
            Token::Whitespace => Token::Whitespace,
            Token::Comment(s) => Token::Comment(s.clone()),
            Token::FunctionName(s) => Token::FunctionName(s.clone()),
        }
    }
}

impl Token {
    /// Whether two tokens are the same token.
    pub fn same(&self, other: &Token) -> (r: bool)
        ensures
            r == (token_view(*self) == token_view(*other)),
    {
        match self {
            Token::Error => matches!(other, Token::Error),
            Token::Enum => matches!(other, Token::Enum),
            Token::Match => matches!(other, Token::Match),
            Token::If => matches!(other, Token::If),
            Token::Then => matches!(other, Token::Then),
            Token::Else => matches!(other, Token::Else),
            Token::On => matches!(other, Token::On),
            Token::Arrow => matches!(other, Token::Arrow),
            Token::And => matches!(other, Token::And),
            Token::ParenL => matches!(other, Token::ParenL),
            Token::ParenR => matches!(other, Token::ParenR),
            Token::BraceL => matches!(other, Token::BraceL),
            Token::BraceR => matches!(other, Token::BraceR),
            Token::BracketL => matches!(other, Token::BracketL),
            Token::BracketR => matches!(other, Token::BracketR),
            Token::Colon => matches!(other, Token::Colon),
            Token::Comma => matches!(other, Token::Comma),
            Token::Pipe => matches!(other, Token::Pipe),
            Token::Equals => matches!(other, Token::Equals),
            Token::GreaterThan => matches!(other, Token::GreaterThan),
            Token::LessThan => matches!(other, Token::LessThan),
            Token::GreaterThanOrEqual => matches!(other, Token::GreaterThanOrEqual),
            Token::LessThanOrEqual => matches!(other, Token::LessThanOrEqual),
            Token::Equal => matches!(other, Token::Equal),
            Token::NotEqual => matches!(other, Token::NotEqual),
            Token::Plus => matches!(other, Token::Plus),
            Token::Minus => matches!(other, Token::Minus),
            Token::Asterisk => matches!(other, Token::Asterisk),
            Token::Slash => matches!(other, Token::Slash),
            Token::Percent => matches!(other, Token::Percent),
            Token::Bang => matches!(other, Token::Bang),
            Token::CharLiteral => matches!(other, Token::CharLiteral),
            Token::IntLiteral(x) => match other {
                Token::IntLiteral(y) => str_eq(x.as_str(), y.as_str()),
                _ => false,
            },
            Token::Identifier(x) => match other {
                Token::Identifier(y) => str_eq(x.as_str(), y.as_str()),
                _ => false,
            },
            Token::NewLine => matches!(other, Token::NewLine),
            Token::Whitespace => matches!(other, Token::Whitespace),
            Token::Comment(x) => match other {
                Token::Comment(y) => str_eq(x.as_str(), y.as_str()),
                _ => false,
            },
            Token::FunctionName(x) => match other {
                Token::FunctionName(y) => str_eq(x.as_str(), y.as_str()),
                _ => false,
            },
        }
    }

    /// The token written with `{:?}`.
    pub fn debug_text(&self) -> (r: String)
        ensures
            r@ == token_debug(token_view(*self)),
    {
        match self {
            Token::Error => string_of("Error"),
            Token::Enum => string_of("Enum"),
            Token::Match => string_of("Match"),
            Token::If => string_of("If"),
            Token::Then => string_of("Then"),
            Token::Else => string_of("Else"),
            Token::On => string_of("On"),
            Token::Arrow => string_of("Arrow"),
            Token::And => string_of("And"),
            Token::ParenL => string_of("ParenL"),
            Token::ParenR => string_of("ParenR"),
            Token::BraceL => string_of("BraceL"),
            Token::BraceR => string_of("BraceR"),
            Token::BracketL => string_of("BracketL"),
            Token::BracketR => string_of("BracketR"),
            Token::Colon => string_of("Colon"),
            Token::Comma => string_of("Comma"),
            Token::Pipe => string_of("Pipe"),
            Token::Equals => string_of("Equals"),
            Token::GreaterThan => string_of("GreaterThan"),
            Token::LessThan => string_of("LessThan"),
            Token::GreaterThanOrEqual => string_of("GreaterThanOrEqual"),
            Token::LessThanOrEqual => string_of("LessThanOrEqual"),
            Token::Equal => string_of("Equal"),
            Token::NotEqual => string_of("NotEqual"),
            Token::Plus => string_of("Plus"),
            Token::Minus => string_of("Minus"),
            Token::Asterisk => string_of("Asterisk"),
            Token::Slash => string_of("Slash"),
            Token::Percent => string_of("Percent"),
            Token::Bang => string_of("Bang"),
            Token::CharLiteral => string_of("CharLiteral"),
            Token::IntLiteral(s) => {
                let mut r = string_of("IntLiteral(");
                r.append(debug_quoted(s.as_str()).as_str());
                r.append(")");
                r
            },
            Token::Identifier(s) => {
                let mut r = string_of("Identifier(");
                r.append(debug_quoted(s.as_str()).as_str());
                r.append(")");
                r
            },
            Token::NewLine => string_of("NewLine"),
            Token::Whitespace => string_of("Whitespace"),
            Token::Comment(s) => {
                let mut r = string_of("Comment(");
                r.append(debug_quoted(s.as_str()).as_str());
                r.append(")");
                r
            },
            Token::FunctionName(s) => {
                let mut r = string_of("FunctionName(");
                r.append(debug_quoted(s.as_str()).as_str());
                r.append(")");
                r
            },
        }
    }
}

/// An optional token written with `{:?}`.
pub fn opt_debug_text(t: &Option<Token>) -> (r: String)
    ensures
        r@ == opt_token_debug(opt_token_view(*t)),
{
    match t {
        Some(t) => {
            let mut r = string_of("Some(");
            r.append(t.debug_text().as_str());
            r.append(")");
            r
        },
        None => string_of("None"),
    }
}

/// A literal value.
#[derive(Debug, Clone, Copy, PartialEq, Eq, Structural)]
pub enum Atom {
    Int(i32),
    Char(char),
    Bool(bool),
}

/// An operator.
#[derive(Debug, Clone, Copy, PartialEq, Eq, Structural)]
pub enum Operator {
    Add,
    Sub,
    Mul,
    Div,
    Mod,
    And,
    Or,
    Not,
    Equal,
    NotEqual,
    GreaterThan,
    GreaterThanOrEqual,
    LessThan,
    LessThanOrEqual,
}

/// An expression or a definition.
#[derive(Debug, PartialEq)]
pub enum Expr {
    Atom(Atom),
    Identifier(String),
    PrefixOp { op: Operator, right: Box<Expr> },
    BinaryOp { left: Box<Expr>, op: Operator, right: Box<Expr> },
    Function { name: String, params: Vec<String>, signature: Vec<String>, body: Box<Expr> },
    Enum { name: String, type_args: Vec<String>, variants: Vec<Vec<Expr>> },
    If { condition: Box<Expr>, then_branch: Box<Expr>, else_branch: Option<Box<Expr>> },
}

/// An expression with its names as character sequences.
pub enum ExprV {
    Atom(Atom),
    Identifier(Seq<char>),
    PrefixOp { op: Operator, right: Box<ExprV> },
    BinaryOp { left: Box<ExprV>, op: Operator, right: Box<ExprV> },
    Function {
        name: Seq<char>,
        params: Seq<Seq<char>>,
        signature: Seq<Seq<char>>,
        body: Box<ExprV>,
    },
    Enum { name: Seq<char>, type_args: Seq<Seq<char>>, variants: Seq<Seq<ExprV>> },
    If { condition: Box<ExprV>, then_branch: Box<ExprV>, else_branch: Option<Box<ExprV>> },
}

/// The texts of some strings.
pub open spec fn strings_view(v: Seq<String>) -> Seq<Seq<char>> {
    v.map_values(|s: String| s@)
}

/// The view of an expression: its names as character sequences.
pub open spec fn expr_view(e: Expr) -> ExprV
    decreases e,
{
    match e {
        Expr::Atom(a) => ExprV::Atom(a),
        Expr::Identifier(s) => ExprV::Identifier(s@),
        Expr::PrefixOp { op, right } => ExprV::PrefixOp { op, right: Box::new(expr_view(*right)) },
        Expr::BinaryOp { left, op, right } => ExprV::BinaryOp {
            left: Box::new(expr_view(*left)),
            op,
            right: Box::new(expr_view(*right)),
        },
        Expr::Function { name, params, signature, body } => ExprV::Function {
            name: name@,
            params: strings_view(params@),
            signature: strings_view(signature@),
            body: Box::new(expr_view(*body)),
        },
        Expr::Enum { name, type_args, variants } => ExprV::Enum {
            name: name@,
            type_args: strings_view(type_args@),
            variants: Seq::new(
                variants@.len(),
                |i: int|
                    Seq::new(
                        variants@[i]@.len(),
                        |j: int|
                            if 0 <= i < variants@.len() && 0 <= j < variants@[i]@.len() {
                                proof {
                                    assert(decreases_to!(e => variants));
                                    assert(decreases_to!(variants => variants@));
                                    assert(decreases_to!(variants@ => variants@[i]));
                                    assert(decreases_to!(variants@[i] => variants@[i]@));
                                    assert(decreases_to!(variants@[i]@ => variants@[i]@[j]));
                                }
                                expr_view(variants@[i]@[j])
                            } else {
                                ExprV::Atom(Atom::Bool(false))
                            },
                    ),
            ),
        },
        Expr::If { condition, then_branch, else_branch } => ExprV::If {
            condition: Box::new(expr_view(*condition)),
            then_branch: Box::new(expr_view(*then_branch)),
            else_branch: match else_branch {
                Some(b) => Some(Box::new(expr_view(*b))),
                None => None,
            },
        },
    }
}

/// The views of some expressions.
pub open spec fn exprs_view(v: Seq<Expr>) -> Seq<ExprV> {
    v.map_values(|e: Expr| expr_view(e))
}

} // verus!
