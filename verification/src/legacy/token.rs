//! Tokens of the first lexer.
use vstd::prelude::*;
use core::ops::Range;
use crate::text::{str_eq, push_char};
use vstd::string::StringExecFns;

verus! {

/// A range of character positions.
pub type Span = Range<usize>;

/// A value with the range of characters it came from.
pub type Spanned<T> = (T, Span);

/// Reserved words.
#[derive(Debug, Clone, Copy, PartialEq, Eq, Structural, Hash)]
pub enum KeyWord {
    True,
    False,
    Return,
    Let,
    And,
    Or,
    Not,
    If,
    Then,
    Else,
    Do,
    Print,
    PrintLn,
}

/// The reserved word that `name` spells, if any.
pub open spec fn keyword_of(name: Seq<char>) -> Option<KeyWord> {
    if name == "True"@ {
        Some(KeyWord::True)
    } else if name == "False"@ {
        Some(KeyWord::False)
    } else if name == "return"@ {
        Some(KeyWord::Return)
    } else if name == "let"@ {
        Some(KeyWord::Let)
    } else if name == "and"@ {
        Some(KeyWord::And)
    } else if name == "or"@ {
        Some(KeyWord::Or)
    } else if name == "not"@ {
        Some(KeyWord::Not)
    } else if name == "if"@ {
        Some(KeyWord::If)
    } else if name == "then"@ {
        Some(KeyWord::Then)
    } else if name == "else"@ {
        Some(KeyWord::Else)
    } else if name == "do"@ {
        Some(KeyWord::Do)
    } else if name == "print"@ {
        Some(KeyWord::Print)
    } else if name == "println"@ {
        Some(KeyWord::PrintLn)
    } else {
        None
    }
}

impl KeyWord {
    /// The reserved word that `name` spells, if any.
    pub fn lookup(name: &str) -> (r: Option<Self>)
        ensures
            r == keyword_of(name@),
    {
        if str_eq(name, "True") {
            Some(KeyWord::True)
        } else if str_eq(name, "False") {
            Some(KeyWord::False)
        } else if str_eq(name, "return") {
            Some(KeyWord::Return)
        } else if str_eq(name, "let") {
            Some(KeyWord::Let)
        } else if str_eq(name, "and") {
            Some(KeyWord::And)
        } else if str_eq(name, "or") {
            Some(KeyWord::Or)
        } else if str_eq(name, "not") {
            Some(KeyWord::Not)
        } else if str_eq(name, "if") {
            Some(KeyWord::If)
        } else if str_eq(name, "then") {
            Some(KeyWord::Then)
        } else if str_eq(name, "else") {
            Some(KeyWord::Else)
        } else if str_eq(name, "do") {
            Some(KeyWord::Do)
        } else if str_eq(name, "print") {
            Some(KeyWord::Print)
        } else if str_eq(name, "println") {
            Some(KeyWord::PrintLn)
        } else {
            None
        }
    }

    /// The text of this word.
    pub open spec fn spec_text(&self) -> Seq<char> {
        match self {
            KeyWord::True => "True"@,
            KeyWord::False => "False"@,
            KeyWord::Return => "return"@,
            KeyWord::Let => "let"@,
            KeyWord::And => "and"@,
            KeyWord::Or => "or"@,
            KeyWord::Not => "not"@,
            KeyWord::If => "if"@,
            KeyWord::Then => "then"@,
            KeyWord::Else => "else"@,
            KeyWord::Do => "do"@,
            KeyWord::Print => "print"@,
            KeyWord::PrintLn => "println"@,
        }
    }

    /// The text of this word.
    pub fn text(&self) -> (r: &'static str)
        ensures
            r@ == self.spec_text(),
    {
        match self {
            KeyWord::True => "True",
            KeyWord::False => "False",
            KeyWord::Return => "return",
            KeyWord::Let => "let",
            KeyWord::And => "and",
            KeyWord::Or => "or",
            KeyWord::Not => "not",
            KeyWord::If => "if",
            KeyWord::Then => "then",
            KeyWord::Else => "else",
            KeyWord::Do => "do",
            KeyWord::Print => "print",
            KeyWord::PrintLn => "println",
        }
    }
}

/// The kinds of block that the lexer opens and closes.
#[derive(Debug, Clone, Copy, PartialEq, Eq, Structural, Hash)]
pub enum BlockType {
    Fn,
    Do,
    Let,
    Arg,
    Pram,
    Paren,
    FnBlock,
}

impl BlockType {
    /// The name of this kind of block.
    pub open spec fn spec_text(&self) -> Seq<char> {
        match self {
            BlockType::Fn => "Fn"@,
            BlockType::Do => "Do"@,
            BlockType::Let => "Let"@,
            BlockType::Arg => "Arg"@,
            BlockType::Pram => "Pram"@,
            BlockType::Paren => "Paren"@,
            BlockType::FnBlock => "FnBlock"@,
        }
    }

    /// The name of this kind of block.
    pub fn text(&self) -> (r: &'static str)
        ensures
            r@ == self.spec_text(),
    {
        match self {
            BlockType::Fn => "Fn",
            BlockType::Do => "Do",
            BlockType::Let => "Let",
            BlockType::Arg => "Arg",
            BlockType::Pram => "Pram",
            BlockType::Paren => "Paren",
            BlockType::FnBlock => "FnBlock",
        }
    }
}

/// A token of the first lexer.
#[derive(Debug, Clone, PartialEq, Eq, Hash)]
pub enum Token {
    Int(String),
    Float(String),
    String(String),
    Char(char),
    Op(String),
    Ctrl(char),
    KeyWord(KeyWord),
    Id(String),
    /// A function's name followed by its parameters, each with its span.
    IdList(Vec<(String, Span)>),
    OpenBlock(BlockType),
    CloseBlock(BlockType),
    Error(String),
    Eof,
}

/// A token with its texts as character sequences.
pub enum TokenV {
    Int(Seq<char>),
    Float(Seq<char>),
    String(Seq<char>),
    Char(char),
    Op(Seq<char>),
    Ctrl(char),
    KeyWord(KeyWord),
    Id(Seq<char>),
    IdList(Seq<(Seq<char>, Span)>),
    OpenBlock(BlockType),
    CloseBlock(BlockType),
    Error(Seq<char>),
    Eof,
}

/// The names and spans of a list of identifiers.
pub open spec fn id_list_view(v: Seq<(String, Span)>) -> Seq<(Seq<char>, Span)> {
    v.map_values(|p: (String, Span)| (p.0@, p.1))
}

impl View for Token {
    type V = TokenV;

    open spec fn view(&self) -> TokenV {
        match self {
            Token::Int(s) => TokenV::Int(s@),
            Token::Float(s) => TokenV::Float(s@),
            Token::String(s) => TokenV::String(s@),
            Token::Char(c) => TokenV::Char(*c),
            Token::Op(s) => TokenV::Op(s@),
            Token::Ctrl(c) => TokenV::Ctrl(*c),
            Token::KeyWord(k) => TokenV::KeyWord(*k),
            Token::Id(s) => TokenV::Id(s@),
            Token::IdList(v) => TokenV::IdList(id_list_view(v@)),
            Token::OpenBlock(b) => TokenV::OpenBlock(*b),
            Token::CloseBlock(b) => TokenV::CloseBlock(*b),
            Token::Error(s) => TokenV::Error(s@),
            Token::Eof => TokenV::Eof,
        }
    }
}

/// Some tokens, viewed.
pub open spec fn tokens_view(v: Seq<Spanned<Token>>) -> Seq<(TokenV, Span)> {
    v.map_values(|t: Spanned<Token>| (t.0@, t.1))
}

} // verus!
