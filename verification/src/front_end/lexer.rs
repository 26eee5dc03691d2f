//! The third generation's lexer: source text to tokens, the longest match
//! first and a keyword before a name of the same length; form feeds are
//! skipped, and text that no token matches gives an error item.
use vstd::prelude::*;
use crate::text::{chars_of, push_char, spec_is_ascii_alphabetic, spec_is_ascii_alphanumeric, spec_is_ascii_digit, str_eq};
use super::{Token, TokenV, token_view};
use super::grammar::Toks;
use super::parser::toks_view;

verus! {

/// The classes of characters that make up runs.
pub enum Run {
    /// Form feeds, which are skipped.
    FormFeed,
    /// Spaces, tabs and carriage returns.
    Blank,
    /// ASCII digits.
    Digit,
    /// ASCII letters, digits and underscores.
    Word,
}

/// Whether `c` belongs to the run class `r`.
pub open spec fn in_run(r: Run, c: char) -> bool {
    match r {
        Run::FormFeed => c == '\u{c}',
        Run::Blank => c == ' ' || c == '\t' || c == '\r',
        Run::Digit => spec_is_ascii_digit(c),
        Run::Word => spec_is_ascii_alphanumeric(c) || c == '_',
    }
}

/// How many characters from `i` on belong to `r`.
pub open spec fn run_len(s: Seq<char>, i: int, r: Run) -> nat
    decreases s.len() - i,
{
    if 0 <= i < s.len() && in_run(r, s[i]) {
        1 + run_len(s, i + 1, r)
    } else {
        0
    }
}

/// The place of the first newline at or after `i`, if any.
pub open spec fn newline_from(s: Seq<char>, i: int) -> Option<int>
    decreases s.len() - i,
{
    if i < 0 || i >= s.len() {
        None
    } else if s[i] == '\n' {
        Some(i)
    } else {
        newline_from(s, i + 1)
    }
}

/// The keyword that a word is, if any.
pub open spec fn keyword(w: Seq<char>) -> Option<TokenV> {
    if w == "enum"@ {
        Some(TokenV::Enum)
    } else if w == "match"@ {
        Some(TokenV::Match)
    } else if w == "if"@ {
        Some(TokenV::If)
    } else if w == "then"@ {
        Some(TokenV::Then)
    } else if w == "else"@ {
        Some(TokenV::Else)
    } else if w == "on"@ {
        Some(TokenV::On)
    } else if w == "and"@ {
        Some(TokenV::And)
    } else {
        None
    }
}

/// What reading at one place gives.
pub enum Lexed {
    /// Characters that are dropped.
    Skip,
    /// A token.
    Tok(TokenV),
    /// Characters that no token matches.
    Fail,
}

/// The character after `i`, if any.
pub open spec fn after(s: Seq<char>, i: int) -> Option<char> {
    if i + 1 < s.len() {
        Some(s[i + 1])
    } else {
        None
    }
}

/// A token of one character, if `c` is one.
pub open spec fn single(c: char) -> Option<TokenV> {
    if c == '(' {
        Some(TokenV::ParenL)
    } else if c == ')' {
        Some(TokenV::ParenR)
    } else if c == '{' {
        Some(TokenV::BraceL)
    } else if c == '}' {
        Some(TokenV::BraceR)
    } else if c == '[' {
        Some(TokenV::BracketL)
    } else if c == ']' {
        Some(TokenV::BracketR)
    } else if c == ':' {
        Some(TokenV::Colon)
    } else if c == ',' {
        Some(TokenV::Comma)
    } else if c == '|' {
        Some(TokenV::Pipe)
    } else if c == '+' {
        Some(TokenV::Plus)
    } else if c == '*' {
        Some(TokenV::Asterisk)
    } else if c == '/' {
        Some(TokenV::Slash)
    } else if c == '%' {
        Some(TokenV::Percent)
    } else if c == '\n' {
        Some(TokenV::NewLine)
    } else {
        None
    }
}

/// The token of two characters that `c` starts with `=` after it, and the
/// one of `c` alone, if `c` starts either.
pub open spec fn with_equals(c: char) -> Option<(TokenV, TokenV)> {
    if c == '>' {
        Some((TokenV::GreaterThanOrEqual, TokenV::GreaterThan))
    } else if c == '<' {
        Some((TokenV::LessThanOrEqual, TokenV::LessThan))
    } else if c == '=' {
        Some((TokenV::Equal, TokenV::Equals))
    } else if c == '!' {
        Some((TokenV::NotEqual, TokenV::Bang))
    } else {
        None
    }
}

/// What is read at `i` (inside `s`), and how many characters after the
/// first it takes.
pub open spec fn lex_step(s: Seq<char>, i: int) -> (Lexed, nat) {
    let c = s[i];
    if in_run(Run::FormFeed, c) {
        (Lexed::Skip, run_len(s, i + 1, Run::FormFeed))
    } else if in_run(Run::Blank, c) {
        (Lexed::Tok(TokenV::Whitespace), run_len(s, i + 1, Run::Blank))
    } else if single(c) is Some {
        (Lexed::Tok(single(c)->0), 0)
    } else if with_equals(c) is Some {
        let (long, short) = with_equals(c)->0;
        if after(s, i) == Some('=') {
            (Lexed::Tok(long), 1)
        } else {
            (Lexed::Tok(short), 0)
        }
    } else if c == '-' {
        if after(s, i) == Some('-') && newline_from(s, i + 2) is Some {
            let end = newline_from(s, i + 2)->0;
            (Lexed::Tok(TokenV::Comment(s.subrange(i, end + 1))), (end - i) as nat)
        } else if after(s, i) == Some('>') {
            (Lexed::Tok(TokenV::Arrow), 1)
        } else {
            (Lexed::Tok(TokenV::Minus), 0)
        }
    } else if c == '\'' {
        if i + 2 < s.len() && s[i + 1] != '\'' && s[i + 2] == '\'' {
            (Lexed::Tok(TokenV::CharLiteral), 2)
        } else if i + 1 < s.len() && s[i + 1] != '\'' {
            (Lexed::Fail, 1)
        } else {
            (Lexed::Fail, 0)
        }
    } else if in_run(Run::Digit, c) {
        let n = run_len(s, i + 1, Run::Digit);
        (Lexed::Tok(TokenV::IntLiteral(s.subrange(i, i + 1 + n))), n)
    } else if spec_is_ascii_alphabetic(c) || c == '_' {
        let n = run_len(s, i + 1, Run::Word);
        let w = s.subrange(i, i + 1 + n);
        match keyword(w) {
            Some(k) => (Lexed::Tok(k), n),
            None => (Lexed::Tok(TokenV::Identifier(w)), n),
        }
    } else {
        (Lexed::Fail, 0)
    }
}

/// The tokens read from `i` on; `None` for text that no token matches.
pub open spec fn lex_from(s: Seq<char>, i: int) -> Toks
    decreases s.len() - i,
{
    if i < 0 || i >= s.len() {
        Seq::empty()
    } else {
        let (l, extra) = lex_step(s, i);
        let next = i + 1 + extra;
        let rest = if next <= s.len() {
            lex_from(s, next)
        } else {
            Seq::empty()
        };
        match l {
            Lexed::Skip => rest,
            Lexed::Tok(t) => seq![Some(t)] + rest,
            Lexed::Fail => seq![None] + rest,
        }
    }
}

/// The tokens of a source text.
pub open spec fn lex(s: Seq<char>) -> Toks {
    lex_from(s, 0)
}

/// A run stays inside the text.
proof fn lemma_run_len_bound(s: Seq<char>, i: int, r: Run)
    requires
        0 <= i <= s.len(),
    ensures
        i + run_len(s, i, r) <= s.len(),
    decreases s.len() - i,
{
    if i < s.len() && in_run(r, s[i]) {
        lemma_run_len_bound(s, i + 1, r);
    }
}

/// A newline found is in the text, at or after where the search began.
proof fn lemma_newline_from_bound(s: Seq<char>, i: int)
    requires
        0 <= i,
    ensures
        newline_from(s, i) matches Some(j) ==> i <= j < s.len() && s[j] == '\n',
    decreases s.len() - i,
{
    if i < s.len() && s[i] != '\n' {
        lemma_newline_from_bound(s, i + 1);
    }
}

/// Whether `c` belongs to the run class `r`.
fn in_run_exec(r: &Run, c: char) -> (b: bool)
    ensures
        b == in_run(*r, c),
{
    match r {
        Run::FormFeed => c == '\u{c}',
        Run::Blank => c == ' ' || c == '\t' || c == '\r',
        Run::Digit => '0' <= c && c <= '9',
        Run::Word => ('a' <= c && c <= 'z') || ('A' <= c && c <= 'Z') || ('0' <= c && c <= '9') || c == '_',
    }
}

/// Where the run of class `r` that starts at `i` ends.
fn run_end(chars: &Vec<char>, i: usize, r: Run) -> (j: usize)
    requires
        i <= chars@.len(),
    ensures
        j == i + run_len(chars@, i as int, r),
        j <= chars@.len(),
{
    let mut j = i;
    while j < chars.len() && in_run_exec(&r, chars[j])
        invariant
            i <= j <= chars@.len(),
            run_len(chars@, i as int, r) == (j - i) + run_len(chars@, j as int, r),
        decreases chars@.len() - j,
    {
        j = j + 1;
    }
    j
}

/// The place of the first newline at or after `i`, if any.
fn find_newline(chars: &Vec<char>, i: usize) -> (r: Option<usize>)
    requires
        i <= chars@.len(),
    ensures
        match r {
            Some(j) => newline_from(chars@, i as int) == Some(j as int),
            None => newline_from(chars@, i as int) is None,
        },
{
    let mut j = i;
    while j < chars.len()
        invariant
            i <= j <= chars@.len(),
            newline_from(chars@, i as int) == newline_from(chars@, j as int),
        decreases chars@.len() - j,
    {
        if chars[j] == '\n' {
            return Some(j);
        }
        j = j + 1;
    }
    None
}

/// The characters from `start` to `end` as a string.
fn text_between(chars: &Vec<char>, start: usize, end: usize) -> (r: String)
    requires
        start <= end <= chars@.len(),
    ensures
        r@ == chars@.subrange(start as int, end as int),
{
    let mut s = String::new();
    let mut k = start;
    while k < end
        invariant
            start <= k <= end <= chars@.len(),
            s@ == chars@.subrange(start as int, k as int),
        decreases end - k,
    {
        push_char(&mut s, chars[k]);
        assert(s@ =~= chars@.subrange(start as int, k + 1));
        k = k + 1;
    }
    s
}

/// A token of one character, if `c` is one.
fn single_exec(c: char) -> (r: Option<Token>)
    ensures
        match r {
            Some(t) => single(c) == Some(token_view(t)),
            None => single(c) is None,
        },
{
    if c == '(' {
        Some(Token::ParenL)
    } else if c == ')' {
        Some(Token::ParenR)
    } else if c == '{' {
        Some(Token::BraceL)
    } else if c == '}' {
        Some(Token::BraceR)
    } else if c == '[' {
        Some(Token::BracketL)
    } else if c == ']' {
        Some(Token::BracketR)
    } else if c == ':' {
        Some(Token::Colon)
    } else if c == ',' {
        Some(Token::Comma)
    } else if c == '|' {
        Some(Token::Pipe)
    } else if c == '+' {
        Some(Token::Plus)
    } else if c == '*' {
        Some(Token::Asterisk)
    } else if c == '/' {
        Some(Token::Slash)
    } else if c == '%' {
        Some(Token::Percent)
    } else if c == '\n' {
        Some(Token::NewLine)
    } else {
        None
    }
}

/// The tokens that `c` starts with `=` after it and alone, if any.
fn with_equals_exec(c: char) -> (r: Option<(Token, Token)>)
    ensures
        match r {
            Some((a, b)) => with_equals(c) == Some((token_view(a), token_view(b))),
            None => with_equals(c) is None,
        },
{
    if c == '>' {
        Some((Token::GreaterThanOrEqual, Token::GreaterThan))
    } else if c == '<' {
        Some((Token::LessThanOrEqual, Token::LessThan))
    } else if c == '=' {
        Some((Token::Equal, Token::Equals))
    } else if c == '!' {
        Some((Token::NotEqual, Token::Bang))
    } else {
        None
    }
}

/// The token that a word is: a keyword or a name.
fn word_token(w: String) -> (t: Token)
    ensures
        token_view(t) == (match keyword(w@) {
            Some(k) => k,
            None => TokenV::Identifier(w@),
        }),
{
    if str_eq(w.as_str(), "enum") {
        Token::Enum
    } else if str_eq(w.as_str(), "match") {
        Token::Match
    } else if str_eq(w.as_str(), "if") {
        Token::If
    } else if str_eq(w.as_str(), "then") {
        Token::Then
    } else if str_eq(w.as_str(), "else") {
        Token::Else
    } else if str_eq(w.as_str(), "on") {
        Token::On
    } else if str_eq(w.as_str(), "and") {
        Token::And
    } else {
        Token::Identifier(w)
    }
}

/// What is read at `i`, as `lex_step` says, with the place after it.
fn step_exec(chars: &Vec<char>, i: usize) -> (r: (Option<Result<Token, ()>>, usize))
    requires
        i < chars@.len(),
    ensures
        r.1 == i + 1 + lex_step(chars@, i as int).1,
        r.1 <= chars@.len(),
        match lex_step(chars@, i as int).0 {
            Lexed::Skip => r.0 is None,
            Lexed::Tok(t) => r.0 matches Some(Ok(x)) && token_view(x) == t,
            Lexed::Fail => r.0 matches Some(Err(_)),
        },
{
    let ghost s = chars@;
    let n = chars.len();
    let c = chars[i];
    proof {
        lemma_run_len_bound(s, i + 1, Run::FormFeed);
        lemma_run_len_bound(s, i + 1, Run::Blank);
        lemma_run_len_bound(s, i + 1, Run::Digit);
        lemma_run_len_bound(s, i + 1, Run::Word);
    }
    if in_run_exec(&Run::FormFeed, c) {
        let j = run_end(chars, i + 1, Run::FormFeed);
        return (None, j);
    }
    if in_run_exec(&Run::Blank, c) {
        let j = run_end(chars, i + 1, Run::Blank);
        return (Some(Ok(Token::Whitespace)), j);
    }
    if let Some(t) = single_exec(c) {
        return (Some(Ok(t)), i + 1);
    }
    if let Some((long, short)) = with_equals_exec(c) {
        if i + 1 < n && chars[i + 1] == '=' {
            return (Some(Ok(long)), i + 2);
        } else {
            return (Some(Ok(short)), i + 1);
        }
    }
    if c == '-' {
        if i + 1 < n && chars[i + 1] == '-' {
            if let Some(end) = find_newline(chars, i + 2) {
                proof {
                    lemma_newline_from_bound(s, i + 2);
                }
                let text = text_between(chars, i, end + 1);
                return (Some(Ok(Token::Comment(text))), end + 1);
            }
        }
        if i + 1 < n && chars[i + 1] == '>' {
            return (Some(Ok(Token::Arrow)), i + 2);
        }
        return (Some(Ok(Token::Minus)), i + 1);
    }
    if c == '\'' {
        if i + 1 < n && i + 2 < n && chars[i + 1] != '\'' && chars[i + 2] == '\'' {
            return (Some(Ok(Token::CharLiteral)), i + 3);
        } else if i + 1 < n && chars[i + 1] != '\'' {
            return (Some(Err(())), i + 2);
        } else {
            return (Some(Err(())), i + 1);
        }
    }
    if in_run_exec(&Run::Digit, c) {
        let j = run_end(chars, i + 1, Run::Digit);
        let text = text_between(chars, i, j);
        return (Some(Ok(Token::IntLiteral(text))), j);
    }
    if ('a' <= c && c <= 'z') || ('A' <= c && c <= 'Z') || c == '_' {
        let j = run_end(chars, i + 1, Run::Word);
        let text = text_between(chars, i, j);
        return (Some(Ok(word_token(text))), j);
    }
    (Some(Err(())), i + 1)
}

impl Token {
    /// The tokens of `input`, in order; an error item stands for text that no
    /// token matches.
    pub fn lexer(input: &str) -> (r: Vec<Result<Token, ()>>)
        ensures
            toks_view(r@) == lex(input@),
    {
        let chars = chars_of(input);
        let ghost s = chars@;
        let mut out: Vec<Result<Token, ()>> = Vec::new();
        let mut i: usize = 0;
        while i < chars.len()
            invariant
                s == chars@,
                s == input@,
                i <= s.len(),
                toks_view(out@) + lex_from(s, i as int) == lex(s),
            decreases s.len() - i,
        {
            let (item, next) = step_exec(&chars, i);
            let ghost before = out@;
            match item {
                Some(x) => {
                    out.push(x);
                    assert(toks_view(out@) =~= toks_view(before).push(
                        match x {
                            Ok(t) => Some(token_view(t)),
                            Err(_) => None,
                        },
                    ));
                },
                None => {},
            }
            assert(toks_view(out@) + lex_from(s, next as int) =~= lex(s));
            i = next;
        }
        assert(toks_view(out@) =~= lex(s));
        out
    }
}

} // verus!
