//! The first lexer: turns source text into tokens, and marks function bodies,
//! `do` blocks and `let` blocks with tokens that open and close them.
//!
//! A function is recognised at its `=`: the identifiers just before it (the
//! name, then the parameters) become one `Id` (no parameters) or one `IdList`,
//! preceded by an `OpenBlock(Fn)` placed at the `=`. A newline followed by a
//! letter closes the open blocks up to the innermost function; the end of the
//! input closes every block still open.
use vstd::prelude::*;
use core::ops::Range;
use crate::legacy::token::{BlockType, KeyWord, Span, Spanned, Token, TokenV, keyword_of, tokens_view, id_list_view};
use crate::text::{
    char_is_numeric, chars_of, is_ascii_alphabetic, is_ascii_alphanumeric, is_numeric, push_char,
    spec_is_ascii_alphabetic, spec_is_ascii_alphanumeric, string_of,
};

verus! {

/// The state of the lexer, with token texts as character sequences.
pub struct LexState {
    /// The span of the token being read.
    pub start: usize,
    pub end: usize,
    /// How many characters have been read.
    pub cursor: int,
    /// The depth of each indented line.
    pub indents: Seq<u16>,
    /// The blocks open, innermost last.
    pub blocks: Seq<BlockType>,
    /// The tokens so far.
    pub tokens: Seq<(TokenV, Span)>,
}

pub open spec fn span_of(st: LexState) -> Span {
    Range { start: st.start, end: st.end }
}

/// Reads one character.
pub open spec fn consume(st: LexState) -> LexState {
    LexState { cursor: st.cursor + 1, ..st }
}

/// Widens the current span by one character.
pub open spec fn advance(st: LexState) -> LexState {
    LexState { end: (st.end + 1) as usize, ..st }
}

/// Starts a new span one character wide after the current one.
pub open spec fn new_span(st: LexState) -> LexState {
    LexState { start: st.end, end: (st.end + 1) as usize, ..st }
}

pub open spec fn push_token(st: LexState, t: TokenV) -> LexState {
    LexState { tokens: st.tokens.push((t, span_of(st))), ..st }
}

/// Emits a token over the current span and starts a new span.
pub open spec fn add_token(st: LexState, t: TokenV) -> LexState {
    new_span(push_token(st, t))
}

/// The next character, if any.
pub open spec fn peek(chars: Seq<char>, st: LexState) -> Option<char> {
    if 0 <= st.cursor < chars.len() {
        Some(chars[st.cursor])
    } else {
        None
    }
}

/// Skips the rest of a line comment.
pub open spec fn line_comment(chars: Seq<char>, st: LexState) -> LexState
    decreases chars.len() - st.cursor,
{
    if 0 <= st.cursor < chars.len() && chars[st.cursor] != '\n' {
        line_comment(chars, advance(consume(st)))
    } else {
        new_span(st)
    }
}

/// Skips a block comment: characters are read while they are not `}` and the
/// one read before is not `-`.
pub open spec fn block_comment(chars: Seq<char>, st: LexState, last: char) -> LexState
    decreases chars.len() - st.cursor,
{
    if 0 <= st.cursor < chars.len() && chars[st.cursor] != '}' && last != '-' {
        block_comment(chars, advance(consume(st)), chars[st.cursor])
    } else {
        new_span(st)
    }
}

/// Reads the spaces that indent a line and records their number.
pub open spec fn spaces(chars: Seq<char>, st: LexState, depth: nat) -> LexState
    decreases chars.len() - st.cursor,
{
    if 0 <= st.cursor < chars.len() && chars[st.cursor] == ' ' {
        spaces(chars, advance(consume(st)), depth + 1)
    } else {
        new_span(LexState { indents: st.indents.push(depth as u16), ..st })
    }
}

/// A newline followed by a space: closes an open `let` block, then reads the
/// indentation.
pub open spec fn whitespace(chars: Seq<char>, st: LexState) -> LexState {
    let st1 = if st.blocks.len() > 0 && st.blocks.last() == BlockType::Let {
        LexState {
            tokens: st.tokens.push((TokenV::CloseBlock(BlockType::Let), span_of(st))),
            blocks: st.blocks.drop_last(),
            ..st
        }
    } else {
        st
    };
    spaces(chars, st1, 0)
}

/// A character literal: the character after the quote, then one more
/// character (the closing quote) is skipped.
pub open spec fn character(chars: Seq<char>, st: LexState) -> LexState {
    if 0 <= st.cursor < chars.len() {
        let c = chars[st.cursor];
        let s1 = advance(consume(st));
        let s2 = if s1.cursor < chars.len() {
            consume(s1)
        } else {
            s1
        };
        add_token(advance(s2), TokenV::Char(c))
    } else {
        st
    }
}

/// A number: digits, with at most one `.`; a `.` makes it a float.
pub open spec fn number(chars: Seq<char>, st: LexState, text: Seq<char>) -> LexState
    decreases chars.len() - st.cursor,
{
    if 0 <= st.cursor < chars.len() && (char_is_numeric(chars[st.cursor]) || (chars[st.cursor]
        == '.' && !text.contains('.'))) {
        number(chars, advance(consume(st)), text.push(chars[st.cursor]))
    } else if text.contains('.') {
        add_token(st, TokenV::Float(text))
    } else {
        add_token(st, TokenV::Int(text))
    }
}

/// An identifier or a reserved word; `do` and `let` open a block.
pub open spec fn identifier(chars: Seq<char>, st: LexState, text: Seq<char>) -> LexState
    decreases chars.len() - st.cursor,
{
    if 0 <= st.cursor < chars.len() && spec_is_ascii_alphanumeric(chars[st.cursor]) {
        identifier(chars, advance(consume(st)), text.push(chars[st.cursor]))
    } else {
        match keyword_of(text) {
            Some(KeyWord::Do) => add_token(
                LexState { blocks: st.blocks.push(BlockType::Do), ..st },
                TokenV::OpenBlock(BlockType::Do),
            ),
            Some(KeyWord::Let) => add_token(
                LexState { blocks: st.blocks.push(BlockType::Let), ..st },
                TokenV::OpenBlock(BlockType::Let),
            ),
            Some(k) => add_token(st, TokenV::KeyWord(k)),
            None => add_token(st, TokenV::Id(text)),
        }
    }
}

/// A string literal, up to the closing quote; one more character after it is
/// skipped.
pub open spec fn string(chars: Seq<char>, st: LexState, text: Seq<char>) -> LexState
    decreases chars.len() - st.cursor,
{
    if 0 <= st.cursor < chars.len() {
        let c = chars[st.cursor];
        let s1 = advance(consume(st));
        if c == '"' {
            string_end(chars, s1, text)
        } else {
            string(chars, s1, text.push(c))
        }
    } else {
        string_end(chars, st, text)
    }
}

pub open spec fn string_end(chars: Seq<char>, st: LexState, text: Seq<char>) -> LexState {
    let s1 = push_token(st, TokenV::String(text));
    let s2 = if 0 <= s1.cursor < chars.len() {
        consume(s1)
    } else {
        s1
    };
    new_span(advance(s2))
}

/// How many identifiers end the token sequence.
pub open spec fn trailing_ids(tokens: Seq<(TokenV, Span)>) -> nat
    decreases tokens.len(),
{
    if tokens.len() > 0 && tokens.last().0 is Id {
        trailing_ids(tokens.drop_last()) + 1
    } else {
        0
    }
}

/// The names and spans of some identifier tokens.
pub open spec fn id_names(head: Seq<(TokenV, Span)>) -> Seq<(Seq<char>, Span)> {
    head.map_values(|t: (TokenV, Span)| (t.0->Id_0, t.1))
}

/// A function's head at its `=`: the identifiers that end the tokens become
/// one `Id` or one `IdList`, after an `OpenBlock(Fn)` placed at the `=`.
pub open spec fn open_block(chars: Seq<char>, st: LexState) -> LexState {
    let k = trailing_ids(st.tokens);
    let n = st.tokens.len();
    let rest = st.tokens.subrange(0, n - k);
    let head = st.tokens.subrange(n - k, n as int);
    let head2 = if k >= 2 {
        seq![
            (
                TokenV::IdList(id_names(head)),
                Range { start: head[0].1.start, end: head[k - 1].1.end },
            ),
        ]
    } else {
        head
    };
    let opened = (TokenV::OpenBlock(BlockType::Fn), Range { start: st.start, end: st.start });
    add_token(
        LexState {
            tokens: rest.push(opened) + head2,
            blocks: st.blocks.push(BlockType::Fn),
            ..st
        },
        TokenV::Op("="@),
    )
}

/// Closes the open blocks up to and including the innermost function.
pub open spec fn close_block(st: LexState) -> LexState
    decreases st.blocks.len(),
{
    if st.blocks.len() == 0 {
        st
    } else {
        let b = st.blocks.last();
        let s1 = push_token(LexState { blocks: st.blocks.drop_last(), ..st }, TokenV::CloseBlock(b));
        if b == BlockType::Fn {
            new_span(s1)
        } else {
            close_block(s1)
        }
    }
}

/// The innermost open block, if any.
pub open spec fn top(blocks: Seq<BlockType>) -> Option<BlockType> {
    if blocks.len() > 0 {
        Some(blocks.last())
    } else {
        None
    }
}

/// One step of the lexer: reads a character and whatever belongs with it.
pub open spec fn step(chars: Seq<char>, st: LexState) -> LexState {
    let c = chars[st.cursor];
    let s = consume(st);
    let p = peek(chars, s);
    if c == '{' {
        block_comment(chars, s, '\0')
    } else if c == '-' && p == Some('-') {
        line_comment(chars, s)
    } else if c == '\'' {
        character(chars, s)
    } else if c == '/' {
        add_token(s, TokenV::Op("/"@))
    } else if c == '!' && p == Some('=') {
        add_token(s, TokenV::Op("!="@))
    } else if c == '!' {
        add_token(s, TokenV::Op("!"@))
    } else if c == '<' && p == Some('=') {
        add_token(s, TokenV::Op("<="@))
    } else if c == '<' {
        add_token(s, TokenV::Op("<"@))
    } else if c == '>' && p == Some('=') {
        add_token(s, TokenV::Op(">="@))
    } else if c == '>' {
        add_token(s, TokenV::Op(">"@))
    } else if c == '=' && p == Some('=') {
        add_token(s, TokenV::Op("=="@))
    } else if c == '=' && top(s.blocks) != Some(BlockType::Let) {
        open_block(chars, s)
    } else if c == '=' {
        add_token(s, TokenV::Op("="@))
    } else if c == '+' {
        add_token(s, TokenV::Op("+"@))
    } else if c == '-' && p.is_some() && char_is_numeric(p.unwrap()) {
        number(chars, s, seq![c])
    } else if c == '-' {
        add_token(s, TokenV::Op("-"@))
    } else if c == '*' {
        add_token(s, TokenV::Op("*"@))
    } else if c == '(' {
        add_token(LexState { blocks: s.blocks.push(BlockType::Paren), ..s }, TokenV::Ctrl('('))
    } else if c == ')' {
        let blocks = if s.blocks.len() > 0 {
            s.blocks.drop_last()
        } else {
            s.blocks
        };
        add_token(LexState { blocks, ..s }, TokenV::Ctrl(')'))
    } else if c == '[' || c == ']' || c == ',' || c == '.' || c == ';' {
        add_token(s, TokenV::Ctrl(c))
    } else if c == '"' {
        string(chars, s, Seq::empty())
    } else if c == ' ' {
        new_span(s)
    } else if c == '\n' && p == Some(' ') {
        whitespace(chars, s)
    } else if c == '\n' && spec_is_ascii_alphabetic(
        match p {
            Some(d) => d,
            None => '\0',
        },
    ) {
        close_block(s)
    } else if c == '\n' {
        new_span(s)
    } else if char_is_numeric(c) {
        number(chars, s, seq![c])
    } else if spec_is_ascii_alphabetic(c) {
        identifier(chars, s, seq![c])
    } else {
        add_token(s, TokenV::Error("Unknown Char: "@.push(c)))
    }
}

/// At the end of the input every block still open is closed, innermost first,
/// with an empty span at the current position.
pub open spec fn close_all(st: LexState) -> Seq<(TokenV, Span)> {
    st.tokens + Seq::new(
        st.blocks.len(),
        |i: int|
            (
                TokenV::CloseBlock(st.blocks[st.blocks.len() - 1 - i]),
                Range { start: st.start, end: st.start },
            ),
    )
}

/// Runs the lexer to the end of the input.
pub open spec fn run(chars: Seq<char>, st: LexState) -> LexState
    decreases chars.len() - st.cursor,
    when 0 <= st.cursor
    via run_decreases
{
    if st.cursor < chars.len() {
        run(chars, step(chars, st))
    } else {
        st
    }
}

#[via_fn]
proof fn run_decreases(chars: Seq<char>, st: LexState) {
    if st.cursor < chars.len() {
        lemma_step_progress(chars, st);
    }
}

/// The state the lexer starts in.
pub open spec fn initial() -> LexState {
    LexState {
        start: 0,
        end: 1,
        cursor: 0,
        indents: Seq::empty(),
        blocks: Seq::empty(),
        tokens: Seq::empty(),
    }
}

/// The tokens of a source text.
pub open spec fn lex(src: Seq<char>) -> Seq<(TokenV, Span)> {
    close_all(run(src, initial()))
}

// ---- every step reads at least one character, and never past the end ----

proof fn lemma_line_comment_progress(chars: Seq<char>, st: LexState)
    requires
        0 <= st.cursor <= chars.len(),
    ensures
        st.cursor <= line_comment(chars, st).cursor <= chars.len(),
    decreases chars.len() - st.cursor,
{
    if 0 <= st.cursor < chars.len() && chars[st.cursor] != '\n' {
        lemma_line_comment_progress(chars, advance(consume(st)));
    }
}

proof fn lemma_block_comment_progress(chars: Seq<char>, st: LexState, last: char)
    requires
        0 <= st.cursor <= chars.len(),
    ensures
        st.cursor <= block_comment(chars, st, last).cursor <= chars.len(),
    decreases chars.len() - st.cursor,
{
    if 0 <= st.cursor < chars.len() && chars[st.cursor] != '}' && last != '-' {
        lemma_block_comment_progress(chars, advance(consume(st)), chars[st.cursor]);
    }
}

proof fn lemma_spaces_progress(chars: Seq<char>, st: LexState, depth: nat)
    requires
        0 <= st.cursor <= chars.len(),
    ensures
        st.cursor <= spaces(chars, st, depth).cursor <= chars.len(),
    decreases chars.len() - st.cursor,
{
    if 0 <= st.cursor < chars.len() && chars[st.cursor] == ' ' {
        lemma_spaces_progress(chars, advance(consume(st)), depth + 1);
    }
}

proof fn lemma_number_progress(chars: Seq<char>, st: LexState, text: Seq<char>)
    requires
        0 <= st.cursor <= chars.len(),
    ensures
        st.cursor <= number(chars, st, text).cursor <= chars.len(),
    decreases chars.len() - st.cursor,
{
    if 0 <= st.cursor < chars.len() && (char_is_numeric(chars[st.cursor]) || (chars[st.cursor]
        == '.' && !text.contains('.'))) {
        lemma_number_progress(chars, advance(consume(st)), text.push(chars[st.cursor]));
    }
}

proof fn lemma_identifier_progress(chars: Seq<char>, st: LexState, text: Seq<char>)
    requires
        0 <= st.cursor <= chars.len(),
    ensures
        st.cursor <= identifier(chars, st, text).cursor <= chars.len(),
    decreases chars.len() - st.cursor,
{
    if 0 <= st.cursor < chars.len() && spec_is_ascii_alphanumeric(chars[st.cursor]) {
        lemma_identifier_progress(chars, advance(consume(st)), text.push(chars[st.cursor]));
    }
}

proof fn lemma_string_progress(chars: Seq<char>, st: LexState, text: Seq<char>)
    requires
        0 <= st.cursor <= chars.len(),
    ensures
        st.cursor <= string(chars, st, text).cursor <= chars.len(),
    decreases chars.len() - st.cursor,
{
    if 0 <= st.cursor < chars.len() {
        let c = chars[st.cursor];
        if c != '"' {
            lemma_string_progress(chars, advance(consume(st)), text.push(c));
        }
    }
}

proof fn lemma_close_block_progress(st: LexState)
    ensures
        close_block(st).cursor == st.cursor,
    decreases st.blocks.len(),
{
    if st.blocks.len() > 0 {
        let b = st.blocks.last();
        let s1 = push_token(LexState { blocks: st.blocks.drop_last(), ..st }, TokenV::CloseBlock(b));
        if b != BlockType::Fn {
            lemma_close_block_progress(s1);
        }
    }
}

/// A step reads at least one character and stops at the end of the input.
pub proof fn lemma_step_progress(chars: Seq<char>, st: LexState)
    requires
        0 <= st.cursor < chars.len(),
    ensures
        st.cursor < step(chars, st).cursor <= chars.len(),
{
    let s = consume(st);
    lemma_line_comment_progress(chars, s);
    lemma_block_comment_progress(chars, s, '\0');
    lemma_spaces_progress(chars, s, 0);
    let st1 = if s.blocks.len() > 0 && s.blocks.last() == BlockType::Let {
        LexState {
            tokens: s.tokens.push((TokenV::CloseBlock(BlockType::Let), span_of(s))),
            blocks: s.blocks.drop_last(),
            ..s
        }
    } else {
        s
    };
    lemma_spaces_progress(chars, st1, 0);
    lemma_number_progress(chars, s, seq![chars[st.cursor]]);
    lemma_identifier_progress(chars, s, seq![chars[st.cursor]]);
    lemma_string_progress(chars, s, Seq::empty());
    lemma_close_block_progress(s);
}

// ---- the lexer ----

/// The lexer: the source, the place reached, the blocks open and the tokens
/// so far.
pub struct Lexer {
    pos: Span,
    chars: Vec<char>,
    cursor: usize,
    indent_stack: Vec<u16>,
    block_stack: Vec<BlockType>,
    pub tokens: Vec<Spanned<Token>>,
}

pub proof fn lemma_tokens_view_push(s: Seq<Spanned<Token>>, x: Spanned<Token>)
    ensures
        tokens_view(s.push(x)) == tokens_view(s).push((x.0@, x.1)),
{
    assert(tokens_view(s.push(x)) =~= tokens_view(s).push((x.0@, x.1)));
}

impl Lexer {
    /// The source being read.
    pub closed spec fn source(&self) -> Seq<char> {
        self.chars@
    }

    /// The state of this lexer.
    pub closed spec fn state(&self) -> LexState {
        LexState {
            start: self.pos.start,
            end: self.pos.end,
            cursor: self.cursor as int,
            indents: self.indent_stack@,
            blocks: self.block_stack@,
            tokens: tokens_view(self.tokens@),
        }
    }

    /// The place reached lies within the source, and the positions can grow
    /// past the end of the source without overflow.
    pub closed spec fn bounds(&self) -> bool {
        &&& self.cursor <= self.chars@.len()
        &&& self.chars@.len() + 3 <= usize::MAX
        &&& self.pos.start <= self.pos.end
    }

    /// The current span ends no further than one past the place reached (two
    /// at the end of the source).
    pub closed spec fn settled(&self) -> bool {
        self.pos.end <= self.cursor + 1 || (self.cursor == self.chars@.len() && self.pos.end
            <= self.cursor + 2)
    }

    /// A lexer at the start of `src`.
    pub fn new(src: &str) -> (r: Self)
        requires
            src@.len() + 3 <= usize::MAX,
        ensures
            r.source() == src@,
            r.state() == initial(),
            r.bounds(),
            r.settled(),
    {
        let r = Self {
            pos: Range { start: 0, end: 1 },
            chars: chars_of(src),
            cursor: 0,
            indent_stack: Vec::new(),
            block_stack: Vec::new(),
            tokens: Vec::new(),
        };
        assert(r.state().tokens =~= Seq::<(TokenV, Span)>::empty());
        r
    }

    /// Reads the whole source; the tokens read are in `tokens`.
    pub fn parse(self) -> (r: Self)
        requires
            self.bounds(),
            self.settled(),
        ensures
            r.state().tokens == close_all(run(self.source(), self.state())),
    {
        let mut s = self;
        let ghost chars = s.chars@;
        let ghost s0 = s.state();
        while s.cursor < s.chars.len()
            invariant
                s.bounds(),
                s.settled(),
                s.chars@ == chars,
                run(chars, s.state()) == run(chars, s0),
            decreases chars.len() - s.cursor,
        {
            proof {
                lemma_step_progress(chars, s.state());
            }
            s.step();
        }
        let ghost done = s.state();
        let ghost before = s.tokens@;
        let n = s.block_stack.len();
        let mut i: usize = 0;
        while i < n
            invariant
                n == done.blocks.len(),
                i <= n,
                s.state().start == done.start,
                s.block_stack@ == done.blocks,
                tokens_view(s.tokens@) == done.tokens + Seq::new(
                    i as nat,
                    |j: int|
                        (
                            TokenV::CloseBlock(done.blocks[done.blocks.len() - 1 - j]),
                            Range { start: done.start, end: done.start },
                        ),
                ),
            decreases n - i,
        {
            let block = s.block_stack[n - 1 - i];
            let ghost prev = s.tokens@;
            s.tokens.push((Token::CloseBlock(block), Range { start: s.pos.start, end: s.pos.start }));
            proof {
                lemma_tokens_view_push(prev, (Token::CloseBlock(block), Range { start: s.pos.start, end: s.pos.start }));
            }
            i = i + 1;
            assert(tokens_view(s.tokens@) =~= done.tokens + Seq::new(
                i as nat,
                |j: int|
                    (
                        TokenV::CloseBlock(done.blocks[done.blocks.len() - 1 - j]),
                        Range { start: done.start, end: done.start },
                    ),
            ));
        }
        assert(tokens_view(s.tokens@) =~= close_all(done));
        s
    }

    /// Reads one character and whatever belongs with it.
    fn step(&mut self)
        requires
            old(self).bounds(),
            old(self).settled(),
            old(self).cursor < old(self).chars@.len(),
        ensures
            final(self).bounds(),
            final(self).settled(),
            final(self).chars@ == old(self).chars@,
            final(self).state() == step(old(self).chars@, old(self).state()),
    {
        let c = self.chars[self.cursor];
        self.cursor = self.cursor + 1;
        let p = self.peek();
        if c == '{' {
            self.block_comment()
        } else if c == '-' && p == Some('-') {
            self.line_comment()
        } else if c == '\'' {
            self.character()
        } else if c == '/' {
            self.add_token(Token::Op(string_of("/")))
        } else if c == '!' && p == Some('=') {
            self.add_token(Token::Op(string_of("!=")))
        } else if c == '!' {
            self.add_token(Token::Op(string_of("!")))
        } else if c == '<' && p == Some('=') {
            self.add_token(Token::Op(string_of("<=")))
        } else if c == '<' {
            self.add_token(Token::Op(string_of("<")))
        } else if c == '>' && p == Some('=') {
            self.add_token(Token::Op(string_of(">=")))
        } else if c == '>' {
            self.add_token(Token::Op(string_of(">")))
        } else if c == '=' && p == Some('=') {
            self.add_token(Token::Op(string_of("==")))
        } else if c == '=' && self.top() != Some(BlockType::Let) {
            self.open_block()
        } else if c == '=' {
            self.add_token(Token::Op(string_of("=")))
        } else if c == '+' {
            self.add_token(Token::Op(string_of("+")))
        } else if c == '-' && (match p {
            Some(d) => is_numeric(d),
            None => false,
        }) {
            self.number(c)
        } else if c == '-' {
            self.add_token(Token::Op(string_of("-")))
        } else if c == '*' {
            self.add_token(Token::Op(string_of("*")))
        } else if c == '(' {
            self.block_stack.push(BlockType::Paren);
            self.add_token(Token::Ctrl('('));
        } else if c == ')' {
            self.block_stack.pop();
            self.add_token(Token::Ctrl(')'));
        } else if c == '[' || c == ']' || c == ',' || c == '.' || c == ';' {
            self.add_token(Token::Ctrl(c))
        } else if c == '"' {
            self.string()
        } else if c == ' ' {
            self.new_span()
        } else if c == '\n' && p == Some(' ') {
            self.whitespace()
        } else if c == '\n' && is_ascii_alphabetic(
            match p {
                Some(d) => d,
                None => '\0',
            },
        ) {
            self.close_block()
        } else if c == '\n' {
            self.new_span()
        } else if is_numeric(c) {
            self.number(c)
        } else if is_ascii_alphabetic(c) {
            self.identifier(c)
        } else {
            self.error(c)
        }
    }

    /// The next character, if any, without reading it.
    fn peek(&self) -> (r: Option<char>)
        ensures
            r == peek(self.chars@, self.state()),
    {
        if self.cursor < self.chars.len() {
            Some(self.chars[self.cursor])
        } else {
            None
        }
    }

    /// The innermost open block, if any.
    fn top(&self) -> (r: Option<BlockType>)
        ensures
            r == top(self.block_stack@),
    {
        if self.block_stack.len() > 0 {
            Some(self.block_stack[self.block_stack.len() - 1])
        } else {
            None
        }
    }

    fn advance(&mut self)
        requires
            old(self).pos.end + 1 <= usize::MAX,
        ensures
            final(self).state() == advance(old(self).state()),
            final(self).chars@ == old(self).chars@,
    {
        self.pos.end = self.pos.end + 1;
    }

    fn new_span(&mut self)
        requires
            old(self).pos.end + 1 <= usize::MAX,
        ensures
            final(self).state() == new_span(old(self).state()),
            final(self).chars@ == old(self).chars@,
    {
        self.pos.start = self.pos.end;
        self.advance();
    }

    fn push_token(&mut self, token: Token)
        ensures
            final(self).state() == push_token(old(self).state(), token@),
            final(self).chars@ == old(self).chars@,
            final(self).pos == old(self).pos,
            final(self).cursor == old(self).cursor,
    {
        let ghost prev = self.tokens@;
        let span = Range { start: self.pos.start, end: self.pos.end };
        self.tokens.push((token, span));
        proof {
            lemma_tokens_view_push(prev, (token, span));
        }
    }

    fn add_token(&mut self, token: Token)
        requires
            old(self).pos.end + 1 <= usize::MAX,
        ensures
            final(self).state() == add_token(old(self).state(), token@),
            final(self).chars@ == old(self).chars@,
    {
        self.push_token(token);
        self.new_span();
    }

    fn error(&mut self, c: char)
        requires
            old(self).pos.end + 1 <= usize::MAX,
        ensures
            final(self).state() == add_token(old(self).state(), TokenV::Error("Unknown Char: "@.push(c))),
            final(self).chars@ == old(self).chars@,
    {
        let mut msg = string_of("Unknown Char: ");
        push_char(&mut msg, c);
        self.add_token(Token::Error(msg));
    }

    fn line_comment(&mut self)
        requires
            old(self).bounds(),
            old(self).pos.end <= old(self).cursor,
        ensures
            final(self).bounds(),
            final(self).settled(),
            final(self).chars@ == old(self).chars@,
            final(self).state() == line_comment(old(self).chars@, old(self).state()),
    {
        let ghost chars = self.chars@;
        let ghost s0 = self.state();
        while self.cursor < self.chars.len() && self.chars[self.cursor] != '\n'
            invariant
                self.bounds(),
                self.pos.end <= self.cursor,
                self.chars@ == chars,
                line_comment(chars, self.state()) == line_comment(chars, s0),
            decreases chars.len() - self.cursor,
        {
            self.cursor = self.cursor + 1;
            self.advance();
        }
        self.new_span();
    }

    fn block_comment(&mut self)
        requires
            old(self).bounds(),
            old(self).pos.end <= old(self).cursor,
        ensures
            final(self).bounds(),
            final(self).settled(),
            final(self).chars@ == old(self).chars@,
            final(self).state() == block_comment(old(self).chars@, old(self).state(), '\0'),
    {
        let ghost chars = self.chars@;
        let ghost s0 = self.state();
        let mut last = '\0';
        while self.cursor < self.chars.len() && self.chars[self.cursor] != '}' && last != '-'
            invariant
                self.bounds(),
                self.pos.end <= self.cursor,
                self.chars@ == chars,
                block_comment(chars, self.state(), last) == block_comment(chars, s0, '\0'),
            decreases chars.len() - self.cursor,
        {
            last = self.chars[self.cursor];
            self.cursor = self.cursor + 1;
            self.advance();
        }
        self.new_span();
    }

    fn whitespace(&mut self)
        requires
            old(self).bounds(),
            old(self).pos.end <= old(self).cursor,
        ensures
            final(self).bounds(),
            final(self).settled(),
            final(self).chars@ == old(self).chars@,
            final(self).state() == whitespace(old(self).chars@, old(self).state()),
    {
        let ghost chars = self.chars@;
        if self.top() == Some(BlockType::Let) {
            self.push_token(Token::CloseBlock(BlockType::Let));
            let _ = self.block_stack.pop();
        }
        let ghost s1 = self.state();
        assert(whitespace(chars, old(self).state()) == spaces(chars, s1, 0));
        let mut indent_depth: usize = 0;
        while self.cursor < self.chars.len() && self.chars[self.cursor] == ' '
            invariant
                self.bounds(),
                self.pos.end <= self.cursor,
                self.chars@ == chars,
                indent_depth <= self.cursor,
                spaces(chars, self.state(), indent_depth as nat) == spaces(chars, s1, 0),
            decreases chars.len() - self.cursor,
        {
            indent_depth = indent_depth + 1;
            self.cursor = self.cursor + 1;
            self.advance();
        }
        self.indent_stack.push(indent_depth as u16);
        self.new_span();
    }

    fn character(&mut self)
        requires
            old(self).bounds(),
            old(self).pos.end <= old(self).cursor,
        ensures
            final(self).bounds(),
            final(self).settled(),
            final(self).chars@ == old(self).chars@,
            final(self).state() == character(old(self).chars@, old(self).state()),
    {
        if self.cursor < self.chars.len() {
            let c = self.chars[self.cursor];
            self.cursor = self.cursor + 1;
            self.advance();
            if self.cursor < self.chars.len() {
                self.cursor = self.cursor + 1;
            }
            self.advance();
            self.add_token(Token::Char(c));
        }
    }

    fn number(&mut self, c: char)
        requires
            old(self).bounds(),
            old(self).pos.end <= old(self).cursor,
        ensures
            final(self).bounds(),
            final(self).settled(),
            final(self).chars@ == old(self).chars@,
            final(self).state() == number(old(self).chars@, old(self).state(), seq![c]),
    {
        let ghost chars = self.chars@;
        let ghost s0 = self.state();
        let mut digits = String::new();
        push_char(&mut digits, c);
        let mut has_dot = c == '.';
        proof {
            assert(digits@ =~= seq![c]);
            if has_dot {
                assert(digits@[0] == '.');
            }
        }
        while self.cursor < self.chars.len() && (is_numeric(self.chars[self.cursor]) || (
        self.chars[self.cursor] == '.' && !has_dot))
            invariant
                self.bounds(),
                self.pos.end <= self.cursor,
                self.chars@ == chars,
                has_dot == digits@.contains('.'),
                number(chars, self.state(), digits@) == number(chars, s0, seq![c]),
            decreases chars.len() - self.cursor,
        {
            let d = self.chars[self.cursor];
            let ghost before = digits@;
            push_char(&mut digits, d);
            proof {
                lemma_push_contains(before, d, '.');
            }
            has_dot = has_dot || d == '.';
            self.cursor = self.cursor + 1;
            self.advance();
        }
        let token = if has_dot {
            Token::Float(digits)
        } else {
            Token::Int(digits)
        };
        self.add_token(token);
    }

    fn identifier(&mut self, c: char)
        requires
            old(self).bounds(),
            old(self).pos.end <= old(self).cursor,
        ensures
            final(self).bounds(),
            final(self).settled(),
            final(self).chars@ == old(self).chars@,
            final(self).state() == identifier(old(self).chars@, old(self).state(), seq![c]),
    {
        let ghost chars = self.chars@;
        let ghost s0 = self.state();
        let mut idt = String::new();
        push_char(&mut idt, c);
        assert(idt@ =~= seq![c]);
        while self.cursor < self.chars.len() && is_ascii_alphanumeric(self.chars[self.cursor])
            invariant
                self.bounds(),
                self.pos.end <= self.cursor,
                self.chars@ == chars,
                identifier(chars, self.state(), idt@) == identifier(chars, s0, seq![c]),
            decreases chars.len() - self.cursor,
        {
            let d = self.chars[self.cursor];
            push_char(&mut idt, d);
            self.cursor = self.cursor + 1;
            self.advance();
        }
        let token = match KeyWord::lookup(idt.as_str()) {
            Some(KeyWord::Do) => {
                self.block_stack.push(BlockType::Do);
                Token::OpenBlock(BlockType::Do)
            },
            Some(KeyWord::Let) => {
                self.block_stack.push(BlockType::Let);
                Token::OpenBlock(BlockType::Let)
            },
            Some(k) => Token::KeyWord(k),
            None => Token::Id(idt),
        };
        self.add_token(token);
    }

    fn string(&mut self)
        requires
            old(self).bounds(),
            old(self).pos.end <= old(self).cursor,
        ensures
            final(self).bounds(),
            final(self).settled(),
            final(self).chars@ == old(self).chars@,
            final(self).state() == string(old(self).chars@, old(self).state(), Seq::empty()),
    {
        let ghost chars = self.chars@;
        let ghost s0 = self.state();
        let mut text = String::new();
        loop
            invariant_except_break
                self.bounds(),
                self.pos.end <= self.cursor,
                self.chars@ == chars,
                string(chars, self.state(), text@) == string(chars, s0, Seq::empty()),
            ensures
                self.bounds(),
                self.pos.end <= self.cursor,
                self.chars@ == chars,
                string_end(chars, self.state(), text@) == string(chars, s0, Seq::empty()),
            decreases chars.len() - self.cursor,
        {
            if self.cursor < self.chars.len() {
                let c = self.chars[self.cursor];
                self.cursor = self.cursor + 1;
                self.advance();
                if c == '"' {
                    break;
                }
                push_char(&mut text, c);
            } else {
                break;
            }
        }
        self.push_token(Token::String(text));
        if self.cursor < self.chars.len() {
            self.cursor = self.cursor + 1;
        }
        self.advance();
        self.new_span();
    }

    fn open_block(&mut self)
        requires
            old(self).bounds(),
            old(self).pos.end <= old(self).cursor,
        ensures
            final(self).bounds(),
            final(self).settled(),
            final(self).chars@ == old(self).chars@,
            final(self).state() == open_block(old(self).chars@, old(self).state()),
    {
        let ghost tv = tokens_view(self.tokens@);
        let n = self.tokens.len();
        let mut k: usize = 0;
        while k < n && is_id_token(&self.tokens[n - 1 - k].0)
            invariant
                n == self.tokens@.len(),
                tv == tokens_view(self.tokens@),
                k <= n,
                forall|j: int| n - k <= j < n ==> #[trigger] tv[j].0 is Id,
            decreases n - k,
        {
            k = k + 1;
        }
        proof {
            lemma_trailing_ids(tv, k as nat);
        }
        let head = self.tokens.split_off(n - k);
        let ghost hv = tokens_view(head@);
        assert(hv =~= tv.subrange(n - k, n as int));
        assert(tokens_view(self.tokens@) =~= tv.subrange(0, n - k));
        let ghost rest = self.tokens@;
        self.tokens.push((Token::OpenBlock(BlockType::Fn), Range { start: self.pos.start, end: self.pos.start }));
        proof {
            lemma_tokens_view_push(rest, (Token::OpenBlock(BlockType::Fn), Range { start: self.pos.start, end: self.pos.start }));
        }
        let ghost opened = self.tokens@;
        if k >= 2 {
            let mut list: Vec<(String, Span)> = Vec::new();
            let mut i: usize = 0;
            while i < head.len()
                invariant
                    head@.len() == k,
                    hv == tokens_view(head@),
                    forall|j: int| 0 <= j < k ==> #[trigger] hv[j].0 is Id,
                    i <= k,
                    id_list_view(list@) == id_names(hv.subrange(0, i as int)),
                decreases k - i,
            {
                let ghost prev = list@;
                assert(hv[i as int] == (head@[i as int].0@, head@[i as int].1));
                match &head[i].0 {
                    Token::Id(name) => {
                        let entry = (name.clone(), Range { start: head[i].1.start, end: head[i].1.end });
                        list.push(entry);
                        assert(id_list_view(list@) =~= id_list_view(prev).push((name@, head@[i as int].1)));
                    },
                    _ => {
                        assert(hv[i as int].0 is Id);
                    },
                }
                assert(id_names(hv.subrange(0, i + 1)) =~= id_names(hv.subrange(0, i as int)).push((hv[i as int].0->Id_0, hv[i as int].1)));
                assert(id_list_view(list@) =~= id_names(hv.subrange(0, i + 1)));
                i = i + 1;
            }
            assert(hv.subrange(0, k as int) =~= hv);
            let span = Range { start: head[0].1.start, end: head[k - 1].1.end };
            let ghost before = self.tokens@;
            self.tokens.push((Token::IdList(list), span));
            proof {
                lemma_tokens_view_push(before, (Token::IdList(list), span));
            }
        } else {
            let mut head = head;
            let ghost before = self.tokens@;
            self.tokens.append(&mut head);
            assert(tokens_view(self.tokens@) =~= tokens_view(before) + hv);
        }
        self.block_stack.push(BlockType::Fn);
        assert(tokens_view(self.tokens@) =~= open_block(old(self).chars@, old(self).state()).tokens.drop_last());
        self.add_token(Token::Op(string_of("=")));
        assert(self.state().tokens =~= open_block(old(self).chars@, old(self).state()).tokens);
    }

    fn close_block(&mut self)
        requires
            old(self).bounds(),
            old(self).pos.end <= old(self).cursor,
        ensures
            final(self).bounds(),
            final(self).settled(),
            final(self).chars@ == old(self).chars@,
            final(self).state() == close_block(old(self).state()),
        decreases old(self).block_stack@.len(),
    {
        match self.block_stack.pop() {
            Some(BlockType::Fn) => {
                self.push_token(Token::CloseBlock(BlockType::Fn));
                self.new_span();
            },
            Some(block) => {
                self.push_token(Token::CloseBlock(block));
                self.close_block();
            },
            None => {},
        }
    }
}

/// Whether a token is an identifier.
fn is_id_token(t: &Token) -> (r: bool)
    ensures
        r == (t@ is Id),
{
    match t {
        Token::Id(_) => true,
        _ => false,
    }
}

/// A sequence that holds `x` after a push holds it before or is the pushed
/// element.
pub proof fn lemma_push_contains(s: Seq<char>, c: char, x: char)
    ensures
        s.push(c).contains(x) == (s.contains(x) || c == x),
{
    if s.contains(x) {
        let i = choose|i: int| 0 <= i < s.len() && s[i] == x;
        assert(s.push(c)[i] == x);
    }
    if c == x {
        assert(s.push(c)[s.len() as int] == x);
    }
    if s.push(c).contains(x) {
        let i = choose|i: int| 0 <= i < s.push(c).len() && s.push(c)[i] == x;
        if i < s.len() {
            assert(s[i] == x);
        }
    }
}

/// The count of trailing identifiers, found by scanning back from the end.
proof fn lemma_trailing_ids(tv: Seq<(TokenV, Span)>, k: nat)
    requires
        k <= tv.len(),
        forall|j: int| tv.len() - k <= j < tv.len() ==> #[trigger] tv[j].0 is Id,
        k == tv.len() || !(tv[tv.len() - 1 - k].0 is Id),
    ensures
        trailing_ids(tv) == k,
    decreases k,
{
    if k > 0 {
        let init = tv.drop_last();
        assert forall|j: int| init.len() - (k - 1) <= j < init.len() implies #[trigger] init[j].0 is Id by {
            assert(init[j] == tv[j]);
        }
        if k - 1 < init.len() {
            assert(init[init.len() - 1 - (k - 1)] == tv[tv.len() - 1 - k]);
        }
        lemma_trailing_ids(init, (k - 1) as nat);
    }
}

} // verus!
