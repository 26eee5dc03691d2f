//! Source positions: characters with their place in a file, and spans.
use vstd::prelude::*;
use crate::text::{push_char, push_decimal, decimal};
use vstd::string::StringExecFns;

verus! {

/// A character of the source together with where it stands.
#[derive(Debug, Default)]
pub struct CharPos {
    pub chr: char,
    pub idx: usize,
    pub col: usize,
    pub row: usize,
    pub loc: String,
}

impl Clone for CharPos {
    fn clone(&self) -> (r: Self)
        ensures
            r == *self,
    {
        CharPos { chr: self.chr, idx: self.idx, col: self.col, row: self.row, loc: self.loc.clone() }
    }
}

/// A place in a source file.
#[derive(Debug, PartialEq, Default)]
pub struct Pos {
    pub idx: usize,
    pub col: usize,
    pub row: usize,
}

impl Clone for Pos {
    fn clone(&self) -> (r: Self)
        ensures
            r == *self,
    {
        Pos { idx: self.idx, col: self.col, row: self.row }
    }
}

impl Pos {
    pub fn new(idx: usize, col: usize, row: usize) -> (r: Self)
        ensures
            r == (Pos { idx, col, row }),
    {
        Self { idx, col, row }
    }

    /// The place of a source character.
    pub fn from_char_pos(char_pos: &CharPos) -> (r: Self)
        ensures
            r == (Pos { idx: char_pos.idx, col: char_pos.col, row: char_pos.row }),
    {
        Self { idx: char_pos.idx, col: char_pos.col, row: char_pos.row }
    }

    /// The text of this place: `col:row`.
    pub open spec fn spec_text(&self) -> Seq<char> {
        decimal(self.col as nat) + seq![':'] + decimal(self.row as nat)
    }

    /// Writes this place as `col:row`.
    pub fn to_text(&self) -> (r: String)
        ensures
            r@ == self.spec_text(),
    {
        let mut s = String::new();
        push_decimal(&mut s, self.col);
        push_char(&mut s, ':');
        push_decimal(&mut s, self.row);
        assert(s@ =~= self.spec_text());
        s
    }
}

/// A stretch of source text in a file.
#[derive(Debug, PartialEq, Default)]
pub struct Span {
    pub start: Pos,
    pub end: Pos,
    pub loc: String,
}

impl Clone for Span {
    fn clone(&self) -> (r: Self)
        ensures
            r == *self,
    {
        Span { start: self.start.clone(), end: self.end.clone(), loc: self.loc.clone() }
    }
}

impl Span {
    pub fn new(start: Pos, end: Pos, loc: &str) -> (r: Self)
        ensures
            r.start == start,
            r.end == end,
            r@ == loc@,
    {
        Self { start, end, loc: loc.to_owned() }
    }

    /// The file that this span lies in.
    pub open spec fn view(&self) -> Seq<char> {
        self.loc@
    }

    /// The span from the start of `first` to the end of `last`, in the file of
    /// `first`.
    pub fn join(first: Span, last: Span) -> (r: Self)
        ensures
            r.start == first.start,
            r.end == last.end,
            r.loc@ == first.loc@,
    {
        Self { start: first.start, end: last.end, loc: first.loc }
    }

    /// The span from one source character to another, in the file of the
    /// first.
    pub fn from_chars(start: &CharPos, end: &CharPos) -> (r: Self)
        ensures
            r.start == (Pos { idx: start.idx, col: start.col, row: start.row }),
            r.end == (Pos { idx: end.idx, col: end.col, row: end.row }),
            r.loc@ == start.loc@,
    {
        Self { start: Pos::from_char_pos(start), end: Pos::from_char_pos(end), loc: start.loc.clone() }
    }

    /// The text of this span: `file:start..end`.
    pub open spec fn spec_text(&self) -> Seq<char> {
        self.loc@ + seq![':'] + self.start.spec_text() + seq!['.', '.'] + self.end.spec_text()
    }

    /// Writes this span as `file:start..end`.
    pub fn to_text(&self) -> (r: String)
        ensures
            r@ == self.spec_text(),
    {
        let mut s = self.loc.clone();
        push_char(&mut s, ':');
        let a = self.start.to_text();
        s.append(a.as_str());
        push_char(&mut s, '.');
        push_char(&mut s, '.');
        let b = self.end.to_text();
        s.append(b.as_str());
        assert(s@ =~= self.spec_text());
        s
    }
}

/// A value together with the span of source it came from.
#[derive(Debug, Clone, PartialEq)]
pub struct Spanned<T> {
    pub node: T,
    pub span: Span,
}

impl<T> Spanned<T> {
    pub fn new(node: T, span: Span) -> (r: Self)
        ensures
            r.node == node,
            r.span == span,
    {
        Self { node, span }
    }

    /// The span of source this value came from.
    pub fn span(&self) -> (r: Span)
        ensures
            r == self.span,
    {
        self.span.clone()
    }
}

} // verus!
