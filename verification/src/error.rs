//! Errors of the compiler, with their kind and the span they point at.
use vstd::prelude::*;
use crate::position::Span;
use crate::text::push_char;
use vstd::string::StringExecFns;

verus! {

/// Several errors gathered together.
#[derive(Debug, Default)]
pub struct MulitError {
    pub errors: Vec<Error>,
}

impl MulitError {
    pub fn push(&mut self, error: Error)
        ensures
            final(self).errors@ == old(self).errors@.push(error),
    {
        self.errors.push(error);
    }

    pub fn is_empty(&self) -> (r: bool)
        ensures
            r == (self.errors@.len() == 0),
    {
        self.errors.is_empty()
    }

    /// The text of all the errors, one per line.
    pub open spec fn spec_text(&self) -> Seq<char> {
        errors_text(self.errors@)
    }

    /// Writes every error followed by a newline.
    pub fn to_text(&self) -> (r: String)
        ensures
            r@ == self.spec_text(),
    {
        let mut s = String::new();
        let mut i: usize = 0;
        while i < self.errors.len()
            invariant
                i <= self.errors@.len(),
                s@ == errors_text(self.errors@.subrange(0, i as int)),
            decreases self.errors@.len() - i,
        {
            let t = self.errors[i].to_text();
            s.append(t.as_str());
            push_char(&mut s, '\n');
            assert(self.errors@.subrange(0, i + 1).drop_last() =~= self.errors@.subrange(0, i as int));
            i = i + 1;
        }
        assert(self.errors@.subrange(0, i as int) =~= self.errors@);
        s
    }
}

/// The text of some errors, each followed by a newline.
pub open spec fn errors_text(s: Seq<Error>) -> Seq<char>
    decreases s.len(),
{
    if s.len() == 0 {
        Seq::empty()
    } else {
        errors_text(s.drop_last()) + s.last().spec_text() + seq!['\n']
    }
}

/// One error: a message, its kind and where it was found.
#[derive(Debug)]
pub struct Error {
    msg: String,
    kind: ErrorKind,
    span: Span,
}

impl Clone for Error {
    fn clone(&self) -> (r: Self)
        ensures
            r == *self,
    {
        Error { msg: self.msg.clone(), kind: self.kind, span: self.span.clone() }
    }
}

impl Error {
    pub fn new(msg: &str, span: Span, kind: ErrorKind) -> (r: Self)
        ensures
            r.msg() == msg@,
            r.spec_kind() == kind,
            r.spec_span() == span,
    {
        Self { msg: msg.to_owned(), kind, span }
    }

    /// The message of this error.
    pub closed spec fn msg(&self) -> Seq<char> {
        self.msg@
    }

    /// The kind of this error.
    pub closed spec fn spec_kind(&self) -> ErrorKind {
        self.kind
    }

    /// Where this error was found.
    pub closed spec fn spec_span(&self) -> Span {
        self.span
    }

    pub fn kind(&self) -> (r: ErrorKind)
        ensures
            r == self.spec_kind(),
    {
        self.kind
    }

    pub fn span(&self) -> (r: Span)
        ensures
            r == self.spec_span(),
    {
        self.span.clone()
    }

    /// The text of this error: `span kind: message`.
    pub open spec fn spec_text(&self) -> Seq<char> {
        self.spec_span().spec_text() + seq![' '] + self.spec_kind().spec_name() + seq![':', ' ']
            + self.msg()
    }

    /// Writes this error as `span kind: message`.
    pub fn to_text(&self) -> (r: String)
        ensures
            r@ == self.spec_text(),
    {
        let mut s = self.span.to_text();
        push_char(&mut s, ' ');
        s.append(self.kind.name());
        push_char(&mut s, ':');
        push_char(&mut s, ' ');
        s.append(self.msg.as_str());
        assert(s@ =~= self.spec_text());
        s
    }
}

/// The kinds of error.
#[derive(Debug, Clone, Copy, Hash, PartialEq, Eq)]
pub enum ErrorKind {
    NoMain,
    EmptyReturn,
    Undefined,
    TypeError,
    LexeringFailer,
    UnknownChar,
    UnclosedDelimiter,
    InvalidIndentation,
    ReserverdWord,
}

impl ErrorKind {
    /// The name of this kind.
    pub open spec fn spec_name(&self) -> Seq<char> {
        match self {
            ErrorKind::NoMain => "NoMain"@,
            ErrorKind::EmptyReturn => "EmptyReturn"@,
            ErrorKind::Undefined => "Undefined"@,
            ErrorKind::TypeError => "TypeError"@,
            ErrorKind::LexeringFailer => "LexeringFailer"@,
            ErrorKind::UnknownChar => "UnknownChar"@,
            ErrorKind::UnclosedDelimiter => "UnclosedDelimiter"@,
            ErrorKind::InvalidIndentation => "InvalidIndentation"@,
            ErrorKind::ReserverdWord => "ReserverdWord"@,
        }
    }

    /// The name of this kind.
    pub fn name(&self) -> (r: &'static str)
        ensures
            r@ == self.spec_name(),
    {
        match self {
            ErrorKind::NoMain => "NoMain",
            ErrorKind::EmptyReturn => "EmptyReturn",
            ErrorKind::Undefined => "Undefined",
            ErrorKind::TypeError => "TypeError",
            ErrorKind::LexeringFailer => "LexeringFailer",
            ErrorKind::UnknownChar => "UnknownChar",
            ErrorKind::UnclosedDelimiter => "UnclosedDelimiter",
            ErrorKind::InvalidIndentation => "InvalidIndentation",
            ErrorKind::ReserverdWord => "ReserverdWord",
        }
    }
}

} // verus!
