//! The second generation's scanner: source text to tokens with spans,
//! indentation turned into `InDent` and `DeDent` tokens.
use vstd::prelude::*;
use vstd::string::StringExecFns;
use crate::position::{CharPos, Pos, Span, Spanned};
use crate::text::{
    char_is_numeric, chars_of, is_ascii_alphabetic, is_ascii_alphanumeric, is_numeric, push_char, str_eq, string_of,
};

pub mod model;
pub mod laws;

use model::{
    STok, SpanV, SState, CP, Class, accepts, next, next_if, peek_char, keyword_text, keyword_of,
    unwrap_text, name_text, display_text, unclosed_msg, closing_partner, push, line_comment, block_comment,
    spaces, top, dedent_to, indent, last_span, dedent_n, unwrap_dedent, number_rest, number,
    word_rest, end_of, reserved_msg, func, identifier, replace_all, unescape, string, two_char_op,
    one_char_token, unknown_msg, step, run, finish, scan, initial, positions, col_row, span_of,
    no_span, lemma_step,
};

verus! {

/// A keyword of the second language.
#[derive(Debug, Clone, Copy, PartialEq, Eq, Structural, Hash)]
pub enum KeyWord {
    True,
    False,
    Return,
    Let,
    In,
    And,
    Or,
    Not,
    If,
    Then,
    Else,
    Do,
    Print,
    PrintLn,
    DbgInt,
}

impl KeyWord {
    /// The keyword that a word is, if any.
    pub fn lookup(name: &str) -> (r: Option<Self>)
        ensures
            r == keyword_of(name@),
    {
        if str_eq(name, "True") {
            Some(KeyWord::True)
        } else if str_eq(name, "False") {
            Some(KeyWord::False)
        } else if str_eq(name, "return") {
            Some(KeyWord::Return)
        } else if str_eq(name, "let") {
            Some(KeyWord::Let)
        } else if str_eq(name, "in") {
            Some(KeyWord::In)
        } else if str_eq(name, "and") {
            Some(KeyWord::And)
        } else if str_eq(name, "or") {
            Some(KeyWord::Or)
        } else if str_eq(name, "not") {
            Some(KeyWord::Not)
        } else if str_eq(name, "if") {
            Some(KeyWord::If)
        } else if str_eq(name, "then") {
            Some(KeyWord::Then)
        } else if str_eq(name, "else") {
            Some(KeyWord::Else)
        } else if str_eq(name, "do") {
            Some(KeyWord::Do)
        } else if str_eq(name, "print") {
            Some(KeyWord::Print)
        } else if str_eq(name, "println") {
            Some(KeyWord::PrintLn)
        } else if str_eq(name, "dbg_int") {
            Some(KeyWord::DbgInt)
        } else {
            None
        }
    }

    /// The text of this keyword.
    pub fn text(&self) -> (r: &'static str)
        ensures
            r@ == keyword_text(*self),
    {
        match self {
            KeyWord::True => "True",
            KeyWord::False => "False",
            KeyWord::Return => "return",
            KeyWord::Let => "let",
            KeyWord::In => "in",
            KeyWord::And => "and",
            KeyWord::Or => "or",
            KeyWord::Not => "not",
            KeyWord::If => "if",
            KeyWord::Then => "then",
            KeyWord::Else => "else",
            KeyWord::Do => "do",
            KeyWord::Print => "print",
            KeyWord::PrintLn => "println",
            KeyWord::DbgInt => "dbg_int",
        }
    }
}

/// A token of the scanner.
#[derive(Debug, PartialEq)]
pub enum Token {
    Int(String),
    Float(String),
    String(String),
    Id(String),
    Fn(String),
    KeyWord(KeyWord),
    InDent,
    DeDent,
    Delimiter,
    Op(&'static str),
    Ctrl(char),
}

impl Clone for Token {
    fn clone(&self) -> (r: Self)
        ensures
            r == *self,
    {
        match self {
            Token::Int(s) => Token::Int(s.clone()),
            Token::Float(s) => Token::Float(s.clone()),
            Token::String(s) => Token::String(s.clone()),
            Token::Id(s) => Token::Id(s.clone()),
            Token::Fn(s) => Token::Fn(s.clone()),
            Token::KeyWord(k) => Token::KeyWord(*k),
            Token::InDent => Token::InDent,
            Token::DeDent => Token::DeDent,
            Token::Delimiter => Token::Delimiter,
            Token::Op(s) => Token::Op(*s),
            Token::Ctrl(c) => Token::Ctrl(*c),
        }
    }
}

/// The view of a token.
pub open spec fn tok_view(t: Token) -> STok {
    match t {
        Token::Int(s) => STok::Int(s@),
        Token::Float(s) => STok::Float(s@),
        Token::String(s) => STok::Str(s@),
        Token::Id(s) => STok::Id(s@),
        Token::Fn(s) => STok::Fn(s@),
        Token::KeyWord(k) => STok::KeyWord(k),
        Token::InDent => STok::InDent,
        Token::DeDent => STok::DeDent,
        Token::Delimiter => STok::Delimiter,
        Token::Op(s) => STok::Op(s@),
        Token::Ctrl(c) => STok::Ctrl(c),
    }
}

/// The view of a span.
pub open spec fn span_view(s: Span) -> SpanV {
    (s.start, s.end, s.loc@)
}

/// The view of a token with its span.
pub open spec fn spanned_view(s: Spanned<Token>) -> (STok, SpanV) {
    (tok_view(s.node), span_view(s.span))
}

/// The views of tokens with their spans.
pub open spec fn spanneds_view(s: Seq<Spanned<Token>>) -> Seq<(STok, SpanV)> {
    s.map_values(|t: Spanned<Token>| spanned_view(t))
}

impl Token {
    /// The text that this token carries.
    pub fn unwrap(&self) -> (r: String)
        ensures
            r@ == unwrap_text(tok_view(*self)),
    {
        match self {
            Token::Int(i) => i.clone(),
            Token::Float(i) => i.clone(),
            Token::String(i) => i.clone(),
            Token::Id(i) => i.clone(),
            Token::Fn(i) => i.clone(),
            Token::KeyWord(k) => string_of(k.text()),
            Token::InDent => string_of("InDent"),
            Token::DeDent => string_of("DeDent"),
            Token::Delimiter => string_of(";"),
            Token::Op(i) => string_of(i),
            Token::Ctrl(c) => {
                let mut s = String::new();
                push_char(&mut s, *c);
                s
            },
        }
    }

    /// What this token is called in messages.
    pub fn name(&self) -> (r: String)
        ensures
            r@ == name_text(tok_view(*self)),
    {
        match self {
            Token::Int(_) => string_of("Int"),
            Token::Float(_) => string_of("Float"),
            Token::String(_) => string_of("String"),
            Token::Id(_) => string_of("Id"),
            Token::Fn(i) => i.clone(),
            Token::KeyWord(k) => string_of(k.text()),
            Token::InDent => string_of("InDent"),
            Token::DeDent => string_of("DeDent"),
            Token::Delimiter => string_of(";"),
            Token::Op(_) => string_of("Operator"),
            Token::Ctrl(c) => {
                let c = *c;
                if c == '(' || c == ')' {
                    string_of("parenthesis")
                } else if c == '[' || c == ']' {
                    string_of("brackets")
                } else if c == '{' || c == '}' {
                    string_of("braces")
                } else {
                    string_of("unknown")
                }
            },
        }
    }
}

impl Token {
    /// This token written out: its kind with its text in brackets.
    pub fn to_text(&self) -> (r: String)
        ensures
            r@ == display_text(tok_view(*self)),
    {
        proof {
            }
        match self {
            Token::Int(i) => bracketed("Int", i.as_str()),
            Token::Float(i) => bracketed("Float", i.as_str()),
            Token::String(i) => bracketed("String", i.as_str()),
            Token::Id(i) => bracketed("Id", i.as_str()),
            Token::Fn(i) => bracketed("Fn", i.as_str()),
            Token::KeyWord(k) => bracketed("KeyWord", k.text()),
            Token::InDent => string_of("InDent"),
            Token::DeDent => string_of("DeDent"),
            Token::Delimiter => string_of(";"),
            Token::Op(i) => bracketed("Op", i),
            Token::Ctrl(c) => {
                let mut t = String::new();
                push_char(&mut t, *c);
                assert(t@ =~= seq![*c]);
                bracketed("Ctrl", t.as_str())
            },
        }
    }
}

/// `kind(inner)`.
fn bracketed(kind: &str, inner: &str) -> (r: String)
    ensures
        r@ == model::bracket(kind@, inner@),
{
    let mut s = string_of(kind);
    push_char(&mut s, '(');
    s.append(inner);
    push_char(&mut s, ')');
    proof {
        reveal_strlit("(");
        reveal_strlit(")");
    }
    assert(s@ =~= kind@ + "("@ + inner@ + ")"@);
    s
}

impl Spanned<Token> {
    /// This token written out after its span: `span:token`.
    pub fn to_text(&self) -> (r: String)
        ensures
            r@ == self.span.spec_text() + seq![':'] + display_text(tok_view(self.node)),
    {
        let mut s = self.span.to_text();
        push_char(&mut s, ':');
        let t = self.node.to_text();
        s.append(t.as_str());
        s
    }
}

/// A scanning error, with the error found before it, if any.
#[derive(Debug)]
pub struct ScanError {
    pub last: Option<Box<ScanError>>,
    pub msg: String,
    pub span: Span,
}

/// The errors of a chain, the earliest first.
pub open spec fn chain(e: ScanError) -> Seq<(Seq<char>, SpanV)>
    decreases e,
{
    let here = (e.msg@, span_view(e.span));
    match e.last {
        Some(b) => chain(*b).push(here),
        None => seq![here],
    }
}

/// The errors of an optional chain.
pub open spec fn opt_chain(e: Option<ScanError>) -> Seq<(Seq<char>, SpanV)> {
    match e {
        Some(e) => chain(e),
        None => Seq::empty(),
    }
}

impl ScanError {
    /// The message of this error, after its span.
    pub fn to_text(&self) -> (r: String)
        ensures
            r@ == self.span.spec_text() + ": "@ + self.msg@,
    {
        let mut s = self.span.to_text();
        s.append(": ");
        s.append(self.msg.as_str());
        s
    }
}

/// The view of a source character.
pub open spec fn cp_view(c: CharPos) -> CP {
    (c.chr, Pos { idx: c.idx, col: c.col, row: c.row }, c.loc@)
}

/// The views of source characters.
pub open spec fn cps_view(s: Seq<CharPos>) -> Seq<CP> {
    s.map_values(|c: CharPos| cp_view(c))
}

/// The span of no place in no file.
fn empty_span() -> (r: Span)
    ensures
        span_view(r) == no_span(),
{
    Span { start: Pos { idx: 0, col: 0, row: 0 }, end: Pos { idx: 0, col: 0, row: 0 }, loc: String::new() }
}

/// A string holding some characters.
fn string_from(v: &Vec<char>) -> (r: String)
    ensures
        r@ == v@,
{
    let mut s = String::new();
    let mut i: usize = 0;
    while i < v.len()
        invariant
            i <= v.len(),
            s@ == v@.subrange(0, i as int),
        decreases v.len() - i,
    {
        push_char(&mut s, v[i]);
        i = i + 1;
        assert(s@ =~= v@.subrange(0, i as int));
    }
    assert(v@.subrange(0, v.len() as int) =~= v@);
    s
}

/// Whether `pat` occurs in `s` at `i`.
fn occurs_at(s: &Vec<char>, i: usize, pat: &Vec<char>) -> (r: bool)
    requires
        i <= s.len(),
    ensures
        r == (i + pat.len() <= s.len() && s@.subrange(i as int, i + pat.len()) == pat@),
{
    if pat.len() > s.len() - i {
        return false;
    }
    let mut k: usize = 0;
    while k < pat.len()
        invariant
            i + pat.len() <= s.len(),
            k <= pat.len(),
            forall|j: int| 0 <= j < k ==> s@[i + j] == pat@[j],
        decreases pat.len() - k,
    {
        if s[i + k] != pat[k] {
            assert(s@.subrange(i as int, i + pat.len())[k as int] != pat@[k as int]);
            return false;
        }
        k = k + 1;
    }
    assert(s@.subrange(i as int, i + pat.len()) =~= pat@);
    true
}

/// Every non-overlapping occurrence of `pat` replaced by `rep`, from the left,
/// as `str::replace` does.
pub fn replace_chars(s: &Vec<char>, pat: &Vec<char>, rep: &Vec<char>) -> (r: Vec<char>)
    ensures
        r@ == replace_all(s@, pat@, rep@),
{
    let mut out: Vec<char> = Vec::new();
    let mut i: usize = 0;
    assert(s@.subrange(0, s.len() as int) =~= s@);
    assert(out@ + replace_all(s@, pat@, rep@) =~= replace_all(s@, pat@, rep@));
    while i < s.len()
        invariant
            i <= s.len(),
            replace_all(s@, pat@, rep@) == out@ + replace_all(
                s@.subrange(i as int, s.len() as int),
                pat@,
                rep@,
            ),
        decreases s.len() - i,
    {
        let ghost rest = s@.subrange(i as int, s.len() as int);
        if pat.len() > 0 && occurs_at(s, i, pat) {
            assert(rest.subrange(0, pat.len() as int) =~= s@.subrange(i as int, i + pat.len()));
            assert(rest.subrange(pat.len() as int, rest.len() as int) =~= s@.subrange(
                i + pat.len(),
                s.len() as int,
            ));
            let mut k: usize = 0;
            let ghost before = out@;
            while k < rep.len()
                invariant
                    k <= rep.len(),
                    out@ == before + rep@.subrange(0, k as int),
                decreases rep.len() - k,
            {
                out.push(rep[k]);
                k = k + 1;
                assert(out@ =~= before + rep@.subrange(0, k as int));
            }
            assert(rep@.subrange(0, rep.len() as int) =~= rep@);
            assert(before + (rep@ + replace_all(s@.subrange(i + pat.len(), s.len() as int), pat@, rep@))
                =~= out@ + replace_all(s@.subrange(i + pat.len(), s.len() as int), pat@, rep@));
            i = i + pat.len();
        } else {
            proof {
                if pat@.len() <= rest.len() {
                    assert(rest.subrange(0, pat@.len() as int) =~= s@.subrange(
                        i as int,
                        i + pat@.len(),
                    ));
                }
            }
            assert(rest.drop_first() =~= s@.subrange(i + 1, s.len() as int));
            assert(rest[0] == s@[i as int]);
            let ghost before = out@;
            out.push(s[i]);
            assert(before + (seq![s@[i as int]] + replace_all(
                s@.subrange(i + 1, s.len() as int),
                pat@,
                rep@,
            )) =~= out@ + replace_all(s@.subrange(i + 1, s.len() as int), pat@, rep@));
            i = i + 1;
        }
    }
    assert(out@ + replace_all(s@.subrange(i as int, s.len() as int), pat@, rep@) =~= out@);
    out
}

/// The escapes of a string literal replaced.
fn unescape_chars(t: &Vec<char>) -> (r: Vec<char>)
    ensures
        r@ == unescape(t@),
{
    let mut p1: Vec<char> = Vec::new();
    p1.push('\\');
    p1.push('r');
    let mut r1: Vec<char> = Vec::new();
    r1.push('\r');
    let mut p2: Vec<char> = Vec::new();
    p2.push('\\');
    p2.push('n');
    let mut r2: Vec<char> = Vec::new();
    r2.push('\n');
    let mut p3: Vec<char> = Vec::new();
    p3.push('\\');
    p3.push('t');
    let mut r3: Vec<char> = Vec::new();
    r3.push('\t');
    let mut p4: Vec<char> = Vec::new();
    p4.push('\\');
    p4.push('x');
    p4.push('1');
    p4.push('b');
    let mut r4: Vec<char> = Vec::new();
    r4.push('\x1b');
    assert(p1@ =~= seq!['\\', 'r'] && r1@ =~= seq!['\r']);
    assert(p2@ =~= seq!['\\', 'n'] && r2@ =~= seq!['\n']);
    assert(p3@ =~= seq!['\\', 't'] && r3@ =~= seq!['\t']);
    assert(p4@ =~= seq!['\\', 'x', '1', 'b'] && r4@ =~= seq!['\x1b']);
    let a = replace_chars(t, &p1, &r1);
    let b = replace_chars(&a, &p2, &r2);
    let c = replace_chars(&b, &p3, &r3);
    replace_chars(&c, &p4, &r4)
}

/// Whether a character belongs to a class.
fn class_accepts(class: &Class, c: char) -> (r: bool)
    ensures
        r == accepts(*class, c),
{
    match class {
        Class::NotNewline => c != '\n',
        Class::Space => c == ' ',
        Class::Alphanumeric => is_ascii_alphanumeric(c),
        Class::Word => is_ascii_alphanumeric(c) || c == '_',
        Class::NotQuote => c != '"',
    }
}

/// The operator that a character and the one after it make, if any.
fn two_char(c: char, p: char) -> (r: Option<&'static str>)
    ensures
        match r {
            Some(s) => two_char_op(c, p) == Some(s@),
            None => two_char_op(c, p) is None,
        },
{
    if c == '=' && p == '=' {
        Some("==")
    } else if c == '!' && p == '=' {
        Some("!=")
    } else if c == '>' && p == '=' {
        Some(">=")
    } else if c == '|' && p == '>' {
        Some("|>")
    } else if c == '<' && p == '|' {
        Some("<|")
    } else if c == '<' && p == '=' {
        Some("<=")
    } else if c == ':' && p == ':' {
        Some("::")
    } else {
        None
    }
}

/// The token that a character makes alone, if any.
fn one_char(c: char) -> (r: Option<Token>)
    ensures
        match r {
            Some(t) => one_char_token(c) == Some(tok_view(t)),
            None => one_char_token(c) is None,
        },
{
    if c == '!' {
        Some(Token::Op("!"))
    } else if c == '=' {
        Some(Token::Op("="))
    } else if c == '-' {
        Some(Token::Op("-"))
    } else if c == '+' {
        Some(Token::Op("+"))
    } else if c == '*' {
        Some(Token::Op("*"))
    } else if c == '/' {
        Some(Token::Op("/"))
    } else if c == '>' {
        Some(Token::Op(">"))
    } else if c == '<' {
        Some(Token::Op("<"))
    } else if c == '(' || c == ')' || c == '[' || c == ']' || c == '{' || c == '}' || c == ',' {
        Some(Token::Ctrl(c))
    } else {
        None
    }
}

/// The scanner: the source characters, the place reached, and what it has
/// found so far.
struct Scanner {
    cps: Vec<CharPos>,
    cursor: usize,
    current: Option<usize>,
    previous: char,
    tokens: Vec<Spanned<Token>>,
    errors: Option<ScanError>,
    delimiters: Vec<Spanned<Token>>,
    indent: Vec<usize>,
    stuck: bool,
}

impl Scanner {
    spec fn src(&self) -> Seq<CP> {
        cps_view(self.cps@)
    }

    spec fn state(&self) -> SState {
        SState {
            cursor: self.cursor as nat,
            current: match self.current {
                Some(i) => Some(i as nat),
                None => None,
            },
            previous: self.previous,
            tokens: spanneds_view(self.tokens@),
            errors: opt_chain(self.errors),
            delims: spanneds_view(self.delimiters@),
            indent: self.indent@.map_values(|x: usize| x as nat),
            stuck: self.stuck,
        }
    }

    spec fn wf(&self) -> bool {
        &&& self.cursor <= self.cps.len()
        &&& self.cps.len() < usize::MAX
        &&& (self.current matches Some(i) ==> i < self.cursor)
    }

    fn new(cps: Vec<CharPos>) -> (r: Self)
        requires
            cps.len() < usize::MAX,
        ensures
            r.wf(),
            r.cps == cps,
            r.state() == initial(),
    {
        let r = Scanner {
            cps,
            cursor: 0,
            current: None,
            previous: '\n',
            tokens: Vec::new(),
            errors: None,
            delimiters: Vec::new(),
            indent: Vec::new(),
            stuck: false,
        };
        assert(r.state().tokens =~= Seq::empty());
        assert(r.state().delims =~= Seq::empty());
        assert(r.state().indent =~= Seq::empty());
        r
    }

    /// The source character at `i`.
    fn char_of(&self, i: usize) -> (c: char)
        requires
            i < self.cps.len(),
        ensures
            c == self.cps@[i as int].chr,
            c == self.src()[i as int].0,
    {
        self.cps[i].chr
    }

    /// Reads the next character, if any.
    fn next(&mut self) -> (r: Option<usize>)
        requires
            old(self).wf(),
        ensures
            final(self).wf(),
            final(self).cps == old(self).cps,
            final(self).state() == next(old(self).src(), old(self).state()),
            r == final(self).current,
    {
        if let Some(i) = self.current {
            self.previous = self.char_of(i);
        }
        if self.cursor < self.cps.len() {
            self.current = Some(self.cursor);
            self.cursor = self.cursor + 1;
        } else {
            self.current = None;
        }
        self.current
    }

    /// Reads the next character if it belongs to `class`.
    fn next_if(&mut self, class: Class) -> (r: bool)
        requires
            old(self).wf(),
        ensures
            final(self).wf(),
            final(self).cps == old(self).cps,
            (r, final(self).state()) == next_if(old(self).src(), old(self).state(), class),
    {
        if self.cursor < self.cps.len() && class_accepts(&class, self.char_of(self.cursor)) {
            self.next();
            true
        } else {
            false
        }
    }

    /// The next unread character, or `'\0'` at the end.
    fn peek_char(&self) -> (r: char)
        requires
            self.wf(),
        ensures
            r == peek_char(self.src(), self.state()),
    {
        if self.cursor < self.cps.len() {
            self.char_of(self.cursor)
        } else {
            '\0'
        }
    }

    /// The span from source character `i` to source character `j`.
    fn span(&self, i: usize, j: usize) -> (r: Span)
        requires
            i < self.cps.len(),
            j < self.cps.len(),
        ensures
            span_view(r) == span_of(self.src(), i as nat, j as nat),
    {
        Span::from_chars(&self.cps[i], &self.cps[j])
    }

    /// Records an error after those found so far.
    fn add_error(&mut self, msg: String, span: Span)
        ensures
            final(self).cps == old(self).cps,
            final(self).cursor == old(self).cursor,
            final(self).current == old(self).current,
            final(self).delimiters@ == old(self).delimiters@,
            final(self).state() == (SState {
                errors: old(self).state().errors.push((msg@, span_view(span))),
                ..old(self).state()
            }),
    {
        let before = self.errors.take();
        let last = match before {
            Some(e) => Some(Box::new(e)),
            None => None,
        };
        self.errors = Some(ScanError { last, msg, span });
    }

    /// The message for a bracket left open.
    fn unclosed(t: &Token) -> (r: String)
        ensures
            r@ == unclosed_msg(tok_view(*t)),
    {
        let mut m = string_of("unclosed delimiter missing ");
        m.append(t.name().as_str());
        m.append(" ");
        m.append(t.unwrap().as_str());
        m
    }

    /// Adds a token, checking brackets.
    fn push(&mut self, tok: Token, span: Span)
        requires
            old(self).wf(),
        ensures
            final(self).wf(),
            final(self).cps == old(self).cps,
            final(self).state() == push(old(self).state(), tok_view(tok), span_view(span)),
    {
        let ghost s0 = self.state();
        if let Token::Ctrl(c) = &tok {
            let c = *c;
            if c == '(' || c == '[' || c == '{' {
                let d = Spanned::new(tok.clone(), span.clone());
                self.delimiters.push(d);
                assert(spanneds_view(self.delimiters@) =~= s0.delims.push(
                    (tok_view(tok), span_view(span)),
                ));
            } else if c == ')' || c == ']' || c == '}' {
                let opsit: &str = if c == ')' {
                    "("
                } else if c == '}' {
                    "{"
                } else {
                    "]"
                };
                let ghost had = self.delimiters@;
                let open = match self.delimiters.pop() {
                    Some(o) => o,
                    None => Spanned::new(tok.clone(), span.clone()),
                };
                assert(spanneds_view(self.delimiters@) =~= (if had.len() > 0 {
                    s0.delims.drop_last()
                } else {
                    s0.delims
                }));
                let u = open.node.unwrap();
                if !str_eq(opsit, u.as_str()) {
                    let m = Self::unclosed(&open.node);
                    self.add_error(m, open.span);
                }
            }
        }
        let ghost s1 = self.state();
        self.tokens.push(Spanned::new(tok, span));
        assert(spanneds_view(self.tokens@) =~= s1.tokens.push((tok_view(tok), span_view(span))));
    }

    /// Skips a line comment.
    fn line_comment(&mut self)
        requires
            old(self).wf(),
        ensures
            final(self).wf(),
            final(self).cps == old(self).cps,
            final(self).state() == line_comment(old(self).src(), old(self).state()),
    {
        while self.next_if(Class::NotNewline)
            invariant
                self.wf(),
                self.cps == old(self).cps,
                line_comment(self.src(), self.state()) == line_comment(
                    old(self).src(),
                    old(self).state(),
                ),
            decreases self.cps.len() - self.cursor,
        {
        }
    }

    /// Skips a block comment.
    fn block_comment(&mut self)
        requires
            old(self).wf(),
        ensures
            final(self).wf(),
            final(self).cps == old(self).cps,
            final(self).state() == block_comment(old(self).src(), old(self).state(), '\0'),
    {
        let mut last = '\0';
        loop
            invariant
                self.wf(),
                self.cps == old(self).cps,
                block_comment(self.src(), self.state(), last) == block_comment(
                    old(self).src(),
                    old(self).state(),
                    '\0',
                ),
            decreases self.cps.len() - self.cursor,
        {
            match self.next() {
                None => return ,
                Some(i) => {
                    let c = self.char_of(i);
                    if last == '-' && c == '}' {
                        return ;
                    }
                    last = c;
                },
            }
        }
    }

    /// Opens or closes indentation levels after a new line.
    fn indent(&mut self)
        requires
            old(self).wf(),
        ensures
            final(self).wf(),
            final(self).cps == old(self).cps,
            final(self).state() == indent(old(self).src(), old(self).state()),
    {
        let ghost cps = self.src();
        let ghost s0 = self.state();
        let start = self.cursor;
        let mut count: usize = 0;
        loop
            invariant
                self.wf(),
                self.cps == old(self).cps,
                cps == self.src(),
                start == s0.cursor,
                count <= self.cursor,
                count == 0 ==> self.cursor == start,
                count > 0 ==> start + count == self.cursor,
                spaces(cps, s0, 0, 0) == spaces(
                    cps,
                    self.state(),
                    count as nat,
                    if count == 0 { 0 } else { start as nat },
                ),
            ensures
                self.wf(),
                self.cps == old(self).cps,
                cps == self.src(),
                count <= self.cursor,
                count > 0 ==> start + count == self.cursor,
                spaces(cps, s0, 0, 0) == (
                    count as nat,
                    (if count == 0 { 0 } else { start as nat }),
                    self.state(),
                ),
            decreases self.cps.len() - self.cursor,
        {
            let more = self.next_if(Class::Space);
            if !more {
                break;
            }
            count = count + 1;
        }
        let first: usize = if count == 0 { 0 } else { start };
        let span = if count > 0 {
            self.span(first, first + count - 1)
        } else {
            empty_span()
        };
        let ghost s1 = self.state();
        let t: usize = if self.indent.len() > 0 {
            self.indent[self.indent.len() - 1]
        } else {
            0
        };
        assert(t == top(s1.indent));
        if count > t {
            self.indent.push(count);
            assert(self.state().indent =~= s1.indent.push(count as nat));
            self.push(Token::InDent, span);
        } else if count < t {
            self.indent.pop();
            assert(self.state().indent =~= s1.indent.drop_last());
            self.push(Token::DeDent, span.clone());
            while count < self.top_indent() && self.indent.len() > 0
                invariant
                    self.wf(),
                    self.cps == old(self).cps,
                    dedent_to(self.state(), count as nat, span_view(span)) == dedent_to(
                        push(
                            SState { indent: s1.indent.drop_last(), ..s1 },
                            STok::DeDent,
                            span_view(span),
                        ),
                        count as nat,
                        span_view(span),
                    ),
                decreases self.indent.len(),
            {
                let ghost s2 = self.state();
                self.indent.pop();
                assert(self.state().indent =~= s2.indent.drop_last());
                self.push(Token::DeDent, span.clone());
            }
            let t3: usize = if self.indent.len() > 0 {
                self.indent[self.indent.len() - 1]
            } else {
                0
            };
            assert(t3 == top(self.state().indent));
            if count > t3 {
                self.add_error(string_of("invalid indention"), span);
            }
        }
    }

    /// The innermost indentation level open, or 0.
    fn top_indent(&self) -> (r: usize)
        ensures
            r == top(self.state().indent),
    {
        if self.indent.len() > 0 {
            self.indent[self.indent.len() - 1]
        } else {
            0
        }
    }

    /// Whether a number goes on at character `k`, its text so far holding a
    /// decimal point when `dot`.
    fn number_goes_on(&self, k: usize, dot: bool) -> (r: bool)
        ensures
            r == (k < self.cps.len() && (char_is_numeric(self.cps@[k as int].chr) || (
            self.cps@[k as int].chr == '.' && !dot))),
    {
        if k >= self.cps.len() {
            return false;
        }
        let c = self.char_of(k);
        is_numeric(c) || (c == '.' && !dot)
    }

    /// Closes every open level at the end.
    fn unwrap_dedent(&mut self)
        requires
            old(self).wf(),
        ensures
            final(self).wf(),
            final(self).cps == old(self).cps,
            final(self).state() == unwrap_dedent(old(self).state()),
    {
        let n = self.indent.len();
        let ghost s0 = self.state();
        let mut k: usize = 0;
        while k < n
            invariant
                self.wf(),
                self.cps == old(self).cps,
                k <= n,
                n == s0.indent.len(),
                self.state().indent == s0.indent,
                dedent_n(self.state(), (n - k) as nat) == dedent_n(s0, n as nat),
            decreases n - k,
        {
            let span = match self.tokens.last() {
                Some(t) => t.span(),
                None => empty_span(),
            };
            assert(span_view(span) == last_span(self.state()));
            self.push(Token::DeDent, span);
            k = k + 1;
        }
        self.indent.clear();
        assert(self.state().indent =~= Seq::<nat>::empty());
    }

    /// A number starting at character `start`.
    fn number(&mut self, start: usize)
        requires
            old(self).wf(),
            start < old(self).cps.len(),
        ensures
            final(self).wf(),
            final(self).cps == old(self).cps,
            final(self).state() == number(old(self).src(), old(self).state(), start as nat),
    {
        let ghost cps = self.src();
        let ghost s0 = self.state();
        let mut text: Vec<char> = Vec::new();
        text.push(self.char_of(start));
        let mut dot = self.char_of(start) == '.';
        let mut k = self.cursor;
        assert(text@ =~= seq![cps[start as int].0]);
        proof {
            if dot {
                assert(text@[0] == '.');
            }
        }
        while self.number_goes_on(k, dot)
            invariant
                self.cps == old(self).cps,
                cps == self.src(),
                self.cursor == s0.cursor,
                s0.cursor <= k <= self.cps.len(),
                dot == text@.contains('.'),
                number_rest(cps, s0.cursor, seq![cps[start as int].0]) == number_rest(
                    cps,
                    k as nat,
                    text@,
                ),
            decreases self.cps.len() - k,
        {
            let c = self.char_of(k);
            assert(text@.push(c).contains('.') == (text@.contains('.') || c == '.')) by {
                if c == '.' {
                    assert(text@.push(c)[text@.len() as int] == '.');
                }
                if text@.contains('.') {
                    let w = choose|w: int| 0 <= w < text@.len() && text@[w] == '.';
                    assert(text@.push(c)[w] == '.');
                }
            }
            text.push(c);
            dot = dot || c == '.';
            k = k + 1;
        }
        let end = if k > self.cursor {
            k - 1
        } else {
            start
        };
        let span = self.span(start, end);
        let number = string_from(&text);
        let tok = if dot {
            Token::Float(number)
        } else {
            Token::Int(number)
        };
        self.cursor = k;
        self.push(tok, span);
    }

    /// The rest of a word of class `class` after `text`.
    fn word_rest(&mut self, class: Class, text: &mut Vec<char>)
        requires
            old(self).wf(),
        ensures
            final(self).wf(),
            final(self).cps == old(self).cps,
            (final(self).state(), final(text)@) == word_rest(
                old(self).src(),
                old(self).state(),
                class,
                old(text)@,
            ),
    {
        let ghost cps = self.src();
        loop
            invariant
                self.wf(),
                self.cps == old(self).cps,
                cps == self.src(),
                word_rest(cps, self.state(), class, text@) == word_rest(
                    cps,
                    old(self).state(),
                    class,
                    old(text)@,
                ),
            decreases self.cps.len() - self.cursor,
        {
            let at = self.cursor;
            if !self.next_if(class) {
                return ;
            }
            text.push(self.char_of(at));
        }
    }

    /// A function name at the start of a line.
    fn func(&mut self, start: usize)
        requires
            old(self).wf(),
            start < old(self).cps.len(),
            old(self).current == Some(start),
        ensures
            final(self).wf(),
            final(self).cps == old(self).cps,
            final(self).state() == func(old(self).src(), old(self).state(), start as nat),
    {
        let mut w: Vec<char> = Vec::new();
        w.push(self.char_of(start));
        assert(w@ =~= seq![self.src()[start as int].0]);
        self.word_rest(Class::Alphanumeric, &mut w);
        let end = match self.current {
            Some(i) => i,
            None => start,
        };
        let span = self.span(start, end);
        let idt = string_from(&w);
        if KeyWord::lookup(idt.as_str()).is_some() {
            let mut m = string_of("'");
            m.append(idt.as_str());
            m.append("' is a reserved word found in function name");
            self.add_error(m, span.clone());
        }
        self.push(Token::Fn(idt), span);
    }

    /// An identifier or a keyword.
    fn identifier(&mut self, start: usize)
        requires
            old(self).wf(),
            start < old(self).cps.len(),
            old(self).current == Some(start),
        ensures
            final(self).wf(),
            final(self).cps == old(self).cps,
            final(self).state() == identifier(old(self).src(), old(self).state(), start as nat),
    {
        let mut w: Vec<char> = Vec::new();
        w.push(self.char_of(start));
        assert(w@ =~= seq![self.src()[start as int].0]);
        self.word_rest(Class::Word, &mut w);
        let end = match self.current {
            Some(i) => i,
            None => start,
        };
        let span = self.span(start, end);
        let idt = string_from(&w);
        let tok = match KeyWord::lookup(idt.as_str()) {
            Some(k) => Token::KeyWord(k),
            None => Token::Id(idt),
        };
        self.push(tok, span);
    }

    /// A string literal, its closing quote in the source.
    fn string(&mut self, start: usize)
        requires
            old(self).wf(),
            start < old(self).cps.len(),
        ensures
            final(self).wf(),
            final(self).cps == old(self).cps,
            final(self).state() == string(old(self).src(), old(self).state(), start as nat),
    {
        let mut text: Vec<char> = Vec::new();
        assert(text@ =~= Seq::<char>::empty());
        self.word_rest(Class::NotQuote, &mut text);
        let end = match self.next() {
            Some(i) => i,
            None => {
                self.stuck = true;
                return;
            },
        };
        let span = self.span(start, end);
        let s = string_from(&unescape_chars(&text));
        self.push(Token::String(s), span);
    }

    /// What the scanner does with the character at `i`, just read.
    fn step(&mut self, i: usize)
        requires
            old(self).wf(),
            i < old(self).cps.len(),
            old(self).current == Some(i),
        ensures
            final(self).wf(),
            final(self).cps == old(self).cps,
            final(self).state() == step(old(self).src(), old(self).state(), i as nat),
    {
        let c = self.char_of(i);
        let p = self.peek_char();
        let ghost cps = self.src();
        let ghost s0 = self.state();
        if c == '-' && p == '-' {
            self.line_comment();
            assert(self.state() == step(cps, s0, i as nat));
        } else if c == '{' && p == '-' {
            self.block_comment();
            assert(self.state() == step(cps, s0, i as nat));
        } else if c == '\n' {
            self.indent();
            assert(self.state() == step(cps, s0, i as nat));
        } else if let Some(op) = two_char(c, p) {
            let end = self.cursor;
            self.next();
            let span = self.span(i, end);
            self.push(Token::Op(op), span);
            assert(self.state() == step(cps, s0, i as nat));
        } else if let Some(tok) = one_char(c) {
            let span = self.span(i, i);
            self.push(tok, span);
            assert(self.state() == step(cps, s0, i as nat));
        } else if c == '"' {
            self.string(i);
            assert(self.state() == step(cps, s0, i as nat));
        } else if is_ascii_alphabetic(c) && self.previous == '\n' {
            self.func(i);
            assert(self.state() == step(cps, s0, i as nat));
        } else if is_ascii_alphabetic(c) {
            self.identifier(i);
            assert(self.state() == step(cps, s0, i as nat));
        } else if is_numeric(c) {
            self.number(i);
            assert(self.state() == step(cps, s0, i as nat));
        } else if c == ' ' {
        } else {
            let mut m = string_of("unknown char '");
            push_char(&mut m, c);
            m.append("'");
            assert(m@ =~= unknown_msg(c));
            let span = self.span(i, i);
            self.add_error(m, span);
            assert(self.state() == step(cps, s0, i as nat));
        }
    }

    /// Scans the rest of the source: until its end, or until a string that
    /// the source ends in.
    fn run_all(&mut self)
        requires
            old(self).wf(),
        ensures
            final(self).wf(),
            final(self).cps == old(self).cps,
            final(self).state() == run(old(self).src(), old(self).state()),
    {
        let ghost cps = self.src();
        let ghost s0 = self.state();
        loop
            invariant
                self.wf(),
                self.cps == old(self).cps,
                cps == self.src(),
                cps == old(self).src(),
                s0 == old(self).state(),
                run(cps, self.state()) == run(cps, s0),
            decreases self.cps.len() - self.cursor,
        {
            let ghost st = self.state();
            if self.stuck {
                return ;
            }
            assert(!st.stuck && st.cursor <= cps.len());
            match self.next() {
                None => {
                    assert(run(cps, st) == next(cps, st));
                    return ;
                },
                Some(i) => {
                    proof {
                        lemma_step(cps, self.state(), i as nat);
                    }
                    assert(run(cps, st) == run(cps, step(cps, next(cps, st), i as nat)));
                    self.step(i);
                },
            }
        }
    }

    /// Scans the rest of the source and finishes.
    fn scan(&mut self)
        requires
            old(self).wf(),
        ensures
            final(self).cps == old(self).cps,
            final(self).state() == finish(run(old(self).src(), old(self).state())),
    {
        self.run_all();
        self.finish();
    }

    /// Closes open levels and reports brackets left open.
    fn finish(&mut self)
        requires
            old(self).wf(),
        ensures
            final(self).cps == old(self).cps,
            final(self).state() == finish(old(self).state()),
    {
        self.unwrap_dedent();
        let ghost s1 = self.state();
        let last: Option<Spanned<Token>> = match self.tokens.last() {
            Some(t) => Some(Spanned::new(t.node.clone(), t.span())),
            None => None,
        };
        if let Some(item) = last {
            if !matches!(item.node, Token::DeDent) {
                self.push(Token::DeDent, item.span);
            }
        }
        let ghost s2 = self.state();
        let mut k: usize = 0;
        while k < self.delimiters.len()
            invariant
                self.cps == old(self).cps,
                k <= self.delimiters.len(),
                spanneds_view(self.delimiters@) == s2.delims,
                self.state() == (SState {
                    errors: s2.errors + s2.delims.subrange(0, k as int).map_values(
                        |d: (STok, SpanV)| (unclosed_msg(d.0), d.1),
                    ),
                    ..s2
                }),
            decreases self.delimiters.len() - k,
        {
            let m = Self::unclosed(&self.delimiters[k].node);
            let span = self.delimiters[k].span();
            self.add_error(m, span);
            k = k + 1;
            assert(s2.delims.subrange(0, k as int) =~= s2.delims.subrange(0, k - 1).push(
                s2.delims[k - 1],
            ));
            assert(s2.delims.subrange(0, k as int).map_values(
                |d: (STok, SpanV)| (unclosed_msg(d.0), d.1),
            ) =~= s2.delims.subrange(0, k - 1).map_values(
                |d: (STok, SpanV)| (unclosed_msg(d.0), d.1),
            ).push((unclosed_msg(s2.delims[k - 1].0), s2.delims[k - 1].1)));
        }
        assert(s2.delims.subrange(0, k as int) =~= s2.delims);
    }
}

/// The character at `i`.
fn char_at(v: &Vec<char>, i: usize) -> (c: char)
    requires
        i < v.len(),
    ensures
        c == v@[i as int],
{
    v[i]
}

/// The characters of `src` in the file `loc`, with their places.
pub fn pos_enum(loc: &str, src: &str) -> (r: Vec<CharPos>)
    requires
        src@.len() + 2 < usize::MAX,
    ensures
        cps_view(r@) == positions(loc@, src@),
{
    let chars = chars_of(src);
    let mut acc: Vec<CharPos> = Vec::new();
    let mut col: usize = 1;
    let mut row: usize = 1;
    let mut i: usize = 0;
    let n = chars.len();
    while i < n
        invariant
            chars@ == src@,
            n == chars@.len(),
            i <= n,
            n + 2 < usize::MAX,
            acc@.len() == i,
            i > 0 ==> (col as nat, row as nat) == col_row(src@, (i - 1) as nat),
            i == 0 ==> col == 1 && row == 1,
            col <= i + 2,
            row <= i + 2,
            forall|k: int|
                0 <= k < i ==> {
                    &&& (#[trigger] acc@[k]).chr == src@[k]
                    &&& acc@[k].idx == k
                    &&& (acc@[k].col as nat, acc@[k].row as nat) == col_row(src@, k as nat)
                    &&& acc@[k].loc@ == loc@
                },
        decreases n - i,
    {
        let chr = char_at(&chars, i);
        if i != 1 {
            row = row + 1;
        }
        if chr == '\n' {
            row = 1;
            col = col + 1;
        }
        let cp = CharPos { chr: chr, idx: i, col: col, row: row, loc: string_of(loc) };
        assert((col as nat, row as nat) == col_row(src@, i as nat));
        acc.push(cp);
        i = i + 1;
    }
    assert forall|k: int| 0 <= k < n implies cps_view(acc@)[k] == positions(loc@, src@)[k] by {
        let cr = col_row(src@, k as nat);
        assert(acc@[k].chr == src@[k]);
        assert(cr.0 == acc@[k].col as nat && cr.1 == acc@[k].row as nat);
        assert(cr.0 as usize == acc@[k].col && cr.1 as usize == acc@[k].row);
        assert(k as usize == acc@[k].idx);
        assert(cps_view(acc@)[k] == cp_view(acc@[k]));

    }
    assert(cps_view(acc@) =~= positions(loc@, src@));
    acc
}

/// Whether scanning `src` meets a string literal that the source ends in.
pub open spec fn ends_in_string(loc: Seq<char>, src: Seq<char>) -> bool {
    run(positions(loc, src), initial()).stuck
}

/// What scanning `src` in the file `loc` gives: the tokens with their spans,
/// or, when there were errors, all of them in the order found.
pub open spec fn scanned(loc: Seq<char>, src: Seq<char>) -> Result<
    Seq<(STok, SpanV)>,
    Seq<(Seq<char>, SpanV)>,
> {
    let s = scan(positions(loc, src));
    if s.errors.len() > 0 {
        Err(s.errors)
    } else {
        Ok(s.tokens)
    }
}

/// Every scan of any source that gives tokens closes each indentation level
/// it opens (at most one closing more than openings) and ends with a closing.
pub proof fn law_scanned_balanced(loc: Seq<char>, src: Seq<char>)
    ensures
        scanned(loc, src) matches Ok(ts) ==> {
            &&& laws::indents(ts) <= laws::dedents(ts) <= laws::indents(ts) + 1
            &&& (ts.len() == 0 || ts.last().0 is DeDent)
        },
{
    laws::law_levels_closed(positions(loc, src));
    laws::law_ends_with_dedent(positions(loc, src));
}

/// Whether scanning `src`, read from the file `filename`, meets a string
/// literal that the source ends in (where `scanner` would read past the end).
pub fn source_ends_in_string(filename: &str, src: &str) -> (r: bool)
    requires
        src@.len() + 2 < usize::MAX,
    ensures
        r == ends_in_string(filename@, src@),
{
    let chrpos = pos_enum(filename, src);
    assert(chrpos@.len() == cps_view(chrpos@).len());
    assert(positions(filename@, src@).len() == src@.len());
    assert(chrpos.len() == src@.len());
    let mut scanner = Scanner::new(chrpos);
    scanner.run_all();
    scanner.stuck
}

/// Scans `src`, read from the file `filename`: its tokens, or the last error
/// found with the ones before it.
pub fn scanner(filename: &str, src: &str) -> (r: Result<Vec<Spanned<Token>>, ScanError>)
    requires
        src@.len() + 2 < usize::MAX,
        !ends_in_string(filename@, src@),
    ensures
        match r {
            Ok(tokens) => scanned(filename@, src@) == Ok::<_, Seq<(Seq<char>, SpanV)>>(
                spanneds_view(tokens@),
            ),
            Err(e) => scanned(filename@, src@) == Err::<Seq<(STok, SpanV)>, _>(chain(e)),
        },
        r matches Ok(tokens) ==> {
            let ts = spanneds_view(tokens@);
            &&& laws::indents(ts) <= laws::dedents(ts) <= laws::indents(ts) + 1
            &&& (ts.len() == 0 || ts.last().0 is DeDent)
        },
{
    proof {
        law_scanned_balanced(filename@, src@);
    }
    let chrpos = pos_enum(filename, src);
    assert(chrpos@.len() == cps_view(chrpos@).len());
    assert(positions(filename@, src@).len() == src@.len());
    assert(chrpos@.len() == src@.len());
    assert(chrpos.len() == src@.len());
    let mut scanner = Scanner::new(chrpos);
    scanner.scan();
    match scanner.errors {
        Some(error) => Err(error),
        None => Ok(scanner.tokens),
    }
}

} // verus!
