//! What the scanner computes, stated over the source characters: a state of
//! scanning and one function per step.
use vstd::prelude::*;
use crate::position::Pos;
use crate::text::{char_is_numeric, spec_is_ascii_alphabetic, spec_is_ascii_alphanumeric};
use super::KeyWord;

verus! {

/// A token with its texts as character sequences.
pub enum STok {
    Int(Seq<char>),
    Float(Seq<char>),
    Str(Seq<char>),
    Id(Seq<char>),
    Fn(Seq<char>),
    KeyWord(KeyWord),
    InDent,
    DeDent,
    Delimiter,
    Op(Seq<char>),
    Ctrl(char),
}

/// A span by its start, its end and its file name.
pub type SpanV = (Pos, Pos, Seq<char>);

/// A scanning state: the next character to read, the current one (by index)
/// and the one before it, the tokens, errors and open brackets so far, and the
/// indentation levels open. `stuck` marks a string that the source ends in.
pub struct SState {
    pub cursor: nat,
    pub current: Option<nat>,
    pub previous: char,
    pub tokens: Seq<(STok, SpanV)>,
    pub errors: Seq<(Seq<char>, SpanV)>,
    pub delims: Seq<(STok, SpanV)>,
    pub indent: Seq<nat>,
    pub stuck: bool,
}

/// A source character, its place and the name of its file.
pub type CP = (char, Pos, Seq<char>);

/// The span from source character `i` to source character `j`.
pub open spec fn span_of(cps: Seq<CP>, i: nat, j: nat) -> SpanV {
    (cps[i as int].1, cps[j as int].1, cps[i as int].2)
}

/// The empty span, at no place in no file.
pub open spec fn no_span() -> SpanV {
    (Pos { idx: 0, col: 0, row: 0 }, Pos { idx: 0, col: 0, row: 0 }, Seq::empty())
}

/// The state before anything is read: the character before the start counts
/// as a new line.
pub open spec fn initial() -> SState {
    SState {
        cursor: 0,
        current: None,
        previous: '\n',
        tokens: Seq::empty(),
        errors: Seq::empty(),
        delims: Seq::empty(),
        indent: Seq::empty(),
        stuck: false,
    }
}

/// The character read last, or the one before the start.
pub open spec fn last_char(cps: Seq<CP>, s: SState) -> char {
    match s.current {
        Some(i) => cps[i as int].0,
        None => s.previous,
    }
}

/// Reading the next character, if any.
pub open spec fn next(cps: Seq<CP>, s: SState) -> SState {
    SState {
        previous: last_char(cps, s),
        current: if s.cursor < cps.len() { Some(s.cursor) } else { None },
        cursor: if s.cursor < cps.len() { s.cursor + 1 } else { s.cursor },
        ..s
    }
}

/// The next unread character, or `'\0'` at the end.
pub open spec fn peek_char(cps: Seq<CP>, s: SState) -> char {
    if s.cursor < cps.len() {
        cps[s.cursor as int].0
    } else {
        '\0'
    }
}

/// The classes of characters that the scanner reads while they last.
#[derive(Clone, Copy)]
pub enum Class {
    NotNewline,
    Space,
    Alphanumeric,
    Word,
    NotQuote,
}

/// Whether a character belongs to a class.
pub open spec fn accepts(class: Class, c: char) -> bool {
    match class {
        Class::NotNewline => c != '\n',
        Class::Space => c == ' ',
        Class::Alphanumeric => spec_is_ascii_alphanumeric(c),
        Class::Word => spec_is_ascii_alphanumeric(c) || c == '_',
        Class::NotQuote => c != '"',
    }
}

/// Reading the next character if it belongs to `class`.
pub open spec fn next_if(cps: Seq<CP>, s: SState, class: Class) -> (bool, SState) {
    if s.cursor < cps.len() && accepts(class, cps[s.cursor as int].0) {
        (true, next(cps, s))
    } else {
        (false, s)
    }
}

/// The text of a keyword.
pub open spec fn keyword_text(k: KeyWord) -> Seq<char> {
    match k {
        KeyWord::True => "True"@,
        KeyWord::False => "False"@,
        KeyWord::Return => "return"@,
        KeyWord::Let => "let"@,
        KeyWord::In => "in"@,
        KeyWord::And => "and"@,
        KeyWord::Or => "or"@,
        KeyWord::Not => "not"@,
        KeyWord::If => "if"@,
        KeyWord::Then => "then"@,
        KeyWord::Else => "else"@,
        KeyWord::Do => "do"@,
        KeyWord::Print => "print"@,
        KeyWord::PrintLn => "println"@,
        KeyWord::DbgInt => "dbg_int"@,
    }
}

/// The keyword that a word is, if any.
pub open spec fn keyword_of(w: Seq<char>) -> Option<KeyWord> {
    if w == "True"@ {
        Some(KeyWord::True)
    } else if w == "False"@ {
        Some(KeyWord::False)
    } else if w == "return"@ {
        Some(KeyWord::Return)
    } else if w == "let"@ {
        Some(KeyWord::Let)
    } else if w == "in"@ {
        Some(KeyWord::In)
    } else if w == "and"@ {
        Some(KeyWord::And)
    } else if w == "or"@ {
        Some(KeyWord::Or)
    } else if w == "not"@ {
        Some(KeyWord::Not)
    } else if w == "if"@ {
        Some(KeyWord::If)
    } else if w == "then"@ {
        Some(KeyWord::Then)
    } else if w == "else"@ {
        Some(KeyWord::Else)
    } else if w == "do"@ {
        Some(KeyWord::Do)
    } else if w == "print"@ {
        Some(KeyWord::Print)
    } else if w == "println"@ {
        Some(KeyWord::PrintLn)
    } else if w == "dbg_int"@ {
        Some(KeyWord::DbgInt)
    } else {
        None
    }
}

/// The text that a token carries (`Token::unwrap`).
pub open spec fn unwrap_text(t: STok) -> Seq<char> {
    match t {
        STok::Int(i) => i,
        STok::Float(i) => i,
        STok::Str(i) => i,
        STok::Id(i) => i,
        STok::Fn(i) => i,
        STok::KeyWord(k) => keyword_text(k),
        STok::InDent => "InDent"@,
        STok::DeDent => "DeDent"@,
        STok::Delimiter => ";"@,
        STok::Op(i) => i,
        STok::Ctrl(c) => seq![c],
    }
}

/// `kind(inner)`.
pub open spec fn bracket(kind: Seq<char>, inner: Seq<char>) -> Seq<char> {
    kind + "("@ + inner + ")"@
}

/// How a token is written out (`Token::to_text`): its kind and, in
/// brackets, its text; the indentation tokens and the delimiter by name alone.
pub open spec fn display_text(t: STok) -> Seq<char> {
    match t {
        STok::Int(i) => bracket("Int"@, i),
        STok::Float(i) => bracket("Float"@, i),
        STok::Str(i) => bracket("String"@, i),
        STok::Id(i) => bracket("Id"@, i),
        STok::Fn(i) => bracket("Fn"@, i),
        STok::KeyWord(k) => bracket("KeyWord"@, keyword_text(k)),
        STok::InDent => "InDent"@,
        STok::DeDent => "DeDent"@,
        STok::Delimiter => ";"@,
        STok::Op(i) => bracket("Op"@, i),
        STok::Ctrl(c) => bracket("Ctrl"@, seq![c]),
    }
}

/// What a token is called in messages (`Token::name`).
pub open spec fn name_text(t: STok) -> Seq<char> {
    match t {
        STok::Int(_) => "Int"@,
        STok::Float(_) => "Float"@,
        STok::Str(_) => "String"@,
        STok::Id(_) => "Id"@,
        STok::Fn(i) => i,
        STok::KeyWord(k) => keyword_text(k),
        STok::InDent => "InDent"@,
        STok::DeDent => "DeDent"@,
        STok::Delimiter => ";"@,
        STok::Op(_) => "Operator"@,
        STok::Ctrl(c) => if c == '(' || c == ')' {
            "parenthesis"@
        } else if c == '[' || c == ']' {
            "brackets"@
        } else if c == '{' || c == '}' {
            "braces"@
        } else {
            "unknown"@
        },
    }
}

/// The message for a bracket left open, or closed by the wrong one.
pub open spec fn unclosed_msg(t: STok) -> Seq<char> {
    "unclosed delimiter missing "@ + name_text(t) + " "@ + unwrap_text(t)
}

/// The text that a closing bracket is checked against: the opening bracket,
/// except that `]` is checked against itself.
pub open spec fn closing_partner(c: char) -> Seq<char> {
    if c == ')' {
        "("@
    } else if c == '}' {
        "{"@
    } else {
        "]"@
    }
}

/// Adding a token: an opening bracket is remembered; a closing one takes the
/// last remembered (or itself, when none is), and a mismatch is an error.
pub open spec fn push(s: SState, t: STok, span: SpanV) -> SState {
    let s1 = match t {
        STok::Ctrl(c) => if c == '(' || c == '[' || c == '{' {
            SState { delims: s.delims.push((t, span)), ..s }
        } else if c == ')' || c == ']' || c == '}' {
            let open = if s.delims.len() > 0 { s.delims.last() } else { (t, span) };
            let delims = if s.delims.len() > 0 { s.delims.drop_last() } else { s.delims };
            if closing_partner(c) != unwrap_text(open.0) {
                SState {
                    delims,
                    errors: s.errors.push((unclosed_msg(open.0), open.1)),
                    ..s
                }
            } else {
                SState { delims, ..s }
            }
        } else {
            s
        },
        _ => s,
    };
    SState { tokens: s1.tokens.push((t, span)), ..s1 }
}

/// A line comment: everything up to the end of the line.
pub open spec fn line_comment(cps: Seq<CP>, s: SState) -> SState
    decreases cps.len() - s.cursor,
{
    let (more, s1) = next_if(cps, s, Class::NotNewline);
    if more {
        line_comment(cps, s1)
    } else {
        s
    }
}

/// A block comment: everything up to `-}` (the `-` may be the one after the
/// opening `{`), or to the end.
pub open spec fn block_comment(cps: Seq<CP>, s: SState, last: char) -> SState
    decreases cps.len() - s.cursor,
{
    let s1 = next(cps, s);
    match s1.current {
        None => s1,
        Some(i) => if last == '-' && cps[i as int].0 == '}' {
            s1
        } else {
            block_comment(cps, s1, cps[i as int].0)
        },
    }
}

/// The spaces at the start of a line: how many, and the state after them;
/// `first` is the first space read so far.
pub open spec fn spaces(cps: Seq<CP>, s: SState, count: nat, first: nat) -> (nat, nat, SState)
    decreases cps.len() - s.cursor,
{
    let (more, s1) = next_if(cps, s, Class::Space);
    if more {
        let f = if count == 0 { s.cursor } else { first };
        spaces(cps, s1, count + 1, f)
    } else {
        (count, first, s)
    }
}

/// The innermost indentation level open, or 0.
pub open spec fn top(indent: Seq<nat>) -> nat {
    if indent.len() > 0 {
        indent.last()
    } else {
        0
    }
}

/// Closing indentation levels deeper than `count`.
pub open spec fn dedent_to(s: SState, count: nat, span: SpanV) -> SState
    decreases s.indent.len(),
{
    if count < top(s.indent) && s.indent.len() > 0 {
        dedent_to(
            push(SState { indent: s.indent.drop_last(), ..s }, STok::DeDent, span),
            count,
            span,
        )
    } else {
        s
    }
}

/// After a new line: the spaces open a deeper level, or close levels down to
/// theirs (an error if no open level has that depth), or change nothing.
pub open spec fn indent(cps: Seq<CP>, s: SState) -> SState {
    let (count, first, s1) = spaces(cps, s, 0, 0);
    let span = if count > 0 { span_of(cps, first, (first + count - 1) as nat) } else { no_span() };
    let t = top(s1.indent);
    if count > t {
        push(SState { indent: s1.indent.push(count), ..s1 }, STok::InDent, span)
    } else if count < t {
        let s2 = push(SState { indent: s1.indent.drop_last(), ..s1 }, STok::DeDent, span);
        let s3 = dedent_to(s2, count, span);
        if count > top(s3.indent) {
            SState { errors: s3.errors.push(("invalid indention"@, span)), ..s3 }
        } else {
            s3
        }
    } else {
        s1
    }
}

/// The span of the last token, or the empty span.
pub open spec fn last_span(s: SState) -> SpanV {
    if s.tokens.len() > 0 {
        s.tokens.last().1
    } else {
        no_span()
    }
}

/// Closing `n` levels at the end, each at the span of the last token.
pub open spec fn dedent_n(s: SState, n: nat) -> SState
    decreases n,
{
    if n == 0 {
        s
    } else {
        dedent_n(push(s, STok::DeDent, last_span(s)), (n - 1) as nat)
    }
}

/// Closing every open level at the end.
pub open spec fn unwrap_dedent(s: SState) -> SState {
    let s1 = dedent_n(s, s.indent.len());
    SState { indent: Seq::empty(), ..s1 }
}

/// The characters of a number after its first: numeric characters, and one
/// decimal point. Gives where the number ends and its text.
pub open spec fn number_rest(cps: Seq<CP>, k: nat, text: Seq<char>) -> (nat, Seq<char>)
    decreases cps.len() - k,
{
    if k < cps.len() && (char_is_numeric(cps[k as int].0) || (cps[k as int].0 == '.'
        && !text.contains('.'))) {
        number_rest(cps, k + 1, text.push(cps[k as int].0))
    } else {
        (k, text)
    }
}

/// A number starting at character `start`: read from the characters directly,
/// so the current and previous characters stay as they were.
pub open spec fn number(cps: Seq<CP>, s: SState, start: nat) -> SState {
    let (k, text) = number_rest(cps, s.cursor, seq![cps[start as int].0]);
    let end = if k > s.cursor { (k - 1) as nat } else { start };
    let t = if text.contains('.') { STok::Float(text) } else { STok::Int(text) };
    push(SState { cursor: k, ..s }, t, span_of(cps, start, end))
}

/// The characters of a word after its first, of class `class`: the state
/// after them and their text.
pub open spec fn word_rest(cps: Seq<CP>, s: SState, class: Class, text: Seq<char>) -> (
    SState,
    Seq<char>,
)
    decreases cps.len() - s.cursor,
{
    let (more, s1) = next_if(cps, s, class);
    if more {
        word_rest(cps, s1, class, text.push(cps[s.cursor as int].0))
    } else {
        (s, text)
    }
}

/// The index of the last character read, or `start` when none was.
pub open spec fn end_of(s: SState, start: nat) -> nat {
    match s.current {
        Some(i) => i,
        None => start,
    }
}

/// The message for a function name that is a keyword.
pub open spec fn reserved_msg(w: Seq<char>) -> Seq<char> {
    "'"@ + w + "' is a reserved word found in function name"@
}

/// A function name, at the start of a line.
pub open spec fn func(cps: Seq<CP>, s: SState, start: nat) -> SState {
    let (s1, w) = word_rest(cps, s, Class::Alphanumeric, seq![cps[start as int].0]);
    let span = span_of(cps, start, end_of(s1, start));
    let s2 = if keyword_of(w) is Some {
        SState { errors: s1.errors.push((reserved_msg(w), span)), ..s1 }
    } else {
        s1
    };
    push(s2, STok::Fn(w), span)
}

/// An identifier or a keyword.
pub open spec fn identifier(cps: Seq<CP>, s: SState, start: nat) -> SState {
    let (s1, w) = word_rest(cps, s, Class::Word, seq![cps[start as int].0]);
    let span = span_of(cps, start, end_of(s1, start));
    let t = match keyword_of(w) {
        Some(k) => STok::KeyWord(k),
        None => STok::Id(w),
    };
    push(s1, t, span)
}

/// Every non-overlapping occurrence of `pat` replaced by `rep`, from the left.
pub open spec fn replace_all(s: Seq<char>, pat: Seq<char>, rep: Seq<char>) -> Seq<char>
    decreases s.len(),
{
    if s.len() == 0 {
        s
    } else if 0 < pat.len() <= s.len() && s.subrange(0, pat.len() as int) == pat {
        rep + replace_all(s.subrange(pat.len() as int, s.len() as int), pat, rep)
    } else {
        seq![s[0]] + replace_all(s.drop_first(), pat, rep)
    }
}

/// The escapes a string literal may hold, replaced one kind after another.
pub open spec fn unescape(t: Seq<char>) -> Seq<char> {
    let a = replace_all(t, seq!['\\', 'r'], seq!['\r']);
    let b = replace_all(a, seq!['\\', 'n'], seq!['\n']);
    let c = replace_all(b, seq!['\\', 't'], seq!['\t']);
    replace_all(c, seq!['\\', 'x', '1', 'b'], seq!['\x1b'])
}

/// A string literal: everything up to the closing quote. One that the source
/// ends in leaves the scanner stuck.
pub open spec fn string(cps: Seq<CP>, s: SState, start: nat) -> SState {
    let (s1, text) = word_rest(cps, s, Class::NotQuote, Seq::empty());
    let s2 = next(cps, s1);
    match s2.current {
        None => SState { stuck: true, ..s2 },
        Some(end) => push(s2, STok::Str(unescape(text)), span_of(cps, start, end)),
    }
}

/// The operator that a character and the one after it make, if any.
pub open spec fn two_char_op(c: char, p: char) -> Option<Seq<char>> {
    if c == '=' && p == '=' {
        Some("=="@)
    } else if c == '!' && p == '=' {
        Some("!="@)
    } else if c == '>' && p == '=' {
        Some(">="@)
    } else if c == '|' && p == '>' {
        Some("|>"@)
    } else if c == '<' && p == '|' {
        Some("<|"@)
    } else if c == '<' && p == '=' {
        Some("<="@)
    } else if c == ':' && p == ':' {
        Some("::"@)
    } else {
        None
    }
}

/// The token that a character makes alone, if any.
pub open spec fn one_char_token(c: char) -> Option<STok> {
    if c == '!' {
        Some(STok::Op("!"@))
    } else if c == '=' {
        Some(STok::Op("="@))
    } else if c == '-' {
        Some(STok::Op("-"@))
    } else if c == '+' {
        Some(STok::Op("+"@))
    } else if c == '*' {
        Some(STok::Op("*"@))
    } else if c == '/' {
        Some(STok::Op("/"@))
    } else if c == '>' {
        Some(STok::Op(">"@))
    } else if c == '<' {
        Some(STok::Op("<"@))
    } else if c == '(' || c == ')' || c == '[' || c == ']' || c == '{' || c == '}' || c == ',' {
        Some(STok::Ctrl(c))
    } else {
        None
    }
}

/// The message for a character that starts no token.
pub open spec fn unknown_msg(c: char) -> Seq<char> {
    "unknown char '"@ + seq![c] + "'"@
}

/// What the scanner does with the character at `i`, just read.
pub open spec fn step(cps: Seq<CP>, s: SState, i: nat) -> SState {
    let c = cps[i as int].0;
    let p = peek_char(cps, s);
    if c == '-' && p == '-' {
        line_comment(cps, s)
    } else if c == '{' && p == '-' {
        block_comment(cps, s, '\0')
    } else if c == '\n' {
        indent(cps, s)
    } else if two_char_op(c, p) is Some {
        let s1 = next(cps, s);
        push(s1, STok::Op(two_char_op(c, p)->0), span_of(cps, i, s.cursor))
    } else if one_char_token(c) is Some {
        push(s, one_char_token(c)->0, span_of(cps, i, i))
    } else if c == '"' {
        string(cps, s, i)
    } else if spec_is_ascii_alphabetic(c) && s.previous == '\n' {
        func(cps, s, i)
    } else if spec_is_ascii_alphabetic(c) {
        identifier(cps, s, i)
    } else if char_is_numeric(c) {
        number(cps, s, i)
    } else if c == ' ' {
        s
    } else {
        SState { errors: s.errors.push((unknown_msg(c), span_of(cps, i, i))), ..s }
    }
}

/// Scanning moves forward and stays within the source.
pub open spec fn forward(cps: Seq<CP>, s: SState, t: SState) -> bool {
    s.cursor <= t.cursor <= cps.len()
}

pub proof fn lemma_line_comment(cps: Seq<CP>, s: SState)
    requires
        s.cursor <= cps.len(),
    ensures
        forward(cps, s, line_comment(cps, s)),
    decreases cps.len() - s.cursor,
{
    let (more, s1) = next_if(cps, s, Class::NotNewline);
    if more {
        lemma_line_comment(cps, s1);
    }
}

pub proof fn lemma_block_comment(cps: Seq<CP>, s: SState, last: char)
    requires
        s.cursor <= cps.len(),
    ensures
        forward(cps, s, block_comment(cps, s, last)),
    decreases cps.len() - s.cursor,
{
    let s1 = next(cps, s);
    if s1.current is Some {
        lemma_block_comment(cps, s1, cps[s1.current->0 as int].0);
    }
}

pub proof fn lemma_spaces(cps: Seq<CP>, s: SState, count: nat, first: nat)
    requires
        s.cursor <= cps.len(),
    ensures
        forward(cps, s, spaces(cps, s, count, first).2),
    decreases cps.len() - s.cursor,
{
    let (more, s1) = next_if(cps, s, Class::Space);
    if more {
        let f = if count == 0 { s.cursor } else { first };
        lemma_spaces(cps, s1, count + 1, f);
    }
}

pub proof fn lemma_dedent_to(s: SState, count: nat, span: SpanV)
    ensures
        dedent_to(s, count, span).cursor == s.cursor,
    decreases s.indent.len(),
{
    if count < top(s.indent) && s.indent.len() > 0 {
        lemma_dedent_to(
            push(SState { indent: s.indent.drop_last(), ..s }, STok::DeDent, span),
            count,
            span,
        );
    }
}

pub proof fn lemma_number_rest(cps: Seq<CP>, k: nat, text: Seq<char>)
    requires
        k <= cps.len(),
    ensures
        k <= number_rest(cps, k, text).0 <= cps.len(),
    decreases cps.len() - k,
{
    if k < cps.len() && (char_is_numeric(cps[k as int].0) || (cps[k as int].0 == '.'
        && !text.contains('.'))) {
        lemma_number_rest(cps, k + 1, text.push(cps[k as int].0));
    }
}

pub proof fn lemma_word_rest(cps: Seq<CP>, s: SState, class: Class, text: Seq<char>)
    requires
        s.cursor <= cps.len(),
    ensures
        forward(cps, s, word_rest(cps, s, class, text).0),
    decreases cps.len() - s.cursor,
{
    let (more, s1) = next_if(cps, s, class);
    if more {
        lemma_word_rest(cps, s1, class, text.push(cps[s.cursor as int].0));
    }
}

/// A step moves forward and stays within the source.
pub proof fn lemma_step(cps: Seq<CP>, s: SState, i: nat)
    requires
        s.cursor <= cps.len(),
        i < cps.len(),
    ensures
        forward(cps, s, step(cps, s, i)),
{
    let c = cps[i as int].0;
    lemma_line_comment(cps, s);
    lemma_block_comment(cps, s, '\0');
    lemma_spaces(cps, s, 0, 0);
    let (count, first, s1) = spaces(cps, s, 0, 0);
    let span = if count > 0 { span_of(cps, first, (first + count - 1) as nat) } else { no_span() };
    lemma_dedent_to(push(SState { indent: s1.indent.drop_last(), ..s1 }, STok::DeDent, span), count, span);
    lemma_number_rest(cps, s.cursor, seq![c]);
    lemma_word_rest(cps, s, Class::Alphanumeric, seq![c]);
    lemma_word_rest(cps, s, Class::Word, seq![c]);
    lemma_word_rest(cps, s, Class::NotQuote, Seq::empty());
}

/// Scanning the rest of the source from a state: each character read is
/// handed to `step`, until the end or a string that the source ends in.
pub open spec fn run(cps: Seq<CP>, s: SState) -> SState
    decreases cps.len() - s.cursor,
{
    if s.stuck || s.cursor > cps.len() {
        s
    } else {
        let s1 = next(cps, s);
        match s1.current {
            None => s1,
            Some(i) => {
                proof {
                    lemma_step(cps, s1, i);
                }
                run(cps, step(cps, s1, i))
            },
        }
    }
}

/// After the last character: open levels closed, a final closing of a level
/// unless the last token is one, and an error for each bracket left open.
pub open spec fn finish(s: SState) -> SState {
    let s1 = unwrap_dedent(s);
    let s2 = if s1.tokens.len() > 0 && !(s1.tokens.last().0 is DeDent) {
        push(s1, STok::DeDent, s1.tokens.last().1)
    } else {
        s1
    };
    SState {
        errors: s2.errors + s2.delims.map_values(|d: (STok, SpanV)| (unclosed_msg(d.0), d.1)),
        ..s2
    }
}

/// The whole scan of a source.
pub open spec fn scan(cps: Seq<CP>) -> SState {
    finish(run(cps, initial()))
}

/// The column and row that the positions give the character at `k`: the row
/// grows at every character but the second, and a new line starts a new
/// column at row 1.
pub open spec fn col_row(src: Seq<char>, k: nat) -> (nat, nat)
    decreases k,
{
    let (c, r) = if k == 0 { (1nat, 1nat) } else { col_row(src, (k - 1) as nat) };
    let r1 = if k != 1 { r + 1 } else { r };
    if src[k as int] == '\n' {
        (c + 1, 1nat)
    } else {
        (c, r1)
    }
}

/// The source characters of `src` in the file `loc`, with their places.
pub open spec fn positions(loc: Seq<char>, src: Seq<char>) -> Seq<CP> {
    Seq::new(
        src.len(),
        |k: int|
            (
                src[k],
                Pos {
                    idx: k as usize,
                    col: col_row(src, k as nat).0 as usize,
                    row: col_row(src, k as nat).1 as usize,
                },
                loc,
            ),
    )
}

} // verus!
