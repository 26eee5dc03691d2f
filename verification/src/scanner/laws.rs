//! What holds of every scan: each indentation level opened is closed, and a
//! scan that gives tokens ends with a closing of a level.
use vstd::prelude::*;
use crate::scanner::KeyWord;
use super::model::{
    STok, SpanV, SState, CP, Class, next, next_if, peek_char, push, line_comment, block_comment,
    spaces, top, dedent_to, indent, last_span, dedent_n, unwrap_dedent, number_rest, word_rest,
    end_of, reserved_msg, keyword_of, keyword_text, unescape, two_char_op, one_char_token, step, run, scan,
    initial, span_of, no_span, lemma_step,
};

verus! {

/// How many tokens open a level.
pub open spec fn indents(ts: Seq<(STok, SpanV)>) -> nat
    decreases ts.len(),
{
    if ts.len() == 0 {
        0
    } else {
        indents(ts.drop_last()) + if ts.last().0 is InDent { 1nat } else { 0nat }
    }
}

/// How many tokens close a level.
pub open spec fn dedents(ts: Seq<(STok, SpanV)>) -> nat
    decreases ts.len(),
{
    if ts.len() == 0 {
        0
    } else {
        dedents(ts.drop_last()) + if ts.last().0 is DeDent { 1nat } else { 0nat }
    }
}

/// The levels opened so far are those closed and those still open.
pub open spec fn balanced(s: SState) -> bool {
    indents(s.tokens) == dedents(s.tokens) + s.indent.len()
}

/// Whether a token neither opens nor closes a level.
pub open spec fn plain(t: STok) -> bool {
    !(t is InDent) && !(t is DeDent)
}

proof fn lemma_push_counts(s: SState, t: STok, span: SpanV)
    ensures
        push(s, t, span).tokens == s.tokens.push((t, span)),
        push(s, t, span).indent == s.indent,
        push(s, t, span).cursor == s.cursor,
        indents(s.tokens.push((t, span))) == indents(s.tokens) + if t is InDent { 1nat } else { 0nat },
        dedents(s.tokens.push((t, span))) == dedents(s.tokens) + if t is DeDent { 1nat } else { 0nat },
{
    assert(s.tokens.push((t, span)).drop_last() =~= s.tokens);
}

proof fn lemma_line_comment_keeps(cps: Seq<CP>, s: SState)
    ensures
        line_comment(cps, s).tokens == s.tokens,
        line_comment(cps, s).indent == s.indent,
    decreases cps.len() - s.cursor,
{
    let (more, s1) = next_if(cps, s, Class::NotNewline);
    if more {
        lemma_line_comment_keeps(cps, s1);
    }
}

proof fn lemma_block_comment_keeps(cps: Seq<CP>, s: SState, last: char)
    ensures
        block_comment(cps, s, last).tokens == s.tokens,
        block_comment(cps, s, last).indent == s.indent,
    decreases cps.len() - s.cursor,
{
    let s1 = next(cps, s);
    if s1.current is Some {
        lemma_block_comment_keeps(cps, s1, cps[s1.current->0 as int].0);
    }
}

proof fn lemma_spaces_keeps(cps: Seq<CP>, s: SState, count: nat, first: nat)
    ensures
        spaces(cps, s, count, first).2.tokens == s.tokens,
        spaces(cps, s, count, first).2.indent == s.indent,
    decreases cps.len() - s.cursor,
{
    let (more, s1) = next_if(cps, s, Class::Space);
    if more {
        let f = if count == 0 { s.cursor } else { first };
        lemma_spaces_keeps(cps, s1, count + 1, f);
    }
}

proof fn lemma_word_rest_keeps(cps: Seq<CP>, s: SState, class: Class, text: Seq<char>)
    ensures
        word_rest(cps, s, class, text).0.tokens == s.tokens,
        word_rest(cps, s, class, text).0.indent == s.indent,
    decreases cps.len() - s.cursor,
{
    let (more, s1) = next_if(cps, s, class);
    if more {
        lemma_word_rest_keeps(cps, s1, class, text.push(cps[s.cursor as int].0));
    }
}

proof fn lemma_dedent_to_balanced(s: SState, count: nat, span: SpanV)
    requires
        balanced(s),
    ensures
        balanced(dedent_to(s, count, span)),
    decreases s.indent.len(),
{
    if count < top(s.indent) && s.indent.len() > 0 {
        let s1 = SState { indent: s.indent.drop_last(), ..s };
        lemma_push_counts(s1, STok::DeDent, span);
        lemma_dedent_to_balanced(push(s1, STok::DeDent, span), count, span);
    }
}

proof fn lemma_indent_balanced(cps: Seq<CP>, s: SState)
    requires
        balanced(s),
    ensures
        balanced(indent(cps, s)),
{
    lemma_spaces_keeps(cps, s, 0, 0);
    let (count, first, s1) = spaces(cps, s, 0, 0);
    let span = if count > 0 { span_of(cps, first, (first + count - 1) as nat) } else { no_span() };
    let t = top(s1.indent);
    if count > t {
        lemma_push_counts(SState { indent: s1.indent.push(count), ..s1 }, STok::InDent, span);
    } else if count < t {
        let s1b = SState { indent: s1.indent.drop_last(), ..s1 };
        lemma_push_counts(s1b, STok::DeDent, span);
        lemma_dedent_to_balanced(push(s1b, STok::DeDent, span), count, span);
    }
}

proof fn lemma_step_balanced(cps: Seq<CP>, s: SState, i: nat)
    requires
        balanced(s),
        i < cps.len(),
    ensures
        balanced(step(cps, s, i)),
{
    let c = cps[i as int].0;
    let p = peek_char(cps, s);
    lemma_line_comment_keeps(cps, s);
    lemma_block_comment_keeps(cps, s, '\0');
    lemma_indent_balanced(cps, s);
    if two_char_op(c, p) is Some {
        lemma_push_counts(next(cps, s), STok::Op(two_char_op(c, p)->0), span_of(cps, i, s.cursor));
    }
    if one_char_token(c) is Some {
        lemma_push_counts(s, one_char_token(c)->0, span_of(cps, i, i));
    }
    lemma_word_rest_keeps(cps, s, Class::NotQuote, Seq::empty());
    let (s1, text) = word_rest(cps, s, Class::NotQuote, Seq::empty());
    let s2 = next(cps, s1);
    if s2.current is Some {
        lemma_push_counts(s2, STok::Str(unescape(text)), span_of(cps, i, s2.current->0));
    }
    lemma_word_rest_keeps(cps, s, Class::Alphanumeric, seq![c]);
    let (f1, w) = word_rest(cps, s, Class::Alphanumeric, seq![c]);
    let fspan = span_of(cps, i, end_of(f1, i));
    let f2 = if keyword_of(w) is Some {
        SState { errors: f1.errors.push((reserved_msg(w), fspan)), ..f1 }
    } else {
        f1
    };
    lemma_push_counts(f2, STok::Fn(w), fspan);
    lemma_word_rest_keeps(cps, s, Class::Word, seq![c]);
    let (d1, wd) = word_rest(cps, s, Class::Word, seq![c]);
    let dt = match keyword_of(wd) {
        Some(k) => STok::KeyWord(k),
        None => STok::Id(wd),
    };
    lemma_push_counts(d1, dt, span_of(cps, i, end_of(d1, i)));
    let (k, ntext) = number_rest(cps, s.cursor, seq![c]);
    let nend = if k > s.cursor { (k - 1) as nat } else { i };
    let nt = if ntext.contains('.') { STok::Float(ntext) } else { STok::Int(ntext) };
    lemma_push_counts(SState { cursor: k, ..s }, nt, span_of(cps, i, nend));
}

proof fn lemma_run_balanced(cps: Seq<CP>, s: SState)
    requires
        balanced(s),
    ensures
        balanced(run(cps, s)),
    decreases cps.len() - s.cursor,
{
    if !(s.stuck || s.cursor > cps.len()) {
        let s1 = next(cps, s);
        if let Some(i) = s1.current {
            lemma_step(cps, s1, i);
            lemma_step_balanced(cps, s1, i);
            lemma_run_balanced(cps, step(cps, s1, i));
        }
    }
}

proof fn lemma_dedent_n(s: SState, n: nat)
    ensures
        indents(dedent_n(s, n).tokens) == indents(s.tokens),
        dedents(dedent_n(s, n).tokens) == dedents(s.tokens) + n,
        dedent_n(s, n).tokens.len() >= s.tokens.len(),
        n > 0 ==> dedent_n(s, n).tokens.last().0 is DeDent,
        n == 0 ==> dedent_n(s, n).tokens == s.tokens,
    decreases n,
{
    if n > 0 {
        lemma_push_counts(s, STok::DeDent, last_span(s));
        lemma_dedent_n(push(s, STok::DeDent, last_span(s)), (n - 1) as nat);
        if n - 1 == 0 {
            assert(dedent_n(s, n).tokens == push(s, STok::DeDent, last_span(s)).tokens);
        }
    }
}

/// Every indentation level that a scan opens, it closes: the closings are as
/// many as the openings, or one more.
pub proof fn law_levels_closed(cps: Seq<CP>)
    ensures
        indents(scan(cps).tokens) <= dedents(scan(cps).tokens) <= indents(scan(cps).tokens) + 1,
{
    assert(initial().tokens =~= Seq::<(STok, SpanV)>::empty());
    lemma_run_balanced(cps, initial());
    let s = run(cps, initial());
    lemma_dedent_n(s, s.indent.len());
    let s1 = unwrap_dedent(s);
    if s1.tokens.len() > 0 && !(s1.tokens.last().0 is DeDent) {
        lemma_push_counts(s1, STok::DeDent, s1.tokens.last().1);
    }
}

/// A scan that gives tokens ends with a closing of a level.
pub proof fn law_ends_with_dedent(cps: Seq<CP>)
    ensures
        scan(cps).tokens.len() > 0 ==> scan(cps).tokens.last().0 is DeDent,
{
    let s = run(cps, initial());
    let s1 = unwrap_dedent(s);
    if s1.tokens.len() > 0 && !(s1.tokens.last().0 is DeDent) {
        lemma_push_counts(s1, STok::DeDent, s1.tokens.last().1);
    }
}

/// A two-character operator is written exactly as the two characters it is
/// read from.
pub proof fn law_two_char_op_text(c: char, p: char)
    ensures
        two_char_op(c, p) matches Some(s) ==> s == seq![c, p],
{
    reveal_strlit("==");
    reveal_strlit("!=");
    reveal_strlit(">=");
    reveal_strlit("|>");
    reveal_strlit("<|");
    reveal_strlit("<=");
    reveal_strlit("::");
    if let Some(s) = two_char_op(c, p) {
        assert(s =~= seq![c, p]);
    }
}

/// A one-character operator is written exactly as the character it is read
/// from, and a bracket or comma is that character.
pub proof fn law_one_char_token_text(c: char)
    ensures
        one_char_token(c) matches Some(STok::Op(s)) ==> s == seq![c],
        one_char_token(c) matches Some(STok::Ctrl(d)) ==> d == c,
{
    reveal_strlit("!");
    reveal_strlit("=");
    reveal_strlit("-");
    reveal_strlit("+");
    reveal_strlit("*");
    reveal_strlit("/");
    reveal_strlit(">");
    reveal_strlit("<");
    if let Some(STok::Op(s)) = one_char_token(c) {
        assert(s =~= seq![c]);
    }
}

/// A word is read as the keyword that is written as that word, and each
/// keyword's text is read back as that keyword.
pub proof fn law_keyword_round_trip(w: Seq<char>, k: KeyWord)
    ensures
        keyword_of(w) matches Some(j) ==> keyword_text(j) == w,
        keyword_of(keyword_text(k)) == Some(k),
{
    reveal_strlit("True");
    reveal_strlit("False");
    reveal_strlit("return");
    reveal_strlit("let");
    reveal_strlit("in");
    reveal_strlit("and");
    reveal_strlit("or");
    reveal_strlit("not");
    reveal_strlit("if");
    reveal_strlit("then");
    reveal_strlit("else");
    reveal_strlit("do");
    reveal_strlit("print");
    reveal_strlit("println");
    reveal_strlit("dbg_int");
    let t = keyword_text(k);
    assert(t.len() > 0);
    if k != KeyWord::True {
        assert(t != "True"@) by {
            if t.len() == 4 {
                assert(t[0] != 'T');
            }
        }
    }
    if k != KeyWord::False {
        assert(t != "False"@) by {
            if t.len() == 5 {
                assert(t[0] != 'F');
            }
        }
    }
    if k != KeyWord::Return {
        assert(t != "return"@) by {
            if t.len() == 6 {
                assert(t[0] != 'r');
            }
        }
    }
    if k != KeyWord::Let {
        assert(t != "let"@) by {
            if t.len() == 3 {
                assert(t[0] != 'l');
            }
        }
    }
    if k != KeyWord::In {
        assert(t != "in"@) by {
            if t.len() == 2 {
                assert(t[0] != 'i' || t[1] != 'n');
            }
        }
    }
    if k != KeyWord::And {
        assert(t != "and"@) by {
            if t.len() == 3 {
                assert(t[0] != 'a');
            }
        }
    }
    if k != KeyWord::Or {
        assert(t != "or"@) by {
            if t.len() == 2 {
                assert(t[0] != 'o');
            }
        }
    }
    if k != KeyWord::Not {
        assert(t != "not"@) by {
            if t.len() == 3 {
                assert(t[0] != 'n');
            }
        }
    }
    if k != KeyWord::If {
        assert(t != "if"@) by {
            if t.len() == 2 {
                assert(t[0] != 'i' || t[1] != 'f');
            }
        }
    }
    if k != KeyWord::Then {
        assert(t != "then"@) by {
            if t.len() == 4 {
                assert(t[0] != 't');
            }
        }
    }
    if k != KeyWord::Else {
        assert(t != "else"@) by {
            if t.len() == 4 {
                assert(t[0] != 'e');
            }
        }
    }
    if k != KeyWord::Do {
        assert(t != "do"@) by {
            if t.len() == 2 {
                assert(t[0] != 'd');
            }
        }
    }
    if k != KeyWord::Print {
        assert(t != "print"@) by {
            if t.len() == 5 {
                assert(t[0] != 'p');
            }
        }
    }
    if k != KeyWord::PrintLn {
        assert(t != "println"@) by {
            if t.len() == 7 {
                assert(t[0] != 'p');
            }
        }
    }
    if k != KeyWord::DbgInt {
        assert(t != "dbg_int"@) by {
            if t.len() == 7 {
                assert(t[0] != 'd');
            }
        }
    }
}

} // verus!
