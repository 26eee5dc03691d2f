//! What the third parser's operators are: each is the one that the source
//! text of its token spells.
use vstd::prelude::*;
use super::Operator;
use super::grammar::{binary_operator, prefix_operator};
use super::lexer::{Lexed, lex_step};

verus! {

/// How an operator is written in source.
pub open spec fn operator_text(op: Operator) -> Seq<char> {
    match op {
        Operator::Add => seq!['+'],
        Operator::Sub => seq!['-'],
        Operator::Mul => seq!['*'],
        Operator::Div => seq!['/'],
        Operator::Mod => seq!['%'],
        Operator::And => seq!['a', 'n', 'd'],
        Operator::Or => seq!['o', 'r'],
        Operator::Not => seq!['!'],
        Operator::Equal => seq!['=', '='],
        Operator::NotEqual => seq!['!', '='],
        Operator::GreaterThan => seq!['>'],
        Operator::GreaterThanOrEqual => seq!['>', '='],
        Operator::LessThan => seq!['<'],
        Operator::LessThanOrEqual => seq!['<', '='],
    }
}

/// Wherever the lexer reads a token that starts a binary or a prefix
/// operation, the operator that the parser gives that operation is written
/// exactly as the characters the token was read from.
pub proof fn law_operator_is_its_text(s: Seq<char>, i: int)
    requires
        0 <= i < s.len(),
    ensures
        lex_step(s, i) matches (Lexed::Tok(t), n) ==> {
            &&& binary_operator(Some(t)) matches Some(op) ==> i + 1 + n <= s.len() && operator_text(op)
                == s.subrange(i, i + 1 + n)
            &&& prefix_operator(Some(t)) matches Some(op) ==> i + 1 + n <= s.len() && operator_text(op)
                == s.subrange(i, i + 1 + n)
        },
{
    assert(s.subrange(i, i + 1) =~= seq![s[i]]);
    if i + 1 < s.len() {
        assert(s.subrange(i, i + 2) =~= seq![s[i], s[i + 1]]);
    }
}

} // verus!
