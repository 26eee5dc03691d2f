//! The first generation of the compiler: an indentation-aware lexer that marks
//! blocks with tokens, and a recursive-descent expression parser.
pub mod token;
pub mod lexer;
pub mod lox;
pub mod funcs;
pub mod eval;
