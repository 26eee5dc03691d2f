//! Snow: a small functional language — lexers, parsers, an IR and a
//! WebAssembly encoder, each stated and proved with Verus.
#![allow(unused_imports)]
#![allow(dead_code)]

pub mod position;
pub mod wasm;
pub mod text;
pub mod error;
pub mod legacy;
pub mod front_end;
pub mod scanner;
pub mod ir;
pub mod parser;
pub mod combinators;
pub mod combinator_laws;
pub mod interpreter;
pub mod expr;
