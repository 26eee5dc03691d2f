//! The intermediate representation between the syntax tree and WebAssembly.
pub mod code;
pub mod emitter;
pub mod repr;

pub use emitter::Emitter;
