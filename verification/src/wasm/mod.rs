//! A small WebAssembly binary encoder: instructions, sections and modules.
pub mod leb;
pub mod opcode;
pub mod section;
pub mod module;
pub mod emitter;
pub mod laws;
