//! The preamble of a WebAssembly module: the magic number and the version.
use vstd::prelude::*;
use crate::wasm::leb::append_bytes;

verus! {

/// The eight bytes that open a module.
#[derive(Debug, Clone, PartialEq)]
pub struct Header {
    pub magic_number: [u8; 4],
    pub version: [u8; 4],
}

impl Default for Header {
    /// `\0asm`, then version 1.
    fn default() -> (r: Self)
        ensures
            r.magic_number@ == seq![0x00u8, 0x61u8, 0x73u8, 0x6Du8],
            r.version@ == seq![0x01u8, 0x00u8, 0x00u8, 0x00u8],
    {
        let r = Self { magic_number: [0x00, 0x61, 0x73, 0x6D], version: [0x01, 0x00, 0x00, 0x00] };
        assert(r.magic_number@ =~= seq![0x00u8, 0x61u8, 0x73u8, 0x6Du8]);
        assert(r.version@ =~= seq![0x01u8, 0x00u8, 0x00u8, 0x00u8]);
        r
    }
}

impl Header {
    /// The magic number followed by the version.
    pub fn to_bytes(&self) -> (r: Vec<u8>)
        ensures
            r@ == self.magic_number@ + self.version@,
    {
        let mut bytes: Vec<u8> = Vec::new();
        append_bytes(&mut bytes, self.magic_number.as_slice());
        append_bytes(&mut bytes, self.version.as_slice());
        bytes
    }
}

} // verus!
