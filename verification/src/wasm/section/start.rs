//! The start section: the function run when the module is instantiated.
use vstd::prelude::*;
use crate::wasm::leb::{leb, write_unsigned};

verus! {

/// The encoding of a start section naming function `index`.
pub open spec fn start_bytes(index: u32) -> Seq<u8> {
    seq![0x08u8] + leb(1) + leb(index as u64)
}

/// The start section of a module.
#[derive(Debug, Clone, PartialEq)]
pub struct Start {
    length: u32,
    index: u32,
}

impl View for Start {
    /// The index of the start function.
    type V = u32;

    closed spec fn view(&self) -> u32 {
        self.index
    }
}

impl Start {
    /// The size of the section's content is one index.
    pub closed spec fn wf(&self) -> bool {
        self.length == 1
    }

    pub fn new(index: u32) -> (r: Self)
        ensures
            r.wf(),
            r@ == index,
    {
        Self { length: 1, index }
    }

    /// Encodes this section: its id, its size, then the index.
    pub fn to_bytes(&self) -> (r: Vec<u8>)
        requires
            self.wf(),
        ensures
            r@ == start_bytes(self@),
    {
        let mut bytes: Vec<u8> = Vec::new();
        bytes.push(0x08);
        write_unsigned(&mut bytes, self.length as u64);
        write_unsigned(&mut bytes, self.index as u64);
        assert(bytes@ =~= start_bytes(self@));
        bytes
    }
}

} // verus!
