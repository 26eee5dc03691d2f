//! The memory section: the module's linear memories.
use vstd::prelude::*;
use crate::wasm::leb::{leb, write_unsigned, append_bytes};

verus! {

/// The limits of a memory, in pages.
#[derive(Debug, Clone, PartialEq)]
pub enum Page {
    WithMinAndMax(u32, u32),
    WithNoMinimun(u32),
}

impl Page {
    /// The bytes that encode these limits.
    pub open spec fn spec_bytes(&self) -> Seq<u8> {
        match self {
            Page::WithMinAndMax(min, max) => seq![0x01u8] + leb(*min as u64) + leb(*max as u64),
            Page::WithNoMinimun(min) => seq![0x00u8] + leb(*min as u64),
        }
    }

    /// Encodes these limits.
    pub fn to_bytes(&self) -> (r: Vec<u8>)
        ensures
            r@ == self.spec_bytes(),
    {
        let mut bytes: Vec<u8> = Vec::new();
        match self {
            Page::WithMinAndMax(min, max) => {
                bytes.push(0x01);
                write_unsigned(&mut bytes, *min as u64);
                write_unsigned(&mut bytes, *max as u64);
            },
            Page::WithNoMinimun(min) => {
                bytes.push(0x00);
                write_unsigned(&mut bytes, *min as u64);
            },
        }
        assert(bytes@ =~= self.spec_bytes());
        bytes
    }
}

/// The encodings of some memories, one after the other.
pub open spec fn pages_bytes(s: Seq<Page>) -> Seq<u8>
    decreases s.len(),
{
    if s.len() == 0 {
        Seq::empty()
    } else {
        pages_bytes(s.drop_last()) + s.last().spec_bytes()
    }
}

/// The encoding of a memory section holding `pages`.
pub open spec fn memory_bytes(pages: Seq<Page>) -> Seq<u8> {
    seq![0x05u8] + leb((pages_bytes(pages).len() + 1) as u64) + leb(pages.len() as u64)
        + pages_bytes(pages)
}

/// The memory section of a module.
#[derive(Debug, Clone, PartialEq)]
pub struct Memory {
    length: usize,
    pages: Vec<Page>,
}

impl View for Memory {
    type V = Seq<Page>;

    closed spec fn view(&self) -> Seq<Page> {
        self.pages@
    }
}

impl Default for Memory {
    fn default() -> (r: Self)
        ensures
            r.wf(),
            r@ == Seq::<Page>::empty(),
    {
        Memory { length: 0, pages: Vec::new() }
    }
}

impl Memory {
    /// No size is recorded ahead of encoding.
    pub closed spec fn wf(&self) -> bool {
        self.length == 0
    }

    /// Appends a memory.
    pub fn push(&mut self, page: Page)
        requires
            old(self).wf(),
        ensures
            final(self).wf(),
            final(self)@ == old(self)@.push(page),
    {
        self.pages.push(page);
    }

    /// This section with one more memory.
    pub fn with(self, page: Page) -> (r: Self)
        requires
            self.wf(),
        ensures
            r.wf(),
            r@ == self@.push(page),
    {
        let mut s = self;
        s.pages.push(page);
        s
    }

    /// Encodes this section: its id, its size, the number of memories, then
    /// the memories.
    pub fn to_bytes(&self) -> (r: Vec<u8>)
        requires
            self.wf(),
            pages_bytes(self@).len() + 1 <= usize::MAX,
        ensures
            r@ == memory_bytes(self@),
    {
        let mut bytes: Vec<u8> = Vec::new();
        bytes.push(0x05);
        let mut compiled_pages: Vec<u8> = Vec::new();
        let mut i: usize = 0;
        while i < self.pages.len()
            invariant
                i <= self@.len(),
                compiled_pages@ == pages_bytes(self@.subrange(0, i as int)),
            decreases self@.len() - i,
        {
            let page_bytes = self.pages[i].to_bytes();
            append_bytes(&mut compiled_pages, page_bytes.as_slice());
            assert(self@.subrange(0, i + 1).drop_last() =~= self@.subrange(0, i as int));
            i = i + 1;
        }
        assert(self@.subrange(0, i as int) =~= self@);
        // one more byte for the count
        let length = self.length + 1 + compiled_pages.len();
        write_unsigned(&mut bytes, length as u64);
        write_unsigned(&mut bytes, self.pages.len() as u64);
        append_bytes(&mut bytes, compiled_pages.as_slice());
        assert(bytes@ =~= memory_bytes(self@));
        bytes
    }
}

} // verus!
