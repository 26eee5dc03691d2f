//! The export section: what the module offers to its host.
use vstd::prelude::*;
use vstd::utf8::encode_utf8;
use crate::wasm::leb::{leb, write_unsigned, append_bytes};

verus! {

/// What an export refers to.
#[derive(Debug, Clone, Copy, PartialEq, Eq)]
pub enum ExportType {
    Func,
    Table,
    Memory,
    Global,
}

impl ExportType {
    /// The byte that encodes this kind of export.
    pub open spec fn spec_byte(&self) -> u8 {
        match self {
            ExportType::Func => 0x00,
            ExportType::Table => 0x01,
            ExportType::Memory => 0x02,
            ExportType::Global => 0x03,
        }
    }

    /// The byte that encodes this kind of export.
    pub fn to_byte(&self) -> (r: u8)
        ensures
            r == self.spec_byte(),
    {
        match self {
            ExportType::Func => 0x00,
            ExportType::Table => 0x01,
            ExportType::Memory => 0x02,
            ExportType::Global => 0x03,
        }
    }
}

/// The encoding of one export: its name (UTF-8, preceded by its length in
/// bytes), its kind and its index.
pub open spec fn export_entry_bytes(name: Seq<char>, export_type: ExportType, index: u32) -> Seq<u8> {
    leb(encode_utf8(name).len() as u64) + encode_utf8(name) + seq![export_type.spec_byte()] + leb(
        index as u64,
    )
}

/// The encodings of some exports, one after the other.
pub open spec fn exports_bytes(s: Seq<ExportEntry>) -> Seq<u8>
    decreases s.len(),
{
    if s.len() == 0 {
        Seq::empty()
    } else {
        exports_bytes(s.drop_last()) + export_entry_bytes(s.last()@.0, s.last()@.1, s.last()@.2)
    }
}

/// The encoding of an export section holding `exports`.
pub open spec fn export_bytes(exports: Seq<ExportEntry>) -> Seq<u8> {
    seq![0x07u8] + leb((exports_bytes(exports).len() + 1) as u64) + leb(exports.len() as u64)
        + exports_bytes(exports)
}

/// The export section of a module.
#[derive(Debug, Clone, PartialEq)]
pub struct Export {
    exports: Vec<ExportEntry>,
}

/// One export.
#[derive(Debug, Clone, PartialEq)]
pub struct ExportEntry {
    name: String,
    export_type: ExportType,
    index: u32,
}

impl View for ExportEntry {
    type V = (Seq<char>, ExportType, u32);

    closed spec fn view(&self) -> (Seq<char>, ExportType, u32) {
        (self.name@, self.export_type, self.index)
    }
}

impl ExportEntry {
    pub fn new(name: String, export_type: ExportType, index: u32) -> (r: Self)
        ensures
            r@ == (name@, export_type, index),
    {
        Self { name, export_type, index }
    }

    /// The number of bytes that encode this export.
    pub fn len(&self) -> (r: usize)
        ensures
            r == export_entry_bytes(self@.0, self@.1, self@.2).len(),
    {
        self.to_bytes().len()
    }

    /// Encodes this export.
    pub fn to_bytes(&self) -> (r: Vec<u8>)
        ensures
            r@ == export_entry_bytes(self@.0, self@.1, self@.2),
    {
        let mut bytes: Vec<u8> = Vec::new();
        let name_as_bytes = self.name.as_str().as_bytes();
        write_unsigned(&mut bytes, name_as_bytes.len() as u64);
        append_bytes(&mut bytes, name_as_bytes);
        bytes.push(self.export_type.to_byte());
        write_unsigned(&mut bytes, self.index as u64);
        assert(bytes@ =~= export_entry_bytes(self@.0, self@.1, self@.2));
        bytes
    }
}

impl View for Export {
    type V = Seq<ExportEntry>;

    closed spec fn view(&self) -> Seq<ExportEntry> {
        self.exports@
    }
}

impl Default for Export {
    fn default() -> (r: Self)
        ensures
            r@ == Seq::<ExportEntry>::empty(),
    {
        Export { exports: Vec::new() }
    }
}

impl Export {
    /// This section with one more export.
    pub fn with(self, export: ExportEntry) -> (r: Self)
        ensures
            r@ == self@.push(export),
    {
        let mut s = self;
        s.exports.push(export);
        s
    }

    /// Appends an export.
    pub fn push(&mut self, export: ExportEntry)
        ensures
            final(self)@ == old(self)@.push(export),
    {
        self.exports.push(export);
    }

    /// The number of bytes that encode the exports (without the section's id,
    /// size and count).
    pub fn len(&self) -> (r: usize)
        requires
            exports_bytes(self@).len() <= usize::MAX,
        ensures
            r == exports_bytes(self@).len(),
    {
        let mut length: usize = 0;
        let mut i: usize = 0;
        while i < self.exports.len()
            invariant
                i <= self@.len(),
                length == exports_bytes(self@.subrange(0, i as int)).len(),
                exports_bytes(self@).len() <= usize::MAX,
            decreases self@.len() - i,
        {
            proof {
                lemma_exports_bytes_prefix(self@, i + 1);
                assert(self@.subrange(0, i + 1).drop_last() =~= self@.subrange(0, i as int));
            }
            length = length + self.exports[i].len();
            i = i + 1;
        }
        assert(self@.subrange(0, i as int) =~= self@);
        length
    }

    /// Encodes this section: its id, its size, the number of exports, then the
    /// exports.
    pub fn to_bytes(&self) -> (r: Vec<u8>)
        requires
            exports_bytes(self@).len() + 1 <= usize::MAX,
        ensures
            r@ == export_bytes(self@),
    {
        let mut bytes: Vec<u8> = Vec::new();
        bytes.push(0x07);
        // one more byte for the count
        let length = self.len() + 1;
        write_unsigned(&mut bytes, length as u64);
        write_unsigned(&mut bytes, self.exports.len() as u64);
        let ghost head = bytes@;
        let mut i: usize = 0;
        while i < self.exports.len()
            invariant
                i <= self@.len(),
                bytes@ == head + exports_bytes(self@.subrange(0, i as int)),
            decreases self@.len() - i,
        {
            let b = self.exports[i].to_bytes();
            append_bytes(&mut bytes, b.as_slice());
            assert(self@.subrange(0, i + 1).drop_last() =~= self@.subrange(0, i as int));
            i = i + 1;
        }
        assert(self@.subrange(0, i as int) =~= self@);
        assert(bytes@ =~= export_bytes(self@));
        bytes
    }
}

/// The encoding of a prefix of some exports is no longer than that of all.
pub proof fn lemma_exports_bytes_prefix(s: Seq<ExportEntry>, i: int)
    requires
        0 <= i <= s.len(),
    ensures
        exports_bytes(s.subrange(0, i)).len() <= exports_bytes(s).len(),
    decreases s.len() - i,
{
    if i < s.len() {
        lemma_exports_bytes_prefix(s, i + 1);
        assert(s.subrange(0, i + 1).drop_last() =~= s.subrange(0, i));
    } else {
        assert(s.subrange(0, i) =~= s);
    }
}

} // verus!
