//! The import section: the names of what the module takes from its host.
use vstd::prelude::*;
use vstd::utf8::encode_utf8;
use crate::wasm::leb::{leb, write_unsigned, append_bytes};

verus! {

/// What an import refers to.
#[derive(Debug, Clone, Copy, PartialEq, Eq)]
pub enum ImportType {
    Func,
    Table,
    Memory,
    Global,
}

impl ImportType {
    /// The byte that encodes this kind of import.
    pub open spec fn spec_byte(&self) -> u8 {
        match self {
            ImportType::Func => 0x00,
            ImportType::Table => 0x01,
            ImportType::Memory => 0x02,
            ImportType::Global => 0x03,
        }
    }

    /// The byte that encodes this kind of import.
    pub fn to_byte(&self) -> (r: u8)
        ensures
            r == self.spec_byte(),
    {
        match self {
            ImportType::Func => 0x00,
            ImportType::Table => 0x01,
            ImportType::Memory => 0x02,
            ImportType::Global => 0x03,
        }
    }
}

/// The encoding of one import at position `index`: the module's name and the
/// item's name (UTF-8, each preceded by its length in bytes), its kind, and
/// the index.
pub open spec fn import_entry_bytes(
    module: Seq<char>,
    name: Seq<char>,
    import_type: ImportType,
    index: int,
) -> Seq<u8> {
    leb(encode_utf8(module).len() as u64) + encode_utf8(module) + leb(encode_utf8(name).len() as u64)
        + encode_utf8(name) + seq![import_type.spec_byte()] + leb(index as u64)
}

/// The encodings of some imports, each with its position.
pub open spec fn imports_bytes(s: Seq<ImportEntry>) -> Seq<u8>
    decreases s.len(),
{
    if s.len() == 0 {
        Seq::empty()
    } else {
        imports_bytes(s.drop_last()) + import_entry_bytes(
            s.last()@.0,
            s.last()@.1,
            s.last()@.2,
            s.len() - 1,
        )
    }
}

/// The encoding of an import section holding `imports`.
pub open spec fn import_bytes(imports: Seq<ImportEntry>) -> Seq<u8> {
    seq![0x02u8] + leb((imports_bytes(imports).len() + 1) as u64) + leb(imports.len() as u64)
        + imports_bytes(imports)
}

/// The import section. It holds only names; the signature of an imported
/// function goes to the type section, before those of the module's own.
#[derive(Debug, Clone, PartialEq)]
pub struct Import {
    imports: Vec<ImportEntry>,
}

/// One import.
#[derive(Debug, Clone, PartialEq)]
pub struct ImportEntry {
    module: String,
    name: String,
    import_type: ImportType,
}

impl View for ImportEntry {
    type V = (Seq<char>, Seq<char>, ImportType);

    closed spec fn view(&self) -> (Seq<char>, Seq<char>, ImportType) {
        (self.module@, self.name@, self.import_type)
    }
}

impl ImportEntry {
    pub fn new(module: String, name: String, import_type: ImportType) -> (r: Self)
        ensures
            r@ == (module@, name@, import_type),
    {
        Self { module, name, import_type }
    }

    /// Encodes this import as the one at position `index`.
    pub fn to_bytes(&self, index: usize) -> (r: Vec<u8>)
        ensures
            r@ == import_entry_bytes(self@.0, self@.1, self@.2, index as int),
    {
        let mut bytes: Vec<u8> = Vec::new();
        let module = self.module.as_str().as_bytes();
        write_unsigned(&mut bytes, module.len() as u64);
        append_bytes(&mut bytes, module);
        let name = self.name.as_str().as_bytes();
        write_unsigned(&mut bytes, name.len() as u64);
        append_bytes(&mut bytes, name);
        bytes.push(self.import_type.to_byte());
        write_unsigned(&mut bytes, index as u64);
        assert(bytes@ =~= import_entry_bytes(self@.0, self@.1, self@.2, index as int));
        bytes
    }
}

impl View for Import {
    type V = Seq<ImportEntry>;

    closed spec fn view(&self) -> Seq<ImportEntry> {
        self.imports@
    }
}

impl Default for Import {
    fn default() -> (r: Self)
        ensures
            r@ == Seq::<ImportEntry>::empty(),
    {
        Import { imports: Vec::new() }
    }
}

impl Import {
    /// Appends an import.
    pub fn push(&mut self, import: ImportEntry)
        ensures
            final(self)@ == old(self)@.push(import),
    {
        self.imports.push(import)
    }

    /// This section with one more import.
    pub fn with(self, import: ImportEntry) -> (r: Self)
        ensures
            r@ == self@.push(import),
    {
        let mut s = self;
        s.imports.push(import);
        s
    }

    /// Encodes this section: its id, its size, the number of imports, then the
    /// imports.
    pub fn to_bytes(&self) -> (r: Vec<u8>)
        requires
            imports_bytes(self@).len() + 1 <= usize::MAX,
        ensures
            r@ == import_bytes(self@),
    {
        let mut bytes: Vec<u8> = Vec::new();
        bytes.push(0x02);
        let mut entry_bytes: Vec<u8> = Vec::new();
        let mut index: usize = 0;
        while index < self.imports.len()
            invariant
                index <= self@.len(),
                entry_bytes@ == imports_bytes(self@.subrange(0, index as int)),
            decreases self@.len() - index,
        {
            let b = self.imports[index].to_bytes(index);
            append_bytes(&mut entry_bytes, b.as_slice());
            assert(self@.subrange(0, index + 1).drop_last() =~= self@.subrange(0, index as int));
            index = index + 1;
        }
        assert(self@.subrange(0, index as int) =~= self@);
        // one more byte for the count
        let length = 1 + entry_bytes.len();
        write_unsigned(&mut bytes, length as u64);
        write_unsigned(&mut bytes, self.imports.len() as u64);
        append_bytes(&mut bytes, entry_bytes.as_slice());
        assert(bytes@ =~= import_bytes(self@));
        bytes
    }
}

} // verus!
