//! The sections of a WebAssembly module.
pub mod _type;
pub mod code;
pub mod data;
pub mod export;
pub mod function;
pub mod header;
pub mod import;
pub mod memory;
pub mod start;
use vstd::prelude::*;
use crate::wasm::leb::{leb, leb_value, write_unsigned, append_bytes, lemma_leb_roundtrip, lemma_leb_len};
use _type::{Type, type_bytes, kinds_bytes};
use code::{Code, code_bytes, blocks_len};
use export::{Export, export_bytes, exports_bytes};
use function::{Function, function_section_bytes};
use header::Header;
use start::{Start, start_bytes};

verus! {

/// A WebAssembly value type.
#[derive(Debug, Clone, Copy, PartialEq, Eq)]
pub enum DataType {
    I32,
    I64,
    F32,
    F64,
}

impl DataType {
    /// The byte that encodes this type.
    pub open spec fn spec_byte(&self) -> u8 {
        match self {
            DataType::I32 => 0x7f,
            DataType::I64 => 0x7e,
            DataType::F32 => 0x7d,
            DataType::F64 => 0x7c,
        }
    }

    /// The byte that encodes this type.
    pub fn to_byte(&self) -> (r: u8)
        ensures
            r == self.spec_byte(),
    {
        match self {
            DataType::I32 => 0x7f,
            DataType::I64 => 0x7e,
            DataType::F32 => 0x7d,
            DataType::F64 => 0x7c,
        }
    }
}

/// A section that can stand in a module's list of sections.
#[derive(Debug, Clone)]
pub enum Section {
    /// 0x00: custom data
    Custom(Header),
    /// 0x01: function signatures
    Type(Type),
    /// 0x03: function indices
    Function(Function),
    /// 0x07: exported items
    Export(Export),
    /// 0x08: the start function
    Start(Start),
    /// 0x0a: function bodies
    Code(Code),
}

impl Section {
    /// The conditions under which this section can be encoded: its recorded
    /// sizes agree with its content and fit in a `usize`.
    pub open spec fn encodable(&self) -> bool {
        match self {
            Section::Custom(_) => true,
            Section::Type(t) => t.wf() && kinds_bytes(t@).len() + 1 <= usize::MAX,
            Section::Function(f) => f@.0.len() + f@.1.len() + 1 <= u64::MAX,
            Section::Export(e) => exports_bytes(e@).len() + 1 <= usize::MAX,
            Section::Start(s) => s.wf(),
            Section::Code(c) => c.wf() && blocks_len(c@) + 1 + c@.len() <= usize::MAX,
        }
    }

    /// The bytes that encode this section.
    pub open spec fn spec_bytes(&self) -> Seq<u8> {
        match self {
            Section::Custom(h) => h.magic_number@ + h.version@,
            Section::Type(t) => type_bytes(t@),
            Section::Function(f) => function_section_bytes(f@.0.len(), f@.1.len()),
            Section::Export(e) => export_bytes(e@),
            Section::Start(s) => start_bytes(s@),
            Section::Code(c) => code_bytes(c@),
        }
    }

    /// Encodes this section.
    pub fn to_bytes(&self) -> (r: Vec<u8>)
        requires
            self.encodable(),
        ensures
            r@ == self.spec_bytes(),
    {
        match self {
            Section::Custom(data) => data.to_bytes(),
            Section::Type(data) => data.to_bytes(),
            Section::Function(data) => data.to_bytes(),
            Section::Export(data) => data.to_bytes(),
            Section::Start(data) => data.to_bytes(),
            Section::Code(data) => data.to_bytes(),
        }
    }
}

impl From<Header> for Section {
    fn from(section: Header) -> Self {
        Section::Custom(section)
    }
}

impl vstd::std_specs::convert::FromSpecImpl<Header> for Section {
    open spec fn obeys_from_spec() -> bool {
        true
    }

    open spec fn from_spec(v: Header) -> Self {
        Section::Custom(v)
    }
}

impl From<Type> for Section {
    fn from(section: Type) -> Self {
        Section::Type(section)
    }
}

impl vstd::std_specs::convert::FromSpecImpl<Type> for Section {
    open spec fn obeys_from_spec() -> bool {
        true
    }

    open spec fn from_spec(v: Type) -> Self {
        Section::Type(v)
    }
}

impl From<Function> for Section {
    fn from(section: Function) -> Self {
        Section::Function(section)
    }
}

impl vstd::std_specs::convert::FromSpecImpl<Function> for Section {
    open spec fn obeys_from_spec() -> bool {
        true
    }

    open spec fn from_spec(v: Function) -> Self {
        Section::Function(v)
    }
}

impl From<Export> for Section {
    fn from(section: Export) -> Self {
        Section::Export(section)
    }
}

impl vstd::std_specs::convert::FromSpecImpl<Export> for Section {
    open spec fn obeys_from_spec() -> bool {
        true
    }

    open spec fn from_spec(v: Export) -> Self {
        Section::Export(v)
    }
}

impl From<Start> for Section {
    fn from(section: Start) -> Self {
        Section::Start(section)
    }
}

impl vstd::std_specs::convert::FromSpecImpl<Start> for Section {
    open spec fn obeys_from_spec() -> bool {
        true
    }

    open spec fn from_spec(v: Start) -> Self {
        Section::Start(v)
    }
}

impl From<Code> for Section {
    fn from(section: Code) -> Self {
        Section::Code(section)
    }
}

impl vstd::std_specs::convert::FromSpecImpl<Code> for Section {
    open spec fn obeys_from_spec() -> bool {
        true
    }

    open spec fn from_spec(v: Code) -> Self {
        Section::Code(v)
    }
}

/// A section held as its raw content.
pub enum WasmSection {
    /// 0x00: name and data
    Custom(Vec<u8>),
    /// 0x01: function signatures
    Type(Vec<u8>),
    /// 0x02: imported functions, tables, ...
    Import(Vec<u8>),
    /// 0x03: function indices
    Function(Vec<u8>),
    /// 0x04: table definitions
    Table(Vec<u8>),
    /// 0x05: memory definitions
    Memory(Vec<u8>),
    /// 0x06: global variables
    Global(Vec<u8>),
    /// 0x07: exported functions, tables, ...
    Export(Vec<u8>),
    /// 0x08: the index of the start function
    Start(Vec<u8>),
    /// 0x09: function table elements
    Element(Vec<u8>),
    /// 0x0A: function bodies
    Code(Vec<u8>),
    /// 0x0B: data that initialises memory
    Data(Vec<u8>),
}

impl View for WasmSection {
    /// The section's id and its content.
    type V = (u8, Seq<u8>);

    open spec fn view(&self) -> (u8, Seq<u8>) {
        match self {
            WasmSection::Custom(d) => (0x00u8, d@),
            WasmSection::Type(d) => (0x01u8, d@),
            WasmSection::Import(d) => (0x02u8, d@),
            WasmSection::Function(d) => (0x03u8, d@),
            WasmSection::Table(d) => (0x04u8, d@),
            WasmSection::Memory(d) => (0x05u8, d@),
            WasmSection::Global(d) => (0x06u8, d@),
            WasmSection::Export(d) => (0x07u8, d@),
            WasmSection::Start(d) => (0x08u8, d@),
            WasmSection::Element(d) => (0x09u8, d@),
            WasmSection::Code(d) => (0x0Au8, d@),
            WasmSection::Data(d) => (0x0Bu8, d@),
        }
    }
}

/// The encoding of a section with id `id` and content `data`: the id, the
/// size of the content, then the content.
pub open spec fn wasm_section_bytes(id: u8, data: Seq<u8>) -> Seq<u8> {
    seq![id] + leb(data.len() as u64) + data
}

impl WasmSection {
    /// Converts the section to bytes, including the section id and its size.
    pub fn to_bytes(&self) -> (r: Vec<u8>)
        ensures
            r@ == wasm_section_bytes(self@.0, self@.1),
    {
        let mut bytes: Vec<u8> = Vec::new();
        let (id, data): (u8, &Vec<u8>) = match self {
            WasmSection::Custom(data) => (0x00, data),
            WasmSection::Type(data) => (0x01, data),
            WasmSection::Import(data) => (0x02, data),
            WasmSection::Function(data) => (0x03, data),
            WasmSection::Table(data) => (0x04, data),
            WasmSection::Memory(data) => (0x05, data),
            WasmSection::Global(data) => (0x06, data),
            WasmSection::Export(data) => (0x07, data),
            WasmSection::Start(data) => (0x08, data),
            WasmSection::Element(data) => (0x09, data),
            WasmSection::Code(data) => (0x0A, data),
            WasmSection::Data(data) => (0x0B, data),
        };
        bytes.push(id);
        write_unsigned(&mut bytes, data.len() as u64);
        append_bytes(&mut bytes, data.as_slice());
        assert(bytes@ =~= wasm_section_bytes(self@.0, self@.1));
        bytes
    }

    /// Constructs a section from its id and its content; ids above 0x0B are
    /// refused.
    pub fn from_bytes(section_id: u8, bytes: Vec<u8>) -> (r: Result<Self, &'static str>)
        ensures
            section_id <= 0x0B ==> (r matches Ok(s) && s@ == (section_id, bytes@)),
            section_id > 0x0B ==> (r matches Err(msg) && msg@ == "Unknown section ID"@),
    {
        match section_id {
            0x00 => Ok(WasmSection::Custom(bytes)),
            0x01 => Ok(WasmSection::Type(bytes)),
            0x02 => Ok(WasmSection::Import(bytes)),
            0x03 => Ok(WasmSection::Function(bytes)),
            0x04 => Ok(WasmSection::Table(bytes)),
            0x05 => Ok(WasmSection::Memory(bytes)),
            0x06 => Ok(WasmSection::Global(bytes)),
            0x07 => Ok(WasmSection::Export(bytes)),
            0x08 => Ok(WasmSection::Start(bytes)),
            0x09 => Ok(WasmSection::Element(bytes)),
            0x0A => Ok(WasmSection::Code(bytes)),
            0x0B => Ok(WasmSection::Data(bytes)),
            _ => Err("Unknown section ID"),
        }
    }
}

/// A section's encoding frames its content: the first byte is the id, then
/// comes a LEB128 number whose value is the content's size and whose last
/// byte alone has its high bit clear, then exactly the content.
pub proof fn law_section_frame(id: u8, data: Seq<u8>)
    requires
        data.len() <= u64::MAX,
    ensures
        ({
            let b = wasm_section_bytes(id, data);
            let k = leb(data.len() as u64).len() as int;
            &&& b[0] == id
            &&& leb_value(b.subrange(1, 1 + k)) == data.len()
            &&& b[k] < 128
            &&& forall|i: int| 1 <= i < k ==> #[trigger] b[i] >= 128
            &&& b.subrange(1 + k, b.len() as int) == data
        }),
{
    let b = wasm_section_bytes(id, data);
    let l = leb(data.len() as u64);
    lemma_leb_roundtrip(data.len() as u64);
    lemma_leb_len(data.len() as u64);
    let k = l.len() as int;
    assert(b.subrange(1, 1 + k) =~= l);
    assert(b.subrange(1 + k, b.len() as int) =~= data);
    assert(b[k] == l[k - 1]);
    assert forall|i: int| 1 <= i < k implies #[trigger] b[i] >= 128 by {
        assert(b[i] == l[i - 1]);
    }
}

} // verus!
