//! A WebAssembly module under construction, and its encoding.
use vstd::prelude::*;
use vstd::utf8::encode_utf8;
use vstd::slice::slice_to_vec;
use crate::wasm::leb::append_bytes;
use crate::wasm::section::_type::{Type, Kind, kinds_bytes, type_bytes};
use crate::wasm::section::code::{Block, Code, blocks_len, block_len, code_bytes};
use crate::wasm::section::data::{Data, Segment, segments_bytes, data_bytes};
use crate::wasm::section::export::{Export, ExportEntry, exports_bytes, export_bytes};
use crate::wasm::section::function::{Function, function_id, function_section_bytes};
use crate::wasm::section::header::Header;
use crate::wasm::section::import::{Import, ImportEntry, ImportType, imports_bytes, import_bytes};
use crate::wasm::section::memory::{Memory, Page, pages_bytes, memory_bytes};
use crate::wasm::section::start::{Start, start_bytes};

verus! {

/// A module: its header and the sections it has so far.
#[derive(Debug, Clone, PartialEq)]
pub struct Module {
    pub header: Header,
    pub kind: Option<Type>,
    pub imports: Option<Import>,
    pub function: Option<Function>,
    pub memory: Option<Memory>,
    pub export: Option<Export>,
    pub start: Option<Start>,
    pub code: Option<Code>,
    pub data: Option<Data>,
}

impl Default for Module {
    fn default() -> (r: Self)
        ensures
            r.wf(),
            r.header.magic_number@ == seq![0x00u8, 0x61u8, 0x73u8, 0x6Du8],
            r.header.version@ == seq![0x01u8, 0x00u8, 0x00u8, 0x00u8],
            r.kind is None,
            r.imports is None,
            r.function is None,
            r.memory is None,
            r.export is None,
            r.start is None,
            r.code is None,
            r.data is None,
    {
        Module {
            header: Header::default(),
            kind: None,
            imports: None,
            function: None,
            memory: None,
            export: None,
            start: None,
            code: None,
            data: None,
        }
    }
}

/// The signatures a type section holds (none when it is missing).
pub open spec fn types_of(t: Option<Type>) -> Seq<Kind> {
    match t {
        Some(t) => t@,
        None => Seq::empty(),
    }
}

/// The bodies a code section holds (none when it is missing).
pub open spec fn blocks_of(c: Option<Code>) -> Seq<Block> {
    match c {
        Some(c) => c@,
        None => Seq::empty(),
    }
}

/// The names of the imported functions and of the module's own (none when the
/// function section is missing).
pub open spec fn functions_of(f: Option<Function>) -> (Seq<Seq<char>>, Seq<Seq<char>>) {
    match f {
        Some(f) => f@,
        None => (Seq::empty(), Seq::empty()),
    }
}

/// The imports an import section holds (none when it is missing).
pub open spec fn imports_of(i: Option<Import>) -> Seq<ImportEntry> {
    match i {
        Some(i) => i@,
        None => Seq::empty(),
    }
}

/// The exports an export section holds (none when it is missing).
pub open spec fn exports_of(e: Option<Export>) -> Seq<ExportEntry> {
    match e {
        Some(e) => e@,
        None => Seq::empty(),
    }
}

/// The memories a memory section holds (none when it is missing).
pub open spec fn pages_of(m: Option<Memory>) -> Seq<Page> {
    match m {
        Some(m) => m@,
        None => Seq::empty(),
    }
}

/// The segments a data section holds (none when it is missing).
pub open spec fn segments_of(d: Option<Data>) -> Seq<Segment> {
    match d {
        Some(d) => d@,
        None => Seq::empty(),
    }
}

/// The bytes of a section that may be missing.
pub open spec fn opt_bytes<T>(s: Option<T>, f: spec_fn(T) -> Seq<u8>) -> Seq<u8> {
    match s {
        Some(x) => f(x),
        None => Seq::empty(),
    }
}

impl Module {
    /// Every section present keeps its recorded sizes in agreement with its
    /// content.
    pub open spec fn wf(&self) -> bool {
        &&& self.kind matches Some(t) ==> t.wf()
        &&& self.memory matches Some(m) ==> m.wf()
        &&& self.start matches Some(s) ==> s.wf()
        &&& self.code matches Some(c) ==> c.wf()
    }

    /// The sizes that the encoding writes fit in their integer types.
    pub open spec fn encodable(&self) -> bool {
        &&& kinds_bytes(types_of(self.kind)).len() + 1 <= usize::MAX
        &&& imports_bytes(imports_of(self.imports)).len() + 1 <= usize::MAX
        &&& functions_of(self.function).0.len() + functions_of(self.function).1.len() + 1 <= u64::MAX
        &&& pages_bytes(pages_of(self.memory)).len() + 1 <= usize::MAX
        &&& exports_bytes(exports_of(self.export)).len() + 1 <= usize::MAX
        &&& blocks_len(blocks_of(self.code)) + 1 + blocks_of(self.code).len() <= usize::MAX
        &&& segments_bytes(segments_of(self.data)).len() + 1 <= usize::MAX
    }

    /// The encoding of the module: the header, then each section present, in
    /// the order type, import, function, memory, export, start, code, data.
    pub open spec fn spec_bytes(&self) -> Seq<u8> {
        self.header.magic_number@ + self.header.version@
            + opt_bytes(self.kind, |t: Type| type_bytes(t@))
            + opt_bytes(self.imports, |i: Import| import_bytes(i@))
            + opt_bytes(self.function, |f: Function| function_section_bytes(f@.0.len(), f@.1.len()))
            + opt_bytes(self.memory, |m: Memory| memory_bytes(m@))
            + opt_bytes(self.export, |e: Export| export_bytes(e@))
            + opt_bytes(self.start, |s: Start| start_bytes(s@))
            + opt_bytes(self.code, |c: Code| code_bytes(c@))
            + opt_bytes(self.data, |d: Data| data_bytes(d@))
    }

    /// The index of the function `main`.
    pub fn get_main_function_id(&self) -> (r: Option<u32>)
        ensures
            r == function_id(functions_of(self.function).0, functions_of(self.function).1, "main"@),
    {
        self.get_function_id("main")
    }

    /// The index of the function `name`, imported functions first.
    pub fn get_function_id(&self, name: &str) -> (r: Option<u32>)
        ensures
            r == function_id(functions_of(self.function).0, functions_of(self.function).1, name@),
    {
        match &self.function {
            Some(function) => function.get_id(name),
            None => {
                proof {
                    crate::wasm::section::function::lemma_first_index_empty(name@);
                }
                None
            },
        }
    }

    /// Exports an item.
    pub fn export(&mut self, entry: ExportEntry)
        ensures
            final(self).export is Some,
            exports_of(final(self).export) == exports_of(old(self).export).push(entry),
            final(self).header == old(self).header,
            final(self).kind == old(self).kind,
            final(self).imports == old(self).imports,
            final(self).function == old(self).function,
            final(self).memory == old(self).memory,
            final(self).start == old(self).start,
            final(self).code == old(self).code,
            final(self).data == old(self).data,
    {
        match self.export.take() {
            Some(mut export) => {
                export.push(entry);
                self.export = Some(export);
            },
            None => {
                let mut export = Export::default();
                export.push(entry);
                self.export = Some(export);
            },
        }
    }

    /// Names the function run at instantiation; there can be only one.
    pub fn set_start(&mut self, id: u32)
        requires
            old(self).start is None,
        ensures
            final(self).start matches Some(s) && s.wf() && s@ == id,
            final(self).header == old(self).header,
            final(self).kind == old(self).kind,
            final(self).imports == old(self).imports,
            final(self).function == old(self).function,
            final(self).memory == old(self).memory,
            final(self).export == old(self).export,
            final(self).code == old(self).code,
            final(self).data == old(self).data,
    {
        self.start = Some(Start::new(id));
    }

    /// Adds a data segment.
    pub fn add_data(&mut self, segment: Segment)
        ensures
            final(self).data is Some,
            segments_of(final(self).data) == segments_of(old(self).data).push(segment),
            final(self).header == old(self).header,
            final(self).kind == old(self).kind,
            final(self).imports == old(self).imports,
            final(self).function == old(self).function,
            final(self).memory == old(self).memory,
            final(self).export == old(self).export,
            final(self).start == old(self).start,
            final(self).code == old(self).code,
    {
        match self.data.take() {
            Some(mut data) => {
                data.push(segment);
                self.data = Some(data);
            },
            None => {
                let mut data = Data::default();
                data.push(segment);
                self.data = Some(data);
            },
        }
    }

    /// Stores the UTF-8 bytes of `string` in the last data segment (in a new
    /// one if there is none) and returns where they start in that segment.
    pub fn add_string(&mut self, string: &str) -> (r: u32)
        ensures
            final(self).data is Some,
            segments_of(old(self).data).len() == 0 ==> {
                &&& segments_of(final(self).data).len() == 1
                &&& segments_of(final(self).data)[0]@ == (0u32, Seq::<crate::wasm::opcode::Instruction>::empty(), encode_utf8(string@))
                &&& r == 0
            },
            segments_of(old(self).data).len() > 0 ==> {
                let old_segs = segments_of(old(self).data);
                let new_segs = segments_of(final(self).data);
                &&& new_segs.len() == old_segs.len()
                &&& new_segs.drop_last() == old_segs.drop_last()
                &&& new_segs.last()@ == (old_segs.last()@.0, old_segs.last()@.1, old_segs.last()@.2 + encode_utf8(string@))
                &&& r == old_segs.last()@.2.len() as u32
            },
            final(self).header == old(self).header,
            final(self).kind == old(self).kind,
            final(self).imports == old(self).imports,
            final(self).function == old(self).function,
            final(self).memory == old(self).memory,
            final(self).export == old(self).export,
            final(self).start == old(self).start,
            final(self).code == old(self).code,
    {
        let bytes = slice_to_vec(string.as_bytes());
        match self.data.take() {
            Some(mut data) => {
                let r = data.push_data(bytes);
                self.data = Some(data);
                r
            },
            None => {
                let mut data = Data::default();
                data.push_data(bytes);
                self.data = Some(data);
                0
            },
        }
    }

    /// Adds a memory.
    pub fn add_memory(&mut self, page: Page)
        requires
            old(self).wf(),
        ensures
            final(self).wf(),
            final(self).memory is Some,
            pages_of(final(self).memory) == pages_of(old(self).memory).push(page),
            final(self).header == old(self).header,
            final(self).kind == old(self).kind,
            final(self).imports == old(self).imports,
            final(self).function == old(self).function,
            final(self).export == old(self).export,
            final(self).start == old(self).start,
            final(self).code == old(self).code,
            final(self).data == old(self).data,
    {
        match self.memory.take() {
            Some(mut memory) => {
                memory.push(page);
                self.memory = Some(memory);
            },
            None => {
                let mut memory = Memory::default();
                memory.push(page);
                self.memory = Some(memory);
            },
        }
    }

    /// Adds a function body.
    pub fn add_code(&mut self, block: Block)
        requires
            old(self).wf(),
            blocks_len(blocks_of(old(self).code)) + block_len(block@) <= usize::MAX,
        ensures
            final(self).wf(),
            final(self).code is Some,
            blocks_of(final(self).code) == blocks_of(old(self).code).push(block),
            final(self).header == old(self).header,
            final(self).kind == old(self).kind,
            final(self).imports == old(self).imports,
            final(self).function == old(self).function,
            final(self).memory == old(self).memory,
            final(self).export == old(self).export,
            final(self).start == old(self).start,
            final(self).data == old(self).data,
    {
        match self.code.take() {
            Some(mut code) => {
                code.push(block);
                self.code = Some(code);
            },
            None => {
                let mut code = Code::default();
                code.push(block);
                self.code = Some(code);
            },
        }
    }

    /// Adds a function of the module's own: its name, its signature and its
    /// body.
    pub fn add_function(&mut self, name: String, definition: Kind, block: Block)
        requires
            old(self).wf(),
            kinds_bytes(types_of(old(self).kind)).len() + definition.spec_bytes().len() <= usize::MAX,
            blocks_len(blocks_of(old(self).code)) + block_len(block@) <= usize::MAX,
        ensures
            final(self).wf(),
            final(self).function is Some,
            final(self).kind is Some,
            final(self).code is Some,
            functions_of(final(self).function) == (
                functions_of(old(self).function).0,
                functions_of(old(self).function).1.push(name@),
            ),
            types_of(final(self).kind) == types_of(old(self).kind).push(definition),
            blocks_of(final(self).code) == blocks_of(old(self).code).push(block),
            final(self).header == old(self).header,
            final(self).imports == old(self).imports,
            final(self).memory == old(self).memory,
            final(self).export == old(self).export,
            final(self).start == old(self).start,
            final(self).data == old(self).data,
    {
        match self.function.take() {
            Some(mut function) => {
                function.add_function(name);
                self.function = Some(function);
            },
            None => {
                let mut function = Function::default();
                function.add_function(name);
                self.function = Some(function);
            },
        }
        self.add_type(definition);
        self.add_code(block);
    }

    /// Adds a signature to the type section.
    fn add_type(&mut self, definition: Kind)
        requires
            old(self).wf(),
            kinds_bytes(types_of(old(self).kind)).len() + definition.spec_bytes().len() <= usize::MAX,
        ensures
            final(self).wf(),
            final(self).kind is Some,
            types_of(final(self).kind) == types_of(old(self).kind).push(definition),
            final(self).header == old(self).header,
            final(self).imports == old(self).imports,
            final(self).function == old(self).function,
            final(self).memory == old(self).memory,
            final(self).export == old(self).export,
            final(self).start == old(self).start,
            final(self).code == old(self).code,
            final(self).data == old(self).data,
    {
        match self.kind.take() {
            Some(mut kind) => {
                kind.push(definition);
                self.kind = Some(kind);
            },
            None => {
                let mut kind = Type::default();
                kind.push(definition);
                self.kind = Some(kind);
            },
        }
    }

    /// Records the name of an imported function.
    pub fn add_imported_function(&mut self, name: String)
        ensures
            final(self).function is Some,
            functions_of(final(self).function) == (
                functions_of(old(self).function).0.push(name@),
                functions_of(old(self).function).1,
            ),
            final(self).header == old(self).header,
            final(self).kind == old(self).kind,
            final(self).imports == old(self).imports,
            final(self).memory == old(self).memory,
            final(self).export == old(self).export,
            final(self).start == old(self).start,
            final(self).code == old(self).code,
            final(self).data == old(self).data,
    {
        match self.function.take() {
            Some(mut function) => {
                function.add_imported_function(name);
                self.function = Some(function);
            },
            None => {
                let mut function = Function::default();
                function.add_imported_function(name);
                self.function = Some(function);
            },
        }
    }

    /// Imports a function `name` from the host module `module`: its name goes
    /// to the import section and to the imported functions, its signature to
    /// the type section.
    pub fn import(&mut self, module: String, name: String, kind: Kind)
        requires
            old(self).wf(),
            kinds_bytes(types_of(old(self).kind)).len() + kind.spec_bytes().len() <= usize::MAX,
        ensures
            final(self).wf(),
            final(self).imports is Some,
            final(self).function is Some,
            final(self).kind is Some,
            imports_of(final(self).imports).len() == imports_of(old(self).imports).len() + 1,
            imports_of(final(self).imports).drop_last() == imports_of(old(self).imports),
            imports_of(final(self).imports).last()@ == (module@, name@, ImportType::Func),
            functions_of(final(self).function) == (
                functions_of(old(self).function).0.push(name@),
                functions_of(old(self).function).1,
            ),
            types_of(final(self).kind) == types_of(old(self).kind).push(kind),
            final(self).header == old(self).header,
            final(self).memory == old(self).memory,
            final(self).export == old(self).export,
            final(self).start == old(self).start,
            final(self).code == old(self).code,
            final(self).data == old(self).data,
    {
        let entry_type = match &kind {
            Kind::Function(_) => {
                self.add_imported_function(name.clone());
                ImportType::Func
            },
        };
        let entry = ImportEntry::new(module, name, entry_type);
        match self.imports.take() {
            Some(mut imports) => {
                imports.push(entry);
                self.imports = Some(imports);
                self.add_type(kind);
            },
            None => {
                let mut imports = Import::default();
                imports.push(entry);
                self.imports = Some(imports);
                self.add_type(kind);
            },
        }
    }

    /// Encodes the module.
    pub fn to_bytes(&self) -> (r: Vec<u8>)
        requires
            self.wf(),
            self.encodable(),
        ensures
            r@ == self.spec_bytes(),
    {
        let mut bytes: Vec<u8> = Vec::new();
        let h = self.header.to_bytes();
        append_bytes(&mut bytes, h.as_slice());
        if let Some(kind) = &self.kind {
            let b = kind.to_bytes();
            append_bytes(&mut bytes, b.as_slice());
        }
        if let Some(imports) = &self.imports {
            let b = imports.to_bytes();
            append_bytes(&mut bytes, b.as_slice());
        }
        if let Some(function) = &self.function {
            let b = function.to_bytes();
            append_bytes(&mut bytes, b.as_slice());
        }
        if let Some(memory) = &self.memory {
            let b = memory.to_bytes();
            append_bytes(&mut bytes, b.as_slice());
        }
        if let Some(export) = &self.export {
            let b = export.to_bytes();
            append_bytes(&mut bytes, b.as_slice());
        }
        if let Some(start) = &self.start {
            let b = start.to_bytes();
            append_bytes(&mut bytes, b.as_slice());
        }
        if let Some(code) = &self.code {
            let b = code.to_bytes();
            append_bytes(&mut bytes, b.as_slice());
        }
        if let Some(data) = &self.data {
            let b = data.to_bytes();
            append_bytes(&mut bytes, b.as_slice());
        }
        assert(bytes@ =~= self.spec_bytes());
        bytes
    }
}

} // verus!
