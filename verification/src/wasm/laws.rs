//! Laws of the WebAssembly encoder: how function indices follow the functions
//! added, and when a section's declared size is the size of its content.
use vstd::prelude::*;
use crate::wasm::leb::{leb, lemma_leb_len};
use crate::wasm::section::_type::{Kind, type_bytes, kinds_bytes};
use crate::wasm::section::code::{Block, code_bytes, blocks_len, blocks_bytes, block_len, block_bytes};
use crate::wasm::section::data::{Segment, data_bytes, segments_bytes};
use crate::wasm::section::export::{ExportEntry, export_bytes, exports_bytes};
use crate::wasm::section::function::{
    first_index, function_id, function_section_bytes, ids_bytes, lemma_first_index_push,
};
use crate::wasm::section::import::{ImportEntry, import_bytes, imports_bytes};
use crate::wasm::section::memory::{Page, memory_bytes, pages_bytes};
use crate::wasm::section::start::start_bytes;
use crate::wasm::opcode::Instruction;
use crate::wasm::module::Module;
use crate::wasm::section::start::Start;
use crate::wasm::section::code::Code;
use crate::wasm::section::data::Data;
use crate::wasm::section::export::Export;
use crate::wasm::section::_type::Type;
use crate::wasm::section::import::Import;
use crate::wasm::section::memory::Memory;
use crate::wasm::section::function::Function;

verus! {

/// After a function `name` is added to a module, looking `name` up finds it:
/// at its former index if the name was already known, else at the index that
/// follows all imported functions and all functions added before.
pub proof fn law_added_function_is_found(imported: Seq<Seq<char>>, functions: Seq<Seq<char>>, name: Seq<char>)
    ensures
        function_id(imported, functions.push(name), name) == match function_id(imported, functions, name) {
            Some(i) => Some(i),
            None => Some((imported.len() + functions.len()) as u32),
        },
{
    lemma_first_index_push(functions, name, name);
}

/// After a function `name` is imported, looking `name` up finds the first
/// imported function of that name: the new one unless an earlier import had
/// it.
pub proof fn law_imported_function_is_found(imported: Seq<Seq<char>>, functions: Seq<Seq<char>>, name: Seq<char>)
    ensures
        function_id(imported.push(name), functions, name) == match first_index(imported, name) {
            Some(i) => Some(i as u32),
            None => Some(imported.len() as u32),
        },
{
    lemma_first_index_push(imported, name, name);
}

/// Adding a function or an import does not move the functions found before:
/// a name found before is found at the same index afterwards, unless an
/// import of that name is added ahead of the module's own functions.
pub proof fn law_adding_function_keeps_ids(
    imported: Seq<Seq<char>>,
    functions: Seq<Seq<char>>,
    name: Seq<char>,
    other: Seq<char>,
)
    requires
        function_id(imported, functions, other) is Some,
    ensures
        function_id(imported, functions.push(name), other) == function_id(imported, functions, other),
{
    lemma_first_index_push(functions, name, other);
}

/// The declared size of a type section is the size of what follows it, when
/// the section holds fewer than 128 signatures.
pub proof fn law_type_section_size(types: Seq<Kind>)
    requires
        types.len() < 128,
        kinds_bytes(types).len() + 1 <= u64::MAX,
    ensures
        ({
            let declared = kinds_bytes(types).len() + 1;
            type_bytes(types).len() == 1 + leb(declared as u64).len() + declared
        }),
{
    lemma_leb_len(types.len() as u64);
}

/// The declared size of an import section is the size of what follows it,
/// when the section holds fewer than 128 imports.
pub proof fn law_import_section_size(imports: Seq<ImportEntry>)
    requires
        imports.len() < 128,
        imports_bytes(imports).len() + 1 <= u64::MAX,
    ensures
        ({
            let declared = imports_bytes(imports).len() + 1;
            import_bytes(imports).len() == 1 + leb(declared as u64).len() + declared
        }),
{
    lemma_leb_len(imports.len() as u64);
}

/// The declared size of an export section is the size of what follows it,
/// when the section holds fewer than 128 exports.
pub proof fn law_export_section_size(exports: Seq<ExportEntry>)
    requires
        exports.len() < 128,
        exports_bytes(exports).len() + 1 <= u64::MAX,
    ensures
        ({
            let declared = exports_bytes(exports).len() + 1;
            export_bytes(exports).len() == 1 + leb(declared as u64).len() + declared
        }),
{
    lemma_leb_len(exports.len() as u64);
}

/// The declared size of a data section is the size of what follows it, when
/// the section holds fewer than 128 segments.
pub proof fn law_data_section_size(segments: Seq<Segment>)
    requires
        segments.len() < 128,
        segments_bytes(segments).len() + 1 <= u64::MAX,
    ensures
        ({
            let declared = segments_bytes(segments).len() + 1;
            data_bytes(segments).len() == 1 + leb(declared as u64).len() + declared
        }),
{
    lemma_leb_len(segments.len() as u64);
}

/// The declared size of a memory section is the size of what follows it, when
/// the section holds fewer than 128 memories.
pub proof fn law_memory_section_size(pages: Seq<Page>)
    requires
        pages.len() < 128,
        pages_bytes(pages).len() + 1 <= u64::MAX,
    ensures
        ({
            let declared = pages_bytes(pages).len() + 1;
            memory_bytes(pages).len() == 1 + leb(declared as u64).len() + declared
        }),
{
    lemma_leb_len(pages.len() as u64);
}

/// The declared size of a start section is the size of the index that follows
/// it, when the index is below 128.
pub proof fn law_start_section_size(index: u32)
    requires
        index < 128,
    ensures
        start_bytes(index).len() == 1 + leb(1).len() + 1,
{
    lemma_leb_len(index as u64);
    lemma_leb_len(1);
}

/// The declared size of a function section is the size of what follows it,
/// when every index it writes is below 128.
pub proof fn law_function_section_size(imports: nat, count: nat)
    requires
        imports + count <= 128,
        count < 128,
    ensures
        function_section_bytes(imports, count).len() == 1 + leb((count + 1) as u64).len() + count + 1,
{
    lemma_leb_len(count as u64);
    lemma_ids_bytes_len(imports as u64, count);
}

proof fn lemma_ids_bytes_len(start: u64, n: nat)
    requires
        start + n <= 128,
    ensures
        ids_bytes(start, n).len() == n,
    decreases n,
{
    if n > 0 {
        lemma_ids_bytes_len(start, (n - 1) as nat);
        lemma_leb_len((start + n - 1) as u64);
    }
}

/// The declared size of a code section is the size of what follows it, when
/// it holds fewer than 128 bodies and each body declares a size below 128.
pub proof fn law_code_section_size(blocks: Seq<Block>)
    requires
        blocks.len() < 128,
        forall|i: int| 0 <= i < blocks.len() ==> block_len(#[trigger] blocks[i]@) < 128,
        blocks_len(blocks) + 1 + blocks.len() <= u64::MAX,
    ensures
        ({
            let declared = blocks_len(blocks) + 1 + blocks.len();
            code_bytes(blocks).len() == 1 + leb(declared as u64).len() + declared
        }),
{
    lemma_leb_len(blocks.len() as u64);
    lemma_blocks_bytes_len(blocks);
}

proof fn lemma_blocks_bytes_len(blocks: Seq<Block>)
    requires
        forall|i: int| 0 <= i < blocks.len() ==> block_len(#[trigger] blocks[i]@) < 128,
    ensures
        blocks_bytes(blocks).len() == blocks_len(blocks) + blocks.len(),
    decreases blocks.len(),
{
    if blocks.len() > 0 {
        let init = blocks.drop_last();
        assert forall|i: int| 0 <= i < init.len() implies block_len(#[trigger] init[i]@) < 128 by {
            assert(init[i] == blocks[i]);
        }
        lemma_blocks_bytes_len(init);
        let last = blocks.last()@;
        assert(block_len(blocks[blocks.len() - 1]@) < 128);
        lemma_leb_len(block_len(last) as u64);
    }
}

/// The place of an instruction's kind among the kinds of instruction, in the
/// order they are declared.
pub open spec fn kind_index(i: Instruction) -> nat {
    match i {
        Instruction::Drop => 0,
        Instruction::Call(_) => 1,
        Instruction::I32Const(_) => 2,
        Instruction::I64Const(_) => 3,
        Instruction::F32Const(_) => 4,
        Instruction::F64Const(_) => 5,
        Instruction::LocalGet(_) => 6,
        Instruction::I32Add => 7,
        Instruction::I32Sub => 8,
        Instruction::I32Mul => 9,
        Instruction::I32DivS => 10,
        Instruction::I32DivU => 11,
        Instruction::I32RemS => 12,
        Instruction::I32RemU => 13,
        Instruction::I32Gt => 14,
        Instruction::If(_) => 15,
        Instruction::Else => 16,
        Instruction::End => 17,
        Instruction::Br(_) => 18,
        Instruction::BrIf(_) => 19,
        Instruction::BrTable(_, _) => 20,
        Instruction::Return => 21,
        Instruction::I32Load => 22,
        Instruction::I32Store => 23,
        Instruction::Nop => 24,
        Instruction::Unreachable => 25,
    }
}

/// Every instruction's encoding starts with an opcode, and instructions of
/// different kinds start with different opcodes: the opcode tells the kind.
/// The one exception is `I32Gt`, which is written with the byte of `I32Add`.
pub proof fn law_opcode_tells_kind(a: Instruction, b: Instruction)
    ensures
        a.spec_bytes().len() >= 1,
        a.spec_bytes()[0] == b.spec_bytes()[0] && kind_index(a) != kind_index(b) ==> {
            ||| a == Instruction::I32Add && b == Instruction::I32Gt
            ||| a == Instruction::I32Gt && b == Instruction::I32Add
        },
{
}

/// The i32 arithmetic instructions are one byte each, their opcodes running
/// in WebAssembly's order (add, sub, mul, div_s, div_u, rem_s, rem_u) up
/// from `I32Add`'s 0x6a.
pub proof fn law_arithmetic_opcodes(i: Instruction)
    requires
        kind_index(Instruction::I32Add) <= kind_index(i) <= kind_index(Instruction::I32RemU),
    ensures
        i.spec_bytes() == seq![(0x6a + kind_index(i) - kind_index(Instruction::I32Add)) as u8],
{
}


/// A module that has the type section is encoded as the module without it, with the
/// section's bytes put right after those of the header and of the sections
/// that come before it.
#[verifier::rlimit(80)]
pub proof fn law_kind_section_placed(m: Module, x: Type)
    requires
        m.kind == Some(x),
    ensures
        ({
            let before = (Module { kind: None, imports: None, function: None, memory: None, export: None, start: None, code: None, data: None, ..m }).spec_bytes();
            let without = (Module { kind: None, ..m }).spec_bytes();
            &&& before.len() <= without.len()
            &&& without.subrange(0, before.len() as int) == before
            &&& m.spec_bytes() == before + type_bytes(x@) + without.subrange(before.len() as int, without.len() as int)
        }),
{
    let before = (Module { kind: None, imports: None, function: None, memory: None, export: None, start: None, code: None, data: None, ..m }).spec_bytes();
    let without = (Module { kind: None, ..m }).spec_bytes();
    assert(without.subrange(0, before.len() as int) =~= before);
    assert(m.spec_bytes() =~= before + type_bytes(x@) + without.subrange(before.len() as int, without.len() as int));
}

/// A module that has the import section is encoded as the module without it, with the
/// section's bytes put right after those of the header and of the sections
/// that come before it.
#[verifier::rlimit(80)]
pub proof fn law_imports_section_placed(m: Module, x: Import)
    requires
        m.imports == Some(x),
    ensures
        ({
            let before = (Module { imports: None, function: None, memory: None, export: None, start: None, code: None, data: None, ..m }).spec_bytes();
            let without = (Module { imports: None, ..m }).spec_bytes();
            &&& before.len() <= without.len()
            &&& without.subrange(0, before.len() as int) == before
            &&& m.spec_bytes() == before + import_bytes(x@) + without.subrange(before.len() as int, without.len() as int)
        }),
{
    let before = (Module { imports: None, function: None, memory: None, export: None, start: None, code: None, data: None, ..m }).spec_bytes();
    let without = (Module { imports: None, ..m }).spec_bytes();
    assert(without.subrange(0, before.len() as int) =~= before);
    assert(m.spec_bytes() =~= before + import_bytes(x@) + without.subrange(before.len() as int, without.len() as int));
}

/// A module that has the function section is encoded as the module without it, with the
/// section's bytes put right after those of the header and of the sections
/// that come before it.
#[verifier::rlimit(80)]
pub proof fn law_function_section_placed(m: Module, x: Function)
    requires
        m.function == Some(x),
    ensures
        ({
            let before = (Module { function: None, memory: None, export: None, start: None, code: None, data: None, ..m }).spec_bytes();
            let without = (Module { function: None, ..m }).spec_bytes();
            &&& before.len() <= without.len()
            &&& without.subrange(0, before.len() as int) == before
            &&& m.spec_bytes() == before + function_section_bytes(x@.0.len(), x@.1.len()) + without.subrange(before.len() as int, without.len() as int)
        }),
{
    let before = (Module { function: None, memory: None, export: None, start: None, code: None, data: None, ..m }).spec_bytes();
    let without = (Module { function: None, ..m }).spec_bytes();
    assert(without.subrange(0, before.len() as int) =~= before);
    assert(m.spec_bytes() =~= before + function_section_bytes(x@.0.len(), x@.1.len()) + without.subrange(before.len() as int, without.len() as int));
}

/// A module that has the memory section is encoded as the module without it, with the
/// section's bytes put right after those of the header and of the sections
/// that come before it.
#[verifier::rlimit(80)]
pub proof fn law_memory_section_placed(m: Module, x: Memory)
    requires
        m.memory == Some(x),
    ensures
        ({
            let before = (Module { memory: None, export: None, start: None, code: None, data: None, ..m }).spec_bytes();
            let without = (Module { memory: None, ..m }).spec_bytes();
            &&& before.len() <= without.len()
            &&& without.subrange(0, before.len() as int) == before
            &&& m.spec_bytes() == before + memory_bytes(x@) + without.subrange(before.len() as int, without.len() as int)
        }),
{
    let before = (Module { memory: None, export: None, start: None, code: None, data: None, ..m }).spec_bytes();
    let without = (Module { memory: None, ..m }).spec_bytes();
    assert(without.subrange(0, before.len() as int) =~= before);
    assert(m.spec_bytes() =~= before + memory_bytes(x@) + without.subrange(before.len() as int, without.len() as int));
}

/// A module that has the export section is encoded as the module without it, with the
/// section's bytes put right after those of the header and of the sections
/// that come before it.
pub proof fn law_export_section_placed(m: Module, x: Export)
    requires
        m.export == Some(x),
    ensures
        ({
            let before = (Module { export: None, start: None, code: None, data: None, ..m }).spec_bytes();
            let without = (Module { export: None, ..m }).spec_bytes();
            &&& before.len() <= without.len()
            &&& without.subrange(0, before.len() as int) == before
            &&& m.spec_bytes() == before + export_bytes(x@) + without.subrange(before.len() as int, without.len() as int)
        }),
{
    let before = (Module { export: None, start: None, code: None, data: None, ..m }).spec_bytes();
    let without = (Module { export: None, ..m }).spec_bytes();
    assert(without.subrange(0, before.len() as int) =~= before);
    assert(m.spec_bytes() =~= before + export_bytes(x@) + without.subrange(before.len() as int, without.len() as int));
}

/// A module that has the start section is encoded as the module without it, with the
/// section's bytes put right after those of the header and of the sections
/// that come before it.
pub proof fn law_start_section_placed(m: Module, x: Start)
    requires
        m.start == Some(x),
    ensures
        ({
            let before = (Module { start: None, code: None, data: None, ..m }).spec_bytes();
            let without = (Module { start: None, ..m }).spec_bytes();
            &&& before.len() <= without.len()
            &&& without.subrange(0, before.len() as int) == before
            &&& m.spec_bytes() == before + start_bytes(x@) + without.subrange(before.len() as int, without.len() as int)
        }),
{
    let before = (Module { start: None, code: None, data: None, ..m }).spec_bytes();
    let without = (Module { start: None, ..m }).spec_bytes();
    assert(without.subrange(0, before.len() as int) =~= before);
    assert(m.spec_bytes() =~= before + start_bytes(x@) + without.subrange(before.len() as int, without.len() as int));
}

/// A module that has the code section is encoded as the module without it, with the
/// section's bytes put right after those of the header and of the sections
/// that come before it.
pub proof fn law_code_section_placed(m: Module, x: Code)
    requires
        m.code == Some(x),
    ensures
        ({
            let before = (Module { code: None, data: None, ..m }).spec_bytes();
            let without = (Module { code: None, ..m }).spec_bytes();
            &&& before.len() <= without.len()
            &&& without.subrange(0, before.len() as int) == before
            &&& m.spec_bytes() == before + code_bytes(x@) + without.subrange(before.len() as int, without.len() as int)
        }),
{
    let before = (Module { code: None, data: None, ..m }).spec_bytes();
    let without = (Module { code: None, ..m }).spec_bytes();
    assert(without.subrange(0, before.len() as int) =~= before);
    assert(m.spec_bytes() =~= before + code_bytes(x@) + without.subrange(before.len() as int, without.len() as int));
}

/// A module that has the data section is encoded as the module without it, with the
/// section's bytes put right after those of the header and of the sections
/// that come before it.
pub proof fn law_data_section_placed(m: Module, x: Data)
    requires
        m.data == Some(x),
    ensures
        ({
            let before = (Module { data: None, ..m }).spec_bytes();
            let without = (Module { data: None, ..m }).spec_bytes();
            &&& before.len() <= without.len()
            &&& without.subrange(0, before.len() as int) == before
            &&& m.spec_bytes() == before + data_bytes(x@) + without.subrange(before.len() as int, without.len() as int)
        }),
{
    let before = (Module { data: None, ..m }).spec_bytes();
    let without = (Module { data: None, ..m }).spec_bytes();
    assert(without.subrange(0, before.len() as int) =~= before);
    assert(m.spec_bytes() =~= before + data_bytes(x@) + without.subrange(before.len() as int, without.len() as int));
}

} // verus!
