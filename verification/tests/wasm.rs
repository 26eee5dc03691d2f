use snow::wasm::leb::encode_unsigned;
use snow::wasm::opcode::Instruction;
use snow::wasm::section::_type::{FunctionType, Kind, Type, ValueType};
use snow::wasm::section::code::{Block, Code};
use snow::wasm::section::data::{Data, Segment};
use snow::wasm::section::export::{Export, ExportEntry, ExportType};
use snow::wasm::section::function::Function;
use snow::wasm::section::import::{Import, ImportEntry, ImportType};
use snow::wasm::section::memory::{Memory, Page};
use snow::wasm::section::DataType;

#[test]
fn test_to_bytes() {
    assert_eq!(Instruction::I32Add.to_bytes(), vec![0x6A]);
    assert_eq!(Instruction::I32Const(42).to_bytes(), vec![0x41, 0x2A]);
}

#[test]
fn test_to_bytes_func_type() {
    let func_type = FunctionType::default()
        .with_param(ValueType::Data(DataType::I32))
        .with_param(ValueType::Data(DataType::I32))
        .with_result(DataType::I32);

    let bytes = func_type.to_bytes();
    assert_eq!(bytes, vec![0x60, 0x02, 0x7F, 0x7F, 0x01, 0x7F]);
}

#[test]
fn test_to_bytes_type() {
    let func_type = FunctionType::default()
        .with_param(ValueType::Data(DataType::I32))
        .with_param(ValueType::Data(DataType::I32))
        .with_result(DataType::I32);

    let type_section = Type::default().with(func_type.into());

    let bytes = type_section.to_bytes();
    assert_eq!(
        bytes,
        vec![0x01, 0x07, 0x01, 0x60, 0x02, 0x7F, 0x7F, 0x01, 0x7F]
    );
}

#[test]
fn test_code_block() {
    let block = Block::default()
        .with(Instruction::I32Const(1))
        .with(Instruction::I32Const(2))
        .with(Instruction::I32Add);
    let bytes = block.to_bytes();
    assert_eq!(bytes, vec![0x07, 0x00, 0x41, 0x01, 0x41, 0x02, 0x6A, 0x0B]);
}

#[test]
fn test_code_section() {
    let code_section = Code::default().with(
        Block::default()
            .with(Instruction::I32Const(1))
            .with(Instruction::I32Const(2))
            .with(Instruction::I32Add),
    );

    let bytes = code_section.to_bytes();
    assert_eq!(
        bytes,
        vec![0x0A, 0x09, 0x01, 0x07, 0x00, 0x41, 0x01, 0x41, 0x02, 0x6A, 0x0B]
    );
}

#[test]
fn test_segment() {
    let segment = Segment::default()
        .with_instruction(Instruction::I32Const(1))
        .with_data("abc".as_bytes().to_vec());
    let bytes = segment.to_bytes();
    assert_eq!(bytes, vec![0x00, 0x41, 0x01, 0x0b, 0x03, 0x61, 0x62, 0x63]);
}

#[test]
fn test_data() {
    let segment = Segment::default()
        .with_instruction(Instruction::I32Const(1))
        .with_data("abc".as_bytes().to_vec());
    let data = Data::default().with(segment);
    let bytes = data.to_bytes();
    assert_eq!(
        bytes,
        vec![0x0B, 0x09, 0x01, 0x00, 0x41, 0x01, 0x0b, 0x03, 0x61, 0x62, 0x63]
    );
}

#[test]
fn test_export_entry() {
    let export = ExportEntry::new("test".to_string(), ExportType::Func, 0);
    let bytes = export.to_bytes();
    assert_eq!(bytes, vec![0x04, 0x74, 0x65, 0x73, 0x74, 0x00, 0x00]);
}

#[test]
fn test_export() {
    let export = Export::default().with(ExportEntry::new(
        "test".to_string(),
        ExportType::Func,
        0,
    ));
    let bytes = export.to_bytes();
    assert_eq!(
        bytes,
        vec![0x07, 0x08, 0x01, 0x04, 0x74, 0x65, 0x73, 0x74, 0x00, 0x00]
    );
}

#[test]
fn test_function() {
    let mut section = Function::default();
    section.add_function("foo".to_string());
    section.add_function("bar".to_string());
    let bytes = section.to_bytes();
    assert_eq!(bytes, vec![0x03, 0x03, 0x02, 0x00, 0x01]);
}

#[test]
fn test_import_entry() {
    let section = ImportEntry::new("module".to_string(), "name".to_string(), ImportType::Func);
    let bytes = section.to_bytes(0);
    assert_eq!(
        bytes,
        vec![
            0x06, 0x6d, 0x6f, 0x64, 0x75, 0x6c, 0x65, 0x04, 0x6e, 0x61, 0x6d, 0x65,
            0x00, 0x00
        ]
    );
}

#[test]
fn test_import() {
    let section = ImportEntry::new("module".to_string(), "name".to_string(), ImportType::Func);
    let section = Import::default().with(section);
    let bytes = section.to_bytes();
    assert_eq!(
        bytes,
        vec![
            0x02, 0x0F, 0x01, 0x06, 0x6d, 0x6f, 0x64, 0x75, 0x6c, 0x65, 0x04, 0x6e,
            0x61, 0x6d, 0x65, 0x00, 0x00
        ]
    );
}

#[test]
fn test_memory() {
    let section = Memory::default().with(Page::WithNoMinimun(1));
    let bytes = section.to_bytes();
    assert_eq!(bytes, vec![0x05, 0x03, 0x01, 0x00, 0x01]);
}

// ---- further cases ----

#[test]
fn leb128_multi_byte_values() {
    assert_eq!(encode_unsigned(0), vec![0x00]);
    assert_eq!(encode_unsigned(127), vec![0x7F]);
    assert_eq!(encode_unsigned(128), vec![0x80, 0x01]);
    assert_eq!(encode_unsigned(624485), vec![0xE5, 0x8E, 0x26]);
    assert_eq!(encode_unsigned(u64::MAX).len(), 10);
}

#[test]
fn integer_constants_are_signed_leb128() {
    assert_eq!(Instruction::I32Const(-1).to_bytes(), vec![0x41, 0x7F]);
    assert_eq!(Instruction::I32Const(64).to_bytes(), vec![0x41, 0xC0, 0x00]);
    assert_eq!(Instruction::I32Const(63).to_bytes(), vec![0x41, 0x3F]);
    assert_eq!(Instruction::I32Const(-64).to_bytes(), vec![0x41, 0x40]);
    assert_eq!(Instruction::I32Const(-65).to_bytes(), vec![0x41, 0xBF, 0x7F]);
    assert_eq!(Instruction::I32Const(624485).to_bytes(), vec![0x41, 0xE5, 0x8E, 0x26]);
    assert_eq!(
        Instruction::I32Const(i32::MIN).to_bytes(),
        vec![0x41, 0x80, 0x80, 0x80, 0x80, 0x78]
    );
    assert_eq!(Instruction::I64Const(-123456).to_bytes(), vec![0x42, 0xC0, 0xBB, 0x78]);
}

#[test]
fn float_constants_are_little_endian_bits() {
    let bits = 1.5f32.to_bits();
    assert_eq!(
        Instruction::F32Const(bits).to_bytes(),
        [vec![0x43], 1.5f32.to_le_bytes().to_vec()].concat()
    );
    let bits = (-2.25f64).to_bits();
    assert_eq!(
        Instruction::F64Const(bits).to_bytes(),
        [vec![0x44], (-2.25f64).to_le_bytes().to_vec()].concat()
    );
}

#[test]
fn branch_table_and_store_encodings() {
    assert_eq!(
        Instruction::BrTable(vec![1, 200], 3).to_bytes(),
        vec![0x0e, 0x02, 0x01, 0xC8, 0x01, 0x03]
    );
    assert_eq!(Instruction::I32Store.to_bytes(), vec![0x36, 0x02, 0x00]);
    assert_eq!(Instruction::I32Gt.len(), 1);
    assert_eq!(Instruction::Call(300).len(), 3);
}

#[test]
fn function_ids_count_imports_first() {
    let mut section = Function::default();
    section.add_imported_function("write".to_string());
    section.add_function("foo".to_string());
    section.add_function("main".to_string());
    assert_eq!(section.get_id("write"), Some(0));
    assert_eq!(section.get_id("foo"), Some(1));
    assert_eq!(section.get_id("main"), Some(2));
    assert_eq!(section.get_id("missing"), None);
    assert_eq!(section.to_bytes(), vec![0x03, 0x03, 0x02, 0x01, 0x02]);
}

#[test]
fn memory_with_min_and_max() {
    let section = Memory::default().with(Page::WithMinAndMax(1, 2));
    assert_eq!(section.to_bytes(), vec![0x05, 0x04, 0x01, 0x01, 0x01, 0x02]);
}

#[test]
fn data_push_data_returns_offsets() {
    let mut data = Data::default();
    assert_eq!(data.push_data(vec![1, 2, 3]), 0);
    assert_eq!(data.push_data(vec![4, 5]), 3);
    assert_eq!(data.to_bytes(), vec![0x0B, 0x08, 0x01, 0x00, 0x05, 1, 2, 3, 4, 5]);
}

#[test]
fn kind_from_function_type() {
    let k: Kind = FunctionType::default().into();
    assert_eq!(k.to_bytes(), vec![0x60, 0x00, 0x00]);
}

#[test]
fn if_is_followed_by_its_result_type() {
    assert_eq!(Instruction::If(DataType::I32).to_bytes(), vec![0x04, 0x7f]);
    assert_eq!(Instruction::If(DataType::I64).to_bytes(), vec![0x04, 0x7e]);
    let block = Block::default()
        .with(Instruction::LocalGet(0))
        .with(Instruction::If(DataType::I32))
        .with(Instruction::End);
    assert_eq!(block.to_bytes(), vec![0x07, 0x00, 0x20, 0x00, 0x04, 0x7f, 0x0b, 0x0b]);
}
