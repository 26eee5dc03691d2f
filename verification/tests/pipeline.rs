use snow::front_end::{Parser, Token};
use snow::ir::code::{Block as IrBlock, Instruction as IrInstruction, Type, Value};
use snow::ir::Emitter as IrEmitter;
use snow::wasm::emitter::Emitter;
use snow::wasm::opcode::Instruction;
use snow::wasm::section::code::{Block, Code};
use snow::wasm::section::function::Function;
use snow::wasm::section::DataType;

const MAX_SOURCE: &str = r#"
max x y
    : Int -> Int -> Int
    = if x > y then x else y
            "#;

#[test]
fn test_emit_ir_function() {
    let lexer = Token::lexer(MAX_SOURCE);
    let mut parser = Parser::new(lexer);
    let ast = parser.parse().unwrap();

    let mut emitter = IrEmitter::new();
    let module = emitter.visit(&ast);

    assert_eq!(module.functions.len(), 1);
    assert_eq!(module.functions[0].name, "max");
    assert_eq!(
        module.functions[0].params,
        vec![("x".to_string(), Type::Int), ("y".to_string(), Type::Int)]
    );
    assert_eq!(module.functions[0].return_type, Some(Type::Int));
    assert_eq!(
        module.functions[0].body,
        IrBlock {
            instructions: vec![IrInstruction::If {
                condition: IrBlock {
                    instructions: vec![
                        IrInstruction::Push(Value::Variable("x".to_string())),
                        IrInstruction::Push(Value::Variable("y".to_string())),
                        IrInstruction::GreaterThan,
                    ],
                },
                then_branch: IrBlock {
                    instructions: vec![IrInstruction::Push(Value::Variable("x".to_string()))]
                },
                else_branch: Some(IrBlock {
                    instructions: vec![IrInstruction::Push(Value::Variable("y".to_string()))]
                }),
            }]
        }
    );
}

#[test]
fn test_wasm_emitter() {
    let lexer = Token::lexer(MAX_SOURCE);
    let mut parser = Parser::new(lexer);
    let ast = parser.parse().unwrap();

    let mut ir_emitter = IrEmitter::new();
    let ir_module = ir_emitter.visit(&ast);
    let wasm_emitter = Emitter::new(ir_module);
    let wasm_module = wasm_emitter.emit();
    assert_eq!(
        wasm_module.function.as_ref().map(|f| f.to_bytes().len()),
        Some(4)
    );
    assert_eq!(
        wasm_module.function,
        Some(Function::default().with_function("max".to_string()))
    );
    assert_eq!(
        wasm_module.code,
        Some(
            Code::default().with(
                Block::default()
                    .with(Instruction::LocalGet(0))
                    .with(Instruction::LocalGet(1))
                    .with(Instruction::I32Gt)
                    .with(Instruction::If(DataType::I32))
                    .with(Instruction::LocalGet(0))
                    .with(Instruction::Else)
                    .with(Instruction::LocalGet(1))
                    .with(Instruction::End)
            )
        )
    );
    assert!(wasm_module.start.is_none());
}

#[test]
fn main_becomes_the_start_function() {
    let tokens = Token::lexer("\nf:Int=1\nmain:Int=f\n");
    let ast = Parser::new(tokens).parse().unwrap();
    assert_eq!(ast.len(), 2);
    let ir_module = IrEmitter::new().visit(&ast);
    let module = Emitter::new(ir_module).emit();
    assert_eq!(
        module.function,
        Some(Function::default().with_function("f".to_string()).with_function("main".to_string()))
    );
    let start = module.start.as_ref().unwrap();
    assert_eq!(start.to_bytes(), vec![0x08, 0x01, 0x01]);
    assert_eq!(
        module.code,
        Some(
            Code::default()
                .with(Block::default().with(Instruction::I32Const(1)))
                .with(Block::default().with(Instruction::LocalGet(0)))
        )
    );
}
