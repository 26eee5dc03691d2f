//! The intermediate code: functions whose bodies are blocks of stack
//! instructions.
use vstd::prelude::*;
use crate::text::str_eq;

verus! {

/// A module of intermediate code.
#[derive(Debug, PartialEq)]
pub struct Module {
    pub functions: Vec<Function>,
    pub globals: Vec<Global>,
    pub enums: Vec<Enum>,
}

/// A function: its name, its parameters with their types, its result type
/// and its body.
#[derive(Debug, PartialEq)]
pub struct Function {
    pub name: String,
    pub params: Vec<(String, Type)>,
    pub return_type: Option<Type>,
    pub body: Block,
}

/// A sequence of instructions.
#[derive(Debug, PartialEq)]
pub struct Block {
    pub instructions: Vec<Instruction>,
}

/// An instruction of the stack machine.
#[derive(Debug, PartialEq)]
pub enum Instruction {
    If { condition: Block, then_branch: Block, else_branch: Option<Block> },
    Call { function_name: String, arguments: Vec<Value> },
    Return(Value),
    Add,
    Sub,
    Mul,
    Div,
    GreaterThan,
    Load(Value),
    Store(Value, Value),
    Push(Value),
    Pop(Value),
}

/// A type.
#[derive(Debug, PartialEq)]
pub enum Type {
    Int,
    Bool,
    /// For enums and other user-defined types
    Custom(String),
}

/// An enum: its name and its variants.
#[derive(Debug, PartialEq)]
pub struct Enum {
    pub name: String,
    pub variants: Vec<EnumVariant>,
}

/// A variant of an enum: its name and the types it holds.
#[derive(Debug, PartialEq)]
pub struct EnumVariant {
    pub name: String,
    pub types: Vec<Type>,
}

/// A global value.
#[derive(Debug, PartialEq)]
pub struct Global {
    pub name: String,
    pub typ: Type,
    pub value: Value,
}

/// A value.
#[derive(Debug, PartialEq)]
pub enum Value {
    Int(i32),
    Bool(bool),
    Char(char),
    /// References a variable by name
    Variable(String),
    String(String),
}

/// A type with its name as a character sequence.
pub enum TypeV {
    Int,
    Bool,
    Custom(Seq<char>),
}

/// A value with its texts as character sequences.
pub enum ValueV {
    Int(i32),
    Bool(bool),
    Char(char),
    Variable(Seq<char>),
    Str(Seq<char>),
}

/// An instruction with its blocks as sequences and its texts as character
/// sequences.
pub enum InstrV {
    If { condition: Seq<InstrV>, then_branch: Seq<InstrV>, else_branch: Option<Seq<InstrV>> },
    Call { function_name: Seq<char>, arguments: Seq<ValueV> },
    Return(ValueV),
    Add,
    Sub,
    Mul,
    Div,
    GreaterThan,
    Load(ValueV),
    Store(ValueV, ValueV),
    Push(ValueV),
    Pop(ValueV),
}

/// A function by its name, parameters, result type and body.
pub type FuncV = (Seq<char>, Seq<(Seq<char>, TypeV)>, Option<TypeV>, Seq<InstrV>);

/// The view of a type.
pub open spec fn type_view(t: Type) -> TypeV {
    match t {
        Type::Int => TypeV::Int,
        Type::Bool => TypeV::Bool,
        Type::Custom(s) => TypeV::Custom(s@),
    }
}

/// The view of an optional type.
pub open spec fn opt_type_view(t: Option<Type>) -> Option<TypeV> {
    match t {
        Some(t) => Some(type_view(t)),
        None => None,
    }
}

/// The view of a value.
pub open spec fn value_view(v: Value) -> ValueV {
    match v {
        Value::Int(i) => ValueV::Int(i),
        Value::Bool(b) => ValueV::Bool(b),
        Value::Char(c) => ValueV::Char(c),
        Value::Variable(s) => ValueV::Variable(s@),
        Value::String(s) => ValueV::Str(s@),
    }
}

/// The view of an instruction.
pub open spec fn instr_view(i: Instruction) -> InstrV
    decreases i,
{
    match i {
        Instruction::If { condition, then_branch, else_branch } => InstrV::If {
            condition: block_view(condition),
            then_branch: block_view(then_branch),
            else_branch: match else_branch {
                Some(b) => Some(block_view(b)),
                None => None,
            },
        },
        Instruction::Call { function_name, arguments } => InstrV::Call {
            function_name: function_name@,
            arguments: arguments@.map_values(|v: Value| value_view(v)),
        },
        Instruction::Return(v) => InstrV::Return(value_view(v)),
        Instruction::Add => InstrV::Add,
        Instruction::Sub => InstrV::Sub,
        Instruction::Mul => InstrV::Mul,
        Instruction::Div => InstrV::Div,
        Instruction::GreaterThan => InstrV::GreaterThan,
        Instruction::Load(v) => InstrV::Load(value_view(v)),
        Instruction::Store(a, b) => InstrV::Store(value_view(a), value_view(b)),
        Instruction::Push(v) => InstrV::Push(value_view(v)),
        Instruction::Pop(v) => InstrV::Pop(value_view(v)),
    }
}

/// The view of a block: its instructions.
pub open spec fn block_view(b: Block) -> Seq<InstrV>
    decreases b,
{
    Seq::new(
        b.instructions@.len(),
        |k: int|
            if 0 <= k < b.instructions@.len() {
                proof {
                    assert(decreases_to!(b => b.instructions));
                    assert(decreases_to!(b.instructions => b.instructions@));
                    assert(decreases_to!(b.instructions@ => b.instructions@[k]));
                }
                instr_view(b.instructions@[k])
            } else {
                InstrV::Add
            },
    )
}

/// The views of some instructions.
pub open spec fn instrs_view(v: Seq<Instruction>) -> Seq<InstrV> {
    v.map_values(|i: Instruction| instr_view(i))
}

/// A block's view is that of its instructions.
pub proof fn lemma_block_view(b: Block)
    ensures
        block_view(b) == instrs_view(b.instructions@),
{
    assert(block_view(b) =~= instrs_view(b.instructions@));
}

/// The view of a function.
pub open spec fn func_view(f: Function) -> FuncV {
    (
        f.name@,
        f.params@.map_values(|p: (String, Type)| (p.0@, type_view(p.1))),
        opt_type_view(f.return_type),
        block_view(f.body),
    )
}

/// The views of some functions.
pub open spec fn funcs_view(v: Seq<Function>) -> Seq<FuncV> {
    v.map_values(|f: Function| func_view(f))
}

/// The type that a type name stands for.
pub open spec fn type_of(name: Seq<char>) -> TypeV {
    if name == "Int"@ {
        TypeV::Int
    } else if name == "Bool"@ {
        TypeV::Bool
    } else {
        TypeV::Custom(name)
    }
}

impl From<String> for Type {
    fn from(name: String) -> (r: Self) {
        if str_eq(name.as_str(), "Int") {
            Type::Int
        } else if str_eq(name.as_str(), "Bool") {
            Type::Bool
        } else {
            Type::Custom(name)
        }
    }
}

impl vstd::std_specs::convert::FromSpecImpl<String> for Type {
    open spec fn obeys_from_spec() -> bool {
        true
    }

    open spec fn from_spec(name: String) -> Self {
        if name@ == "Int"@ {
            Type::Int
        } else if name@ == "Bool"@ {
            Type::Bool
        } else {
            Type::Custom(name)
        }
    }
}

impl Type {
    /// The type that a type name stands for.
    pub fn from_name(name: &String) -> (r: Self)
        ensures
            type_view(r) == type_of(name@),
    {
        let t = Type::from(name.clone());
        t
    }
}

} // verus!
