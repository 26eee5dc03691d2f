//! The first draft of the intermediate representation: modules of functions,
//! globals, types and enums.
use vstd::prelude::*;
use crate::front_end::Operator;
use crate::text::str_eq;

verus! {

/// A module.
#[derive(Debug, PartialEq)]
pub struct IRModule {
    pub functions: Vec<IRFunction>,
    pub globals: Vec<IRGlobal>,
    pub types: Vec<IRType>,
    pub enums: Vec<IREnum>,
}

/// A function.
#[derive(Debug, PartialEq)]
pub struct IRFunction {
    pub name: String,
    pub params: Vec<(String, IRType)>,
    pub return_type: IRType,
    pub body: IRBlock,
}

/// A block of instructions.
#[derive(Debug, PartialEq)]
pub struct IRBlock {
    pub instructions: Vec<IRInstruction>,
}

/// An instruction.
#[derive(Debug, PartialEq)]
pub enum IRInstruction {
    BinaryOp { left: IRValue, op: Operator, right: IRValue },
    PrefixOp { op: Operator, right: IRValue },
    If { condition: IRValue, then_branch: IRBlock, else_branch: Option<IRBlock> },
    Call { function_name: String, arguments: Vec<IRValue> },
    Return(IRValue),
    Add(IRValue, IRValue),
    Sub(IRValue, IRValue),
    Mul(IRValue, IRValue),
    Div(IRValue, IRValue),
    Load(IRValue),
    Store(IRValue, IRValue),
}

/// A type.
#[derive(Debug, PartialEq)]
pub enum IRType {
    Int,
    Bool,
    /// For enums and other user-defined types
    Custom(String),
}

/// An enum.
#[derive(Debug, PartialEq)]
pub struct IREnum {
    pub name: String,
    pub variants: Vec<IREnumVariant>,
}

/// A variant of an enum, with the types it holds.
#[derive(Debug, PartialEq)]
pub struct IREnumVariant {
    pub name: String,
    pub types: Vec<IRType>,
}

/// A global.
#[derive(Debug, PartialEq)]
pub struct IRGlobal {
    pub name: String,
    pub typ: IRType,
    pub value: IRValue,
}

/// A value.
#[derive(Debug, PartialEq)]
pub enum IRValue {
    Int(i32),
    Bool(bool),
    Char(char),
    /// References a variable by name
    Variable(String),
}

impl From<String> for IRType {
    fn from(name: String) -> (r: Self) {
        if str_eq(name.as_str(), "Int") {
            IRType::Int
        } else if str_eq(name.as_str(), "Bool") {
            IRType::Bool
        } else {
            IRType::Custom(name)
        }
    }
}

impl vstd::std_specs::convert::FromSpecImpl<String> for IRType {
    open spec fn obeys_from_spec() -> bool {
        true
    }

    open spec fn from_spec(name: String) -> Self {
        if name@ == "Int"@ {
            IRType::Int
        } else if name@ == "Bool"@ {
            IRType::Bool
        } else {
            IRType::Custom(name)
        }
    }
}

/// The emitter of the first draft: the functions and enums it has made.
pub struct IrEmitter {
    functions: Vec<IRFunction>,
    enums: Vec<IREnum>,
}

impl IrEmitter {
    /// The functions made so far.
    pub closed spec fn functions(&self) -> Seq<IRFunction> {
        self.functions@
    }

    /// The enums made so far.
    pub closed spec fn enums(&self) -> Seq<IREnum> {
        self.enums@
    }

    /// An emitter that has made nothing.
    pub fn new() -> (r: Self)
        ensures
            r.functions() == Seq::<IRFunction>::empty(),
            r.enums() == Seq::<IREnum>::empty(),
    {
        Self { functions: Vec::new(), enums: Vec::new() }
    }
}

} // verus!
