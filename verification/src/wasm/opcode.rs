//! WebAssembly instructions and their binary encoding.
use vstd::prelude::*;
use crate::wasm::leb::{leb, sleb, write_unsigned, write_signed, append_bytes};
use crate::wasm::section::DataType;

verus! {

/// A WebAssembly instruction. The floating-point constants hold the IEEE-754
/// bit pattern of their value.
#[derive(Debug, Clone, PartialEq)]
pub enum Instruction {
    /// 0x1a pops a value from the stack.
    Drop,
    /// 0x10 calls a function.
    Call(u32),
    /// 0x41: i32.const
    I32Const(i32),
    /// 0x42: i64.const
    I64Const(i64),
    /// 0x43: f32.const, with the bits of the value
    F32Const(u32),
    /// 0x44: f64.const, with the bits of the value
    F64Const(u64),
    LocalGet(u32),
    /// 0x6a: i32.add
    I32Add,
    /// 0x6b: i32.sub
    I32Sub,
    /// 0x6c: i32.mul
    I32Mul,
    /// 0x6d: i32.div_s
    I32DivS,
    /// 0x6e: i32.div_u
    I32DivU,
    /// 0x6f: i32.rem_s
    I32RemS,
    /// 0x70: i32.rem_u
    I32RemU,
    /// i32.gt_s (written with the byte 0x6a)
    I32Gt,
    /// 0x04: if, followed by the block's result type
    If(DataType),
    /// 0x05: else
    Else,
    /// 0x0b: end
    End,
    Br(u32),
    BrIf(u32),
    BrTable(Vec<u32>, u32),
    Return,
    I32Load,
    I32Store,
    Nop,
    Unreachable,
}

/// The `n` low bytes of `v`, least significant first.
pub open spec fn le_bytes(v: u64, n: nat) -> Seq<u8>
    decreases n,
{
    if n == 0 {
        Seq::empty()
    } else {
        seq![(v % 256) as u8] + le_bytes(v / 256, (n - 1) as nat)
    }
}

/// The LEB128 encodings of the labels of a branch table, one after the other.
pub open spec fn labels_bytes(labels: Seq<u32>) -> Seq<u8>
    decreases labels.len(),
{
    if labels.len() == 0 {
        Seq::empty()
    } else {
        labels_bytes(labels.drop_last()) + leb(labels.last() as u64)
    }
}

impl Instruction {
    /// The bytes that encode this instruction.
    pub open spec fn spec_bytes(&self) -> Seq<u8> {
        match self {
            Instruction::Drop => seq![0x1au8],
            Instruction::Call(index) => seq![0x10u8] + leb(*index as u64),
            Instruction::LocalGet(index) => seq![0x20u8] + leb(*index as u64),
            Instruction::I32Const(value) => seq![0x41u8] + sleb(*value as int),
            Instruction::I64Const(value) => seq![0x42u8] + sleb(*value as int),
            Instruction::F32Const(bits) => seq![0x43u8] + le_bytes(*bits as u64, 4),
            Instruction::F64Const(bits) => seq![0x44u8] + le_bytes(*bits, 8),
            Instruction::I32Add => seq![0x6au8],
            Instruction::I32Sub => seq![0x6bu8],
            Instruction::I32Mul => seq![0x6cu8],
            Instruction::I32DivS => seq![0x6du8],
            Instruction::I32DivU => seq![0x6eu8],
            Instruction::I32RemS => seq![0x6fu8],
            Instruction::I32RemU => seq![0x70u8],
            Instruction::I32Gt => seq![0x6au8],
            Instruction::If(t) => seq![0x04u8, t.spec_byte()],
            Instruction::Else => seq![0x05u8],
            Instruction::End => seq![0x0bu8],
            Instruction::Br(label) => seq![0x0cu8] + leb(*label as u64),
            Instruction::BrIf(label) => seq![0x0du8] + leb(*label as u64),
            Instruction::BrTable(table, default) => seq![0x0eu8] + leb(table@.len() as u64)
                + labels_bytes(table@) + leb(*default as u64),
            Instruction::Return => seq![0x0fu8],
            Instruction::I32Load => seq![0x28u8],
            Instruction::I32Store => seq![0x36u8, 0x02u8, 0x00u8],
            Instruction::Nop => seq![0x01u8],
            Instruction::Unreachable => seq![0x00u8],
        }
    }

    /// Encodes this instruction.
    pub fn to_bytes(&self) -> (r: Vec<u8>)
        ensures
            r@ == self.spec_bytes(),
    {
        let mut bytes: Vec<u8> = Vec::new();
        match self {
            Instruction::Drop => bytes.push(0x1a),
            Instruction::Call(index) => {
                bytes.push(0x10);
                write_unsigned(&mut bytes, *index as u64);
            },
            Instruction::LocalGet(index) => {
                bytes.push(0x20);
                write_unsigned(&mut bytes, *index as u64);
            },
            Instruction::I32Const(value) => {
                bytes.push(0x41);
                write_signed(&mut bytes, *value as i64);
            },
            Instruction::I64Const(value) => {
                bytes.push(0x42);
                write_signed(&mut bytes, *value);
            },
            Instruction::F32Const(bits) => {
                bytes.push(0x43);
                write_le_bytes(&mut bytes, *bits as u64, 4);
            },
            Instruction::F64Const(bits) => {
                bytes.push(0x44);
                write_le_bytes(&mut bytes, *bits, 8);
            },
            Instruction::I32Add => bytes.push(0x6a),
            Instruction::I32Sub => bytes.push(0x6b),
            Instruction::I32Mul => bytes.push(0x6c),
            Instruction::I32DivS => bytes.push(0x6d),
            Instruction::I32DivU => bytes.push(0x6e),
            Instruction::I32RemS => bytes.push(0x6f),
            Instruction::I32RemU => bytes.push(0x70),
            Instruction::I32Gt => bytes.push(0x6a),
            Instruction::If(t) => {
                bytes.push(0x04);
                bytes.push(t.to_byte());
            },
            Instruction::Else => bytes.push(0x05),
            Instruction::End => bytes.push(0x0b),
            Instruction::Br(label) => {
                bytes.push(0x0c);
                write_unsigned(&mut bytes, *label as u64);
            },
            Instruction::BrIf(label) => {
                bytes.push(0x0d);
                write_unsigned(&mut bytes, *label as u64);
            },
            Instruction::BrTable(table, default) => {
                bytes.push(0x0e);
                write_unsigned(&mut bytes, table.len() as u64);
                let mut i: usize = 0;
                while i < table.len()
                    invariant
                        i <= table@.len(),
                        bytes@ == seq![0x0eu8] + leb(table@.len() as u64) + labels_bytes(
                            table@.subrange(0, i as int),
                        ),
                    decreases table@.len() - i,
                {
                    let ghost prefix = table@.subrange(0, i as int);
                    write_unsigned(&mut bytes, table[i] as u64);
                    assert(table@.subrange(0, i + 1 as int).drop_last() =~= prefix);
                    i = i + 1;
                }
                assert(table@.subrange(0, i as int) =~= table@);
                write_unsigned(&mut bytes, *default as u64);
            },
            Instruction::Return => bytes.push(0x0f),
            Instruction::I32Load => bytes.push(0x28),
            Instruction::I32Store => {
                bytes.push(0x36);
                bytes.push(0x02);
                bytes.push(0x00);
            },
            Instruction::Nop => bytes.push(0x01),
            Instruction::Unreachable => bytes.push(0x00),
        }
        assert(bytes@ =~= self.spec_bytes());
        bytes
    }

    /// The number of bytes that encode this instruction.
    pub fn len(&self) -> (r: usize)
        ensures
            r == self.spec_bytes().len(),
    {
        self.to_bytes().len()
    }
}

/// Appends the `n` low bytes of `v` to `bytes`, least significant first.
pub fn write_le_bytes(bytes: &mut Vec<u8>, v: u64, n: usize)
    ensures
        final(bytes)@ == old(bytes)@ + le_bytes(v, n as nat),
{
    let mut rest = v;
    let mut k: usize = n;
    while k > 0
        invariant
            k <= n,
            bytes@ + le_bytes(rest, k as nat) == old(bytes)@ + le_bytes(v, n as nat),
        decreases k,
    {
        let ghost before = bytes@;
        bytes.push((rest % 256) as u8);
        assert(le_bytes(rest, k as nat) == seq![(rest % 256) as u8] + le_bytes(
            rest / 256,
            (k - 1) as nat,
        ));
        assert(bytes@ + le_bytes(rest / 256, (k - 1) as nat) == before + le_bytes(rest, k as nat));
        rest = rest / 256;
        k = k - 1;
    }
    assert(le_bytes(rest, 0) =~= Seq::<u8>::empty());
    assert(bytes@ =~= old(bytes)@ + le_bytes(v, n as nat));
}

} // verus!
