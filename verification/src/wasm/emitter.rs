//! From intermediate code to a WebAssembly module.
use vstd::prelude::*;
use vstd::utf8::encode_utf8;
use crate::ir::code::{
    self as ir, InstrV, ValueV, TypeV, FuncV, value_view, instr_view, block_view, instrs_view,
    lemma_block_view, func_view, funcs_view, type_view,
};
use crate::text::str_eq;
use crate::wasm::leb::leb;
use crate::wasm::module::{Module, types_of, blocks_of, functions_of, segments_of};
use crate::wasm::opcode::Instruction;
use crate::wasm::section::_type::{FunctionType, Kind, ValueType, kinds_bytes};
use crate::wasm::section::code::{Block, blocks_len, block_len};
use crate::wasm::section::function::{first_index, function_id};
use crate::wasm::section::DataType;

verus! {

/// A data segment by its offset, instructions and bytes.
pub type SegV = (u32, Seq<Instruction>, Seq<u8>);

/// What compiling reads and changes of the module: the names of its own
/// functions, and its data segments.
pub type MState = (Seq<Seq<char>>, Seq<SegV>);

/// The part of a module that compiling reads and changes.
pub open spec fn mstate(m: Module) -> MState {
    (functions_of(m.function).1, segments_of(m.data).map_values(|s: crate::wasm::section::data::Segment| s@))
}

/// Storing a string: its UTF-8 bytes go at the end of the last segment (of a
/// new one when there is none); gives the segments after and where the bytes
/// start in that segment.
pub open spec fn store_string(segs: Seq<SegV>, s: Seq<char>) -> (Seq<SegV>, u32) {
    let b = encode_utf8(s);
    if segs.len() == 0 {
        (seq![(0u32, Seq::<Instruction>::empty(), b)], 0u32)
    } else {
        let l = segs.last();
        (segs.drop_last().push((l.0, l.1, l.2 + b)), l.2.len() as u32)
    }
}

/// The names of some parameters.
pub open spec fn param_names(params: Seq<(Seq<char>, TypeV)>) -> Seq<Seq<char>> {
    params.map_values(|p: (Seq<char>, TypeV)| p.0)
}

/// The local that a name stands for: a parameter (the first of that name),
/// or else a function of the module's own.
pub open spec fn variable_index(params: Seq<(Seq<char>, TypeV)>, own: Seq<Seq<char>>, name: Seq<char>) -> Option<u32> {
    match first_index(param_names(params), name) {
        Some(k) => Some(k as u32),
        None => function_id(Seq::empty(), own, name),
    }
}

/// The instructions that push a value.
pub open spec fn value_code(v: ValueV, params: Seq<(Seq<char>, TypeV)>, ms: MState) -> (Seq<Instruction>, MState) {
    match v {
        ValueV::Int(i) => (seq![Instruction::I32Const(i)], ms),
        ValueV::Char(c) => (seq![Instruction::I32Const((c as u32) as i32)], ms),
        ValueV::Bool(b) => (seq![Instruction::I32Const(if b { 1i32 } else { 0i32 })], ms),
        ValueV::Variable(name) => (
            seq![Instruction::LocalGet(variable_index(params, ms.0, name)->0)],
            ms,
        ),
        ValueV::Str(s) => {
            let (segs, ptr) = store_string(ms.1, s);
            (
                seq![
                    Instruction::I32Const(ptr as i32),
                    Instruction::I32Const((encode_utf8(s).len() as usize) as i32),
                ],
                (ms.0, segs),
            )
        },
    }
}

/// The instructions for an intermediate instruction.
pub open spec fn instr_code(i: InstrV, params: Seq<(Seq<char>, TypeV)>, ms: MState) -> (Seq<Instruction>, MState)
    decreases i,
{
    match i {
        InstrV::If { condition, then_branch, else_branch } => {
            let (a, m1) = block_code(condition, params, ms);
            let (b, m2) = block_code(then_branch, params, m1);
            match else_branch {
                Some(e) => {
                    let (d, m3) = block_code(e, params, m2);
                    (
                        a + seq![Instruction::If(DataType::I32)] + b + seq![Instruction::Else] + d
                            + seq![Instruction::End],
                        m3,
                    )
                },
                None => (a + seq![Instruction::If(DataType::I32)] + b + seq![Instruction::End], m2),
            }
        },
        InstrV::GreaterThan => (seq![Instruction::I32Gt], ms),
        InstrV::Push(v) => value_code(v, params, ms),
        _ => (Seq::empty(), ms),
    }
}

/// The instructions for a block, one instruction after the other.
pub open spec fn block_code(bs: Seq<InstrV>, params: Seq<(Seq<char>, TypeV)>, ms: MState) -> (Seq<Instruction>, MState)
    decreases bs,
{
    if bs.len() == 0 {
        (Seq::empty(), ms)
    } else {
        let (a, m1) = block_code(bs.drop_last(), params, ms);
        let (b, m2) = instr_code(bs.last(), params, m1);
        (a + b, m2)
    }
}

/// Whether an instruction can be compiled: an `if`, `>` or a push, whose
/// variables name a parameter or a function of the module's own.
pub open spec fn instr_ok(i: InstrV, params: Seq<(Seq<char>, TypeV)>, own: Seq<Seq<char>>) -> bool
    decreases i,
{
    match i {
        InstrV::If { condition, then_branch, else_branch } => block_ok(condition, params, own)
            && block_ok(then_branch, params, own) && match else_branch {
            Some(e) => block_ok(e, params, own),
            None => true,
        },
        InstrV::GreaterThan => true,
        InstrV::Push(v) => match v {
            ValueV::Variable(name) => variable_index(params, own, name) is Some,
            _ => true,
        },
        _ => false,
    }
}

/// Whether every instruction of a block can be compiled.
pub open spec fn block_ok(bs: Seq<InstrV>, params: Seq<(Seq<char>, TypeV)>, own: Seq<Seq<char>>) -> bool
    decreases bs,
{
    if bs.len() == 0 {
        true
    } else {
        block_ok(bs.drop_last(), params, own) && instr_ok(bs.last(), params, own)
    }
}

/// A signature by its parameters (each with its name, if any) and results.
pub type KindV = (Seq<(Option<Seq<char>>, DataType)>, Seq<DataType>);

/// The view of a parameter type.
pub open spec fn value_type_view(v: ValueType) -> (Option<Seq<char>>, DataType) {
    match v {
        ValueType::WithName(s, d) => (Some(s@), d),
        ValueType::Data(d) => (None, d),
    }
}

/// The view of a signature.
pub open spec fn kind_view(k: Kind) -> KindV {
    match k {
        Kind::Function(f) => (f@.0.map_values(|v: ValueType| value_type_view(v)), f@.1),
    }
}

/// The signature of a function: its named parameters and its result, all
/// `i32`.
pub open spec fn func_kind(f: FuncV) -> KindV {
    (
        f.1.map_values(|p: (Seq<char>, TypeV)| (Some(p.0), DataType::I32)),
        if f.2 is Some {
            seq![DataType::I32]
        } else {
            Seq::empty()
        },
    )
}

/// The size of a signature's encoding.
pub open spec fn kind_size(params: nat, results: nat) -> int {
    (1 + leb(params as u64).len() + params + leb(results as u64).len() + results) as int
}

/// Whether a function's parameters and result are all `Int`.
pub open spec fn int_typed(f: FuncV) -> bool {
    &&& forall|k: int| 0 <= k < f.1.len() ==> (#[trigger] f.1[k]).1 == TypeV::Int
    &&& (f.2 matches Some(t) ==> t == TypeV::Int)
}

/// What compiling the functions gives: the names, signatures and bodies of
/// the module's functions, and its data segments.
pub open spec fn compile_funcs(fs: Seq<FuncV>) -> (Seq<Seq<char>>, Seq<KindV>, Seq<Seq<Instruction>>, Seq<SegV>)
    decreases fs.len(),
{
    if fs.len() == 0 {
        (Seq::empty(), Seq::empty(), Seq::empty(), Seq::empty())
    } else {
        let prev = compile_funcs(fs.drop_last());
        let f = fs.last();
        let (body, ms) = block_code(f.3, f.1, (prev.0, prev.3));
        (prev.0.push(f.0), prev.1.push(func_kind(f)), prev.2.push(body), ms.1)
    }
}

/// Whether the functions can be compiled: each is `Int`-typed and its body
/// names only parameters and functions before it.
pub open spec fn funcs_ok(fs: Seq<FuncV>) -> bool
    decreases fs.len(),
{
    if fs.len() == 0 {
        true
    } else {
        funcs_ok(fs.drop_last()) && int_typed(fs.last()) && block_ok(
            fs.last().3,
            fs.last().1,
            compile_funcs(fs.drop_last()).0,
        )
    }
}

/// The total size of the signatures' encodings.
pub open spec fn kinds_size(ks: Seq<KindV>) -> int
    decreases ks.len(),
{
    if ks.len() == 0 {
        0
    } else {
        kinds_size(ks.drop_last()) + kind_size(ks.last().0.len(), ks.last().1.len())
    }
}

/// The total declared size of the bodies.
pub open spec fn bodies_size(bs: Seq<Seq<Instruction>>) -> int
    decreases bs.len(),
{
    if bs.len() == 0 {
        0
    } else {
        bodies_size(bs.drop_last()) + block_len(bs.last())
    }
}

/// Whether the sections of the compiled functions have sizes that fit a
/// `usize`.
pub open spec fn fits(fs: Seq<FuncV>) -> bool {
    &&& kinds_size(compile_funcs(fs).1) <= usize::MAX
    &&& bodies_size(compile_funcs(fs).2) <= usize::MAX
}

/// The view of a parameter list.
pub open spec fn params_view(ps: Seq<(String, ir::Type)>) -> Seq<(Seq<char>, TypeV)> {
    ps.map_values(|p: (String, ir::Type)| (p.0@, type_view(p.1)))
}

/// A name found in a prefix is found at the same place in the whole.
pub proof fn lemma_first_index_prefix(s: Seq<Seq<char>>, k: int, name: Seq<char>)
    requires
        0 <= k <= s.len(),
        first_index(s.subrange(0, k), name) is Some,
    ensures
        first_index(s, name) == first_index(s.subrange(0, k), name),
    decreases s.len(),
{
    if k == s.len() {
        assert(s.subrange(0, k) =~= s);
    } else {
        assert(s.drop_last().subrange(0, k) =~= s.subrange(0, k));
        lemma_first_index_prefix(s.drop_last(), k, name);
    }
}

/// The module parts that compiling leaves alone.
pub open spec fn same_except_data(a: Module, b: Module) -> bool {
    &&& a.header == b.header
    &&& a.kind == b.kind
    &&& a.imports == b.imports
    &&& a.function == b.function
    &&& a.memory == b.memory
    &&& a.export == b.export
    &&& a.start == b.start
    &&& a.code == b.code
}

/// The place of the first parameter named `name`, if any.
fn param_position(params: &Vec<(String, ir::Type)>, name: &String) -> (r: Option<usize>)
    ensures
        match r {
            Some(k) => first_index(param_names(params_view(params@)), name@) == Some(k as int),
            None => first_index(param_names(params_view(params@)), name@) is None,
        },
{
    let ghost ns = param_names(params_view(params@));
    let mut k: usize = 0;
    while k < params.len()
        invariant
            k <= params@.len(),
            ns == param_names(params_view(params@)),
            ns.len() == params@.len(),
            first_index(ns.subrange(0, k as int), name@) is None,
        decreases params@.len() - k,
    {
        assert(ns.subrange(0, k + 1).drop_last() =~= ns.subrange(0, k as int));
        if str_eq(params[k].0.as_str(), name.as_str()) {
            proof {
                assert(ns[k as int] == params@[k as int].0@);
                lemma_first_index_prefix(ns, k + 1, name@);
            }
            return Some(k);
        }
        k = k + 1;
    }
    assert(ns.subrange(0, k as int) =~= ns);
    None
}

/// The instructions that push a value.
fn compile_value(module: &mut Module, value: &ir::Value, params: &Vec<(String, ir::Type)>) -> (r: Vec<Instruction>)
    requires
        functions_of(old(module).function).0.len() == 0,
        instr_ok(InstrV::Push(value_view(*value)), params_view(params@), mstate(*old(module)).0),
    ensures
        (r@, mstate(*final(module))) == value_code(
            value_view(*value),
            params_view(params@),
            mstate(*old(module)),
        ),
        same_except_data(*old(module), *final(module)),
{
    let mut instructions: Vec<Instruction> = Vec::new();
    match value {
        ir::Value::Int(value) => instructions.push(Instruction::I32Const(*value)),
        ir::Value::Char(value) => instructions.push(Instruction::I32Const((*value as u32) as i32)),
        ir::Value::Bool(value) => instructions.push(Instruction::I32Const(if *value { 1 } else { 0 })),
        ir::Value::Variable(name) => {
            let index = match param_position(params, name) {
                Some(k) => Some(k as u32),
                None => module.get_function_id(name.as_str()),
            };
            match index {
                Some(i) => instructions.push(Instruction::LocalGet(i)),
                None => {},
            }
        },
        ir::Value::String(string) => {
            let ghost segs = mstate(*module).1;
            let ghost old_segs = segments_of(module.data);
            let ptr = module.add_string(string.as_str());
            proof {
                let new_segs = segments_of(module.data);
                if old_segs.len() > 0 {
                    assert forall|i: int| 0 <= i < new_segs.len() - 1 implies new_segs[i] == old_segs[i] by {
                        assert(new_segs[i] == new_segs.drop_last()[i]);
                        assert(old_segs[i] == old_segs.drop_last()[i]);
                    }
                }
                assert(mstate(*module).1 =~= store_string(segs, string@).0);
            }
            instructions.push(Instruction::I32Const(ptr as i32));
            instructions.push(Instruction::I32Const(string.as_str().len() as i32));
        },
    }
    assert(instructions@ =~= value_code(value_view(*value), params_view(params@), mstate(*old(module))).0);
    instructions
}

/// The instructions for an intermediate instruction.
fn compile_instruction(module: &mut Module, instruction: &ir::Instruction, params: &Vec<(String, ir::Type)>) -> (r: Vec<Instruction>)
    requires
        functions_of(old(module).function).0.len() == 0,
        instr_ok(instr_view(*instruction), params_view(params@), mstate(*old(module)).0),
    ensures
        (r@, mstate(*final(module))) == instr_code(
            instr_view(*instruction),
            params_view(params@),
            mstate(*old(module)),
        ),
        same_except_data(*old(module), *final(module)),
    decreases *instruction,
{
    let mut instructions: Vec<Instruction> = Vec::new();
    match instruction {
        ir::Instruction::If { condition, then_branch, else_branch } => {
            let mut a = compile_block(module, condition, params);
            instructions.append(&mut a);
            instructions.push(Instruction::If(DataType::I32));
            let mut b = compile_block(module, then_branch, params);
            instructions.append(&mut b);
            match else_branch {
                Some(e) => {
                    instructions.push(Instruction::Else);
                    let mut d = compile_block(module, e, params);
                    instructions.append(&mut d);
                },
                None => {},
            }
            instructions.push(Instruction::End);
        },
        ir::Instruction::GreaterThan => instructions.push(Instruction::I32Gt),
        ir::Instruction::Push(value) => {
            let mut values = compile_value(module, value, params);
            instructions.append(&mut values);
        },
        _ => {},
    }
    assert(instructions@ =~= instr_code(instr_view(*instruction), params_view(params@), mstate(*old(module))).0);
    instructions
}

/// The instructions for a block, one instruction after the other.
fn compile_block(module: &mut Module, block: &ir::Block, params: &Vec<(String, ir::Type)>) -> (r: Vec<Instruction>)
    requires
        functions_of(old(module).function).0.len() == 0,
        block_ok(block_view(*block), params_view(params@), mstate(*old(module)).0),
    ensures
        (r@, mstate(*final(module))) == block_code(
            block_view(*block),
            params_view(params@),
            mstate(*old(module)),
        ),
        same_except_data(*old(module), *final(module)),
    decreases *block,
{
    let ghost bs = block_view(*block);
    let ghost pv = params_view(params@);
    proof {
        lemma_block_view(*block);
    }
    let mut instructions: Vec<Instruction> = Vec::new();
    let mut k: usize = 0;
    while k < block.instructions.len()
        invariant
            k <= block.instructions@.len(),
            bs == instrs_view(block.instructions@),
            pv == params_view(params@),
            block_ok(bs, pv, mstate(*old(module)).0),
            functions_of(module.function).0.len() == 0,
            same_except_data(*old(module), *module),
            (instructions@, mstate(*module)) == block_code(
                bs.subrange(0, k as int),
                pv,
                mstate(*old(module)),
            ),
        decreases block.instructions@.len() - k,
    {
        let ghost sub = bs.subrange(0, k + 1);
        assert(sub.drop_last() =~= bs.subrange(0, k as int));
        assert(sub.last() == instr_view(block.instructions@[k as int]));
        proof {
            lemma_block_ok_prefix(bs, (k + 1) as int, pv, mstate(*old(module)).0);
        }
        let ghost before = instructions@;
        let mut more = compile_instruction(module, &block.instructions[k], params);
        instructions.append(&mut more);
        k = k + 1;
    }
    assert(bs.subrange(0, k as int) =~= bs);
    instructions
}

/// Every prefix of a block that can be compiled can be compiled, and so can
/// its last instruction.
pub proof fn lemma_block_ok_prefix(bs: Seq<InstrV>, k: int, params: Seq<(Seq<char>, TypeV)>, own: Seq<Seq<char>>)
    requires
        0 < k <= bs.len(),
        block_ok(bs, params, own),
    ensures
        block_ok(bs.subrange(0, k), params, own),
        instr_ok(bs[k - 1], params, own),
    decreases bs.len(),
{
    if k == bs.len() {
        assert(bs.subrange(0, k) =~= bs);
    } else {
        assert(bs.drop_last().subrange(0, k) =~= bs.subrange(0, k));
        lemma_block_ok_prefix(bs.drop_last(), k, params, own);
    }
}

/// The size of a signature's encoding depends only on how many parameters and
/// results it has.
pub proof fn lemma_kind_size(k: Kind)
    ensures
        k.spec_bytes().len() == kind_size(kind_view(k).0.len(), kind_view(k).1.len()),
{
}

/// The compiled functions of a prefix are a prefix of the compiled functions.
pub proof fn lemma_compile_funcs_prefix(fs: Seq<FuncV>, k: int)
    requires
        0 <= k <= fs.len(),
    ensures
        compile_funcs(fs.subrange(0, k)).1 == compile_funcs(fs).1.subrange(0, k),
        compile_funcs(fs.subrange(0, k)).2 == compile_funcs(fs).2.subrange(0, k),
        compile_funcs(fs).1.len() == fs.len(),
        compile_funcs(fs).2.len() == fs.len(),
    decreases fs.len(),
{
    if fs.len() > 0 {
        lemma_compile_funcs_prefix(fs.drop_last(), if k < fs.len() { k } else { fs.len() - 1 });
    }
    if k == fs.len() {
        assert(fs.subrange(0, k) =~= fs);
        assert(compile_funcs(fs).1.subrange(0, k) =~= compile_funcs(fs).1);
        assert(compile_funcs(fs).2.subrange(0, k) =~= compile_funcs(fs).2);
    } else {
        assert(fs.drop_last().subrange(0, k) =~= fs.subrange(0, k));
        assert(compile_funcs(fs).1.subrange(0, k) =~= compile_funcs(fs.drop_last()).1.subrange(0, k));
        assert(compile_funcs(fs).2.subrange(0, k) =~= compile_funcs(fs.drop_last()).2.subrange(0, k));
    }
}

/// Every prefix of functions that can be compiled can be compiled.
pub proof fn lemma_funcs_ok_prefix(fs: Seq<FuncV>, k: int)
    requires
        0 <= k <= fs.len(),
        funcs_ok(fs),
    ensures
        funcs_ok(fs.subrange(0, k)),
    decreases fs.len(),
{
    if k == fs.len() {
        assert(fs.subrange(0, k) =~= fs);
    } else {
        assert(fs.drop_last().subrange(0, k) =~= fs.subrange(0, k));
        lemma_funcs_ok_prefix(fs.drop_last(), k);
    }
}

/// The sizes of prefixes grow.
pub proof fn lemma_sizes_prefix(ks: Seq<KindV>, bs: Seq<Seq<Instruction>>, k: int)
    requires
        0 <= k <= ks.len(),
        k <= bs.len(),
    ensures
        kinds_size(ks.subrange(0, k)) <= kinds_size(ks),
        bodies_size(bs.subrange(0, k)) <= bodies_size(bs),
    decreases ks.len() + bs.len(),
{
    if k == ks.len() && k == bs.len() {
        assert(ks.subrange(0, k) =~= ks);
        assert(bs.subrange(0, k) =~= bs);
    } else if k < ks.len() {
        assert(ks.drop_last().subrange(0, k) =~= ks.subrange(0, k));
        lemma_sizes_prefix(ks.drop_last(), bs, k);
    } else {
        assert(bs.drop_last().subrange(0, k) =~= bs.subrange(0, k));
        lemma_sizes_prefix(ks, bs.drop_last(), k);
    }
}

/// Adds each function of `functions` to `module`: its signature, and its body
/// compiled.
fn compile_function_in_module(module: &mut Module, functions: &Vec<ir::Function>)
    requires
        old(module).wf(),
        old(module).kind is None,
        old(module).function is None,
        old(module).code is None,
        old(module).data is None,
        funcs_ok(funcs_view(functions@)),
        fits(funcs_view(functions@)),
    ensures
        final(module).wf(),
        final(module).header == old(module).header,
        final(module).imports == old(module).imports,
        final(module).memory == old(module).memory,
        final(module).export == old(module).export,
        final(module).start == old(module).start,
        functions_of(final(module).function) == (Seq::<Seq<char>>::empty(), compile_funcs(funcs_view(functions@)).0),
        types_of(final(module).kind).map_values(|k: Kind| kind_view(k)) == compile_funcs(funcs_view(functions@)).1,
        blocks_of(final(module).code).map_values(|b: Block| b@) == compile_funcs(funcs_view(functions@)).2,
        mstate(*final(module)).1 == compile_funcs(funcs_view(functions@)).3,
{
    let ghost fs = funcs_view(functions@);
    let ghost all = compile_funcs(fs);
    proof {
        lemma_compile_funcs_prefix(fs, fs.len() as int);
    }
    let mut k: usize = 0;
    assert(fs.subrange(0, 0) =~= Seq::<FuncV>::empty());
    assert(types_of(module.kind).map_values(|k: Kind| kind_view(k)) =~= Seq::<KindV>::empty());
    assert(blocks_of(module.code).map_values(|b: Block| b@) =~= Seq::<Seq<Instruction>>::empty());
    assert(mstate(*module).1 =~= Seq::<SegV>::empty());
    while k < functions.len()
        invariant
            k <= functions@.len(),
            fs == funcs_view(functions@),
            all == compile_funcs(fs),
            funcs_ok(fs),
            fits(fs),
            all.1.len() == fs.len(),
            all.2.len() == fs.len(),
            module.wf(),
            module.header == old(module).header,
            module.imports == old(module).imports,
            module.memory == old(module).memory,
            module.export == old(module).export,
            module.start == old(module).start,
            functions_of(module.function) == (Seq::<Seq<char>>::empty(), compile_funcs(fs.subrange(0, k as int)).0),
            types_of(module.kind).map_values(|k: Kind| kind_view(k)) == compile_funcs(fs.subrange(0, k as int)).1,
            blocks_of(module.code).map_values(|b: Block| b@) == compile_funcs(fs.subrange(0, k as int)).2,
            mstate(*module).1 == compile_funcs(fs.subrange(0, k as int)).3,
            kinds_bytes(types_of(module.kind)).len() == kinds_size(compile_funcs(fs.subrange(0, k as int)).1),
            blocks_len(blocks_of(module.code)) == bodies_size(compile_funcs(fs.subrange(0, k as int)).2),
        decreases functions@.len() - k,
    {
        let f = &functions[k];
        let ghost fv = fs[k as int];
        let ghost prefix = fs.subrange(0, k as int);
        let ghost next = fs.subrange(0, k + 1);
        assert(next.drop_last() =~= prefix);
        assert(next.last() == fv);
        assert(fv == func_view(*f));
        proof {
            lemma_funcs_ok_prefix(fs, k + 1);
            lemma_compile_funcs_prefix(fs, k + 1);
            lemma_sizes_prefix(all.1, all.2, k + 1);
        }
        let mut func_type = FunctionType::default();
        let mut j: usize = 0;
        while j < f.params.len()
            invariant
                j <= f.params@.len(),
                fv == func_view(*f),
                func_type@.1 == Seq::<DataType>::empty(),
                func_type@.0.map_values(|v: ValueType| value_type_view(v)) =~= fv.1.subrange(
                    0,
                    j as int,
                ).map_values(|p: (Seq<char>, TypeV)| (Some(p.0), DataType::I32)),
            decreases f.params@.len() - j,
        {
            let ghost before = func_type@.0;
            let pname = f.params[j].0.clone();
            assert(fv.1[j as int].0 == f.params@[j as int].0@);
            assert(pname@ == f.params@[j as int].0@);
            func_type = func_type.with_param(ValueType::WithName(pname, DataType::I32));
            assert(fv.1.subrange(0, j + 1) =~= fv.1.subrange(0, j as int).push(fv.1[j as int]));
            assert(func_type@.0.map_values(|v: ValueType| value_type_view(v)) =~= before.map_values(
                |v: ValueType| value_type_view(v),
            ).push((Some(fv.1[j as int].0), DataType::I32)));
            assert(fv.1.subrange(0, j + 1).map_values(
                |p: (Seq<char>, TypeV)| (Some(p.0), DataType::I32),
            ) =~= fv.1.subrange(0, j as int).map_values(
                |p: (Seq<char>, TypeV)| (Some(p.0), DataType::I32),
            ).push((Some(fv.1[j as int].0), DataType::I32)));
            j = j + 1;
        }
        assert(fv.1.subrange(0, j as int) =~= fv.1);
        if f.return_type.is_some() {
            func_type = func_type.with_result(DataType::I32);
        }
        let ghost kv = (func_type@.0.map_values(|v: ValueType| value_type_view(v)), func_type@.1);
        assert(kv.1 =~= func_kind(fv).1);
        let kind = Kind::Function(func_type);
        assert(kind_view(kind) =~= func_kind(fv));
        proof {
            lemma_kind_size(kind);
            assert(params_view(f.params@) =~= fv.1);
        }
        let instructions = compile_block(module, &f.body, &f.params);
        let block = Block::new(instructions);
        proof {
            assert(compile_funcs(next).1.drop_last() =~= compile_funcs(prefix).1);
            assert(compile_funcs(next).2.drop_last() =~= compile_funcs(prefix).2);
            assert(compile_funcs(next).1 == all.1.subrange(0, k + 1));
            assert(kinds_size(compile_funcs(next).1) == kinds_size(compile_funcs(prefix).1) + kind_size(
                kind_view(kind).0.len(),
                kind_view(kind).1.len(),
            ));
            assert(bodies_size(compile_funcs(next).2) == bodies_size(compile_funcs(prefix).2) + block_len(
                block@,
            ));
        }
        let ghost types_before = types_of(module.kind);
        let ghost blocks_before = blocks_of(module.code);
        module.add_function(f.name.clone(), kind, block);
        proof {
            assert(types_of(module.kind).drop_last() =~= types_before);
            assert(blocks_of(module.code).drop_last() =~= blocks_before);
            assert(types_of(module.kind).map_values(|k: Kind| kind_view(k)) =~= compile_funcs(next).1);
            assert(blocks_of(module.code).map_values(|b: Block| b@) =~= compile_funcs(next).2);
            assert(compile_funcs(next).1.drop_last() =~= compile_funcs(prefix).1);
            assert(compile_funcs(next).2.drop_last() =~= compile_funcs(prefix).2);
        }
        k = k + 1;
    }
    assert(fs.subrange(0, k as int) =~= fs);
}

/// The place of the first name equal to `name`, if any.
fn name_position(names: &Vec<String>, name: &String) -> (r: Option<usize>)
    ensures
        match r {
            Some(k) => first_index(names@.map_values(|s: String| s@), name@) == Some(k as int),
            None => first_index(names@.map_values(|s: String| s@), name@) is None,
        },
{
    let ghost ns = names@.map_values(|s: String| s@);
    let mut k: usize = 0;
    while k < names.len()
        invariant
            k <= names@.len(),
            ns == names@.map_values(|s: String| s@),
            first_index(ns.subrange(0, k as int), name@) is None,
        decreases names@.len() - k,
    {
        assert(ns.subrange(0, k + 1).drop_last() =~= ns.subrange(0, k as int));
        if str_eq(names[k].as_str(), name.as_str()) {
            proof {
                lemma_first_index_prefix(ns, k + 1, name@);
            }
            return Some(k);
        }
        k = k + 1;
    }
    assert(ns.subrange(0, k as int) =~= ns);
    None
}

/// Whether an instruction can be compiled, with these parameters and these
/// functions of the module's own.
fn check_instruction(i: &ir::Instruction, params: &Vec<(String, ir::Type)>, own: &Vec<String>) -> (r: bool)
    ensures
        r == instr_ok(instr_view(*i), params_view(params@), own@.map_values(|s: String| s@)),
    decreases *i,
{
    match i {
        ir::Instruction::If { condition, then_branch, else_branch } => {
            check_block(condition, params, own) && check_block(then_branch, params, own)
                && match else_branch {
                Some(e) => check_block(e, params, own),
                None => true,
            }
        },
        ir::Instruction::GreaterThan => true,
        ir::Instruction::Push(v) => match v {
            ir::Value::Variable(name) => {
                let ghost ownv = own@.map_values(|s: String| s@);
                proof {
                    crate::wasm::section::function::lemma_first_index_empty(name@);
                }
                param_position(params, name).is_some() || name_position(own, name).is_some()
            },
            _ => true,
        },
        _ => false,
    }
}

/// Whether every instruction of a block can be compiled.
fn check_block(b: &ir::Block, params: &Vec<(String, ir::Type)>, own: &Vec<String>) -> (r: bool)
    ensures
        r == block_ok(block_view(*b), params_view(params@), own@.map_values(|s: String| s@)),
    decreases *b,
{
    let ghost bs = block_view(*b);
    let ghost pv = params_view(params@);
    let ghost ov = own@.map_values(|s: String| s@);
    proof {
        lemma_block_view(*b);
    }
    let mut k: usize = 0;
    let mut ok = true;
    assert(bs.subrange(0, 0) =~= Seq::<InstrV>::empty());
    while k < b.instructions.len()
        invariant
            k <= b.instructions@.len(),
            bs == instrs_view(b.instructions@),
            pv == params_view(params@),
            ov == own@.map_values(|s: String| s@),
            ok == block_ok(bs.subrange(0, k as int), pv, ov),
        decreases b.instructions@.len() - k,
    {
        let ghost sub = bs.subrange(0, k + 1);
        assert(sub.drop_last() =~= bs.subrange(0, k as int));
        assert(sub.last() == instr_view(b.instructions@[k as int]));
        let this = check_instruction(&b.instructions[k], params, own);
        ok = ok && this;
        k = k + 1;
    }
    assert(bs.subrange(0, k as int) =~= bs);
    ok
}

/// Whether a function's parameters and result are all `Int`.
fn check_types(f: &ir::Function) -> (r: bool)
    ensures
        r == int_typed(func_view(*f)),
{
    let ghost fv = func_view(*f);
    let mut k: usize = 0;
    while k < f.params.len()
        invariant
            k <= f.params@.len(),
            fv == func_view(*f),
            forall|j: int| 0 <= j < k ==> (#[trigger] fv.1[j]).1 == TypeV::Int,
        decreases f.params@.len() - k,
    {
        if !matches!(f.params[k].1, ir::Type::Int) {
            assert(fv.1[k as int].1 != TypeV::Int);
            return false;
        }
        k = k + 1;
    }
    match &f.return_type {
        Some(t) => matches!(t, ir::Type::Int),
        None => true,
    }
}

/// Whether the functions can be compiled: each has `Int` types only, and its
/// body names only parameters and functions before it.
pub fn check_functions(functions: &Vec<ir::Function>) -> (r: bool)
    ensures
        r == funcs_ok(funcs_view(functions@)),
{
    let ghost fs = funcs_view(functions@);
    let mut own: Vec<String> = Vec::new();
    let mut ok = true;
    let mut k: usize = 0;
    assert(fs.subrange(0, 0) =~= Seq::<FuncV>::empty());
    while k < functions.len()
        invariant
            k <= functions@.len(),
            fs == funcs_view(functions@),
            own@.map_values(|s: String| s@) == compile_funcs(fs.subrange(0, k as int)).0,
            ok == funcs_ok(fs.subrange(0, k as int)),
        decreases functions@.len() - k,
    {
        let f = &functions[k];
        let ghost next = fs.subrange(0, k + 1);
        assert(next.drop_last() =~= fs.subrange(0, k as int));
        assert(next.last() == func_view(*f));
        let typed = check_types(f);
        proof {
            assert(params_view(f.params@) =~= func_view(*f).1);
        }
        let body = check_block(&f.body, &f.params, &own);
        ok = ok && typed && body;
        let ghost before = own@;
        own.push(f.name.clone());
        proof {
            assert(own@.map_values(|s: String| s@) =~= before.map_values(|s: String| s@).push(f.name@));
        }
        k = k + 1;
    }
    assert(fs.subrange(0, k as int) =~= fs);
    ok
}

/// The emitter from intermediate code to WebAssembly.
#[derive(Debug)]
pub struct Emitter {
    module: Module,
    ir_module: ir::Module,
}

impl Emitter {
    /// The functions to compile, by their views.
    pub closed spec fn functions(&self) -> Seq<FuncV> {
        funcs_view(self.ir_module.functions@)
    }

    /// The module being built.
    pub closed spec fn module(&self) -> Module {
        self.module
    }

    /// An emitter for `ir_module`, with an empty module.
    pub fn new(ir_module: ir::Module) -> (r: Self)
        ensures
            r.functions() == funcs_view(ir_module.functions@),
            r.module().wf(),
            r.module().header.magic_number@ == seq![0x00u8, 0x61u8, 0x73u8, 0x6Du8],
            r.module().header.version@ == seq![0x01u8, 0x00u8, 0x00u8, 0x00u8],
            r.module().kind is None,
            r.module().imports is None,
            r.module().function is None,
            r.module().memory is None,
            r.module().export is None,
            r.module().start is None,
            r.module().code is None,
            r.module().data is None,
    {
        Self { module: Module::default(), ir_module }
    }

    /// The module: each function compiled and added, and the function `main`,
    /// if there is one, made the start function.
    pub fn emit(self) -> (r: Module)
        requires
            self.module().wf(),
            self.module().kind is None,
            self.module().function is None,
            self.module().code is None,
            self.module().data is None,
            self.module().start is None,
            funcs_ok(self.functions()),
            fits(self.functions()),
        ensures
            r.wf(),
            r.header == self.module().header,
            r.imports == self.module().imports,
            r.memory == self.module().memory,
            r.export == self.module().export,
            functions_of(r.function) == (Seq::<Seq<char>>::empty(), compile_funcs(self.functions()).0),
            types_of(r.kind).map_values(|k: Kind| kind_view(k)) == compile_funcs(self.functions()).1,
            blocks_of(r.code).map_values(|b: Block| b@) == compile_funcs(self.functions()).2,
            segments_of(r.data).map_values(|s: crate::wasm::section::data::Segment| s@) == compile_funcs(self.functions()).3,
            match function_id(Seq::empty(), compile_funcs(self.functions()).0, "main"@) {
                Some(id) => r.start matches Some(s) && s@ == id,
                None => r.start is None,
            },
    {
        let Emitter { mut module, ir_module } = self;
        compile_function_in_module(&mut module, &ir_module.functions);
        match module.get_main_function_id() {
            Some(main_id) => module.set_start(main_id),
            None => {},
        }
        module
    }
}

} // verus!
