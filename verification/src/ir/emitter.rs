//! From the syntax tree to intermediate code.
use vstd::prelude::*;
use crate::front_end::{Atom, Expr, ExprV, Operator, expr_view};
use super::code::{
    Block, Function, Instruction, Module, Type, Value, InstrV, ValueV, TypeV, FuncV, type_view,
    type_of, instrs_view, block_view, lemma_block_view, funcs_view, func_view, value_view,
    opt_type_view,
};

verus! {

/// What the emitter can translate: no prefix operators, no enums, no binary
/// operator but `>`, and no function with more parameters than types.
pub open spec fn supported(e: ExprV) -> bool
    decreases e,
{
    match e {
        ExprV::Atom(_) => true,
        ExprV::Identifier(_) => true,
        ExprV::PrefixOp { .. } => false,
        ExprV::BinaryOp { left, op, right } => op == Operator::GreaterThan && supported(*left)
            && supported(*right),
        ExprV::Function { params, signature, body, .. } => params.len() <= signature.len()
            && supported(*body),
        ExprV::Enum { .. } => false,
        ExprV::If { condition, then_branch, else_branch } => supported(*condition) && supported(
            *then_branch,
        ) && match else_branch {
            Some(b) => supported(*b),
            None => true,
        },
    }
}

/// Whether the emitter can translate an expression.
pub fn is_supported(e: &Expr) -> (r: bool)
    ensures
        r == supported(expr_view(*e)),
    decreases *e,
{
    match e {
        Expr::Atom(_) => true,
        Expr::Identifier(_) => true,
        Expr::PrefixOp { .. } => false,
        Expr::BinaryOp { left, op, right } => matches!(op, Operator::GreaterThan) && is_supported(
            left,
        ) && is_supported(right),
        Expr::Function { params, signature, body, .. } => params.len() <= signature.len()
            && is_supported(body),
        Expr::Enum { .. } => false,
        Expr::If { condition, then_branch, else_branch } => is_supported(condition)
            && is_supported(then_branch) && match else_branch {
            Some(b) => is_supported(b),
            None => true,
        },
    }
}

/// The value that an atom is pushed as.
pub open spec fn atom_value(a: Atom) -> ValueV {
    match a {
        Atom::Int(v) => ValueV::Int(v),
        Atom::Char(v) => ValueV::Char(v),
        Atom::Bool(v) => ValueV::Bool(v),
    }
}

/// The emitter's state: the instructions pending, and the functions done.
pub type EState = (Seq<InstrV>, Seq<FuncV>);

/// Translating an expression: its instructions are appended to those
/// pending; a conditional takes all pending instructions as its condition,
/// and a function takes them as its body.
pub open spec fn emit(e: ExprV, st: EState) -> EState
    decreases e,
{
    match e {
        ExprV::Atom(a) => (st.0.push(InstrV::Push(atom_value(a))), st.1),
        ExprV::Identifier(name) => (st.0.push(InstrV::Push(ValueV::Variable(name))), st.1),
        ExprV::BinaryOp { left, right, .. } => {
            let st1 = emit(*left, st);
            let st2 = emit(*right, st1);
            (st2.0.push(InstrV::GreaterThan), st2.1)
        },
        ExprV::Function { name, params, signature, body } => {
            let st1 = emit(*body, st);
            let f = (
                name,
                Seq::new(params.len(), |k: int| (params[k], type_of(signature[k]))),
                if signature.len() > 0 {
                    Some(type_of(signature.last()))
                } else {
                    None
                },
                st1.0,
            );
            (Seq::empty(), st1.1.push(f))
        },
        ExprV::If { condition, then_branch, else_branch } => {
            let st1 = emit(*condition, st);
            let st2 = emit(*then_branch, (Seq::empty(), st1.1));
            match else_branch {
                Some(b) => {
                    let st3 = emit(*b, (Seq::empty(), st2.1));
                    (
                        seq![
                            InstrV::If {
                                condition: st1.0,
                                then_branch: st2.0,
                                else_branch: Some(st3.0),
                            },
                        ],
                        st3.1,
                    )
                },
                None => (
                    seq![
                        InstrV::If { condition: st1.0, then_branch: st2.0, else_branch: None },
                    ],
                    st2.1,
                ),
            }
        },
        _ => st,
    }
}

/// Translating expressions one after the other.
pub open spec fn emit_all(es: Seq<ExprV>, st: EState) -> EState
    decreases es.len(),
{
    if es.len() == 0 {
        st
    } else {
        emit(es.last(), emit_all(es.drop_last(), st))
    }
}

/// The emitter of intermediate code.
#[derive(Debug)]
pub struct Emitter {
    functions: Vec<Function>,
    instructions: Vec<Instruction>,
    blocks: Vec<Block>,
}

impl Emitter {
    /// The emitter's state.
    pub closed spec fn state(&self) -> EState {
        (instrs_view(self.instructions@), funcs_view(self.functions@))
    }

    /// An emitter with nothing pending and nothing done.
    pub fn new() -> (r: Self)
        ensures
            r.state() == (Seq::<InstrV>::empty(), Seq::<FuncV>::empty()),
    {
        let r = Self { functions: Vec::new(), blocks: Vec::new(), instructions: Vec::new() };
        assert(r.state().0 =~= Seq::<InstrV>::empty());
        assert(r.state().1 =~= Seq::<FuncV>::empty());
        r
    }

    /// Takes the pending instructions as a block.
    pub fn get_block(&mut self) -> (r: Block)
        ensures
            block_view(r) == old(self).state().0,
            final(self).state() == (Seq::<InstrV>::empty(), old(self).state().1),
    {
        let mut instructions: Vec<Instruction> = Vec::new();
        std::mem::swap(&mut instructions, &mut self.instructions);
        let r = Block { instructions };
        proof {
            lemma_block_view(r);
        }
        assert(self.state().0 =~= Seq::<InstrV>::empty());
        r
    }

    fn push_instruction(&mut self, i: Instruction)
        ensures
            final(self).state() == (old(self).state().0.push(super::code::instr_view(i)), old(self).state().1),
    {
        self.instructions.push(i);
        assert(self.state().0 =~= old(self).state().0.push(super::code::instr_view(i)));
    }

    /// Pushes an atom.
    pub fn visit_atom(&mut self, atom: &Atom)
        ensures
            final(self).state() == emit(ExprV::Atom(*atom), old(self).state()),
    {
        let value = match atom {
            Atom::Int(value) => Value::Int(*value),
            Atom::Char(value) => Value::Char(*value),
            Atom::Bool(value) => Value::Bool(*value),
        };
        self.push_instruction(Instruction::Push(value));
    }

    /// A binary operation: its operands, then the operator.
    pub fn visit_binary_op(&mut self, left: &Expr, op: &Operator, right: &Expr)
        requires
            supported(
                ExprV::BinaryOp {
                    left: Box::new(expr_view(*left)),
                    op: *op,
                    right: Box::new(expr_view(*right)),
                },
            ),
        ensures
            final(self).state() == emit(
                ExprV::BinaryOp {
                    left: Box::new(expr_view(*left)),
                    op: *op,
                    right: Box::new(expr_view(*right)),
                },
                old(self).state(),
            ),
    {
        self.visit_expr(left);
        self.visit_expr(right);
        self.push_instruction(Instruction::GreaterThan);
    }

    /// A conditional: the pending instructions and the condition's make its
    /// condition block.
    pub fn visit_if(&mut self, condition: &Expr, then_branch: &Expr, else_branch: Option<&Expr>)
        requires
            supported(expr_view(*condition)),
            supported(expr_view(*then_branch)),
            else_branch matches Some(b) ==> supported(expr_view(*b)),
        ensures
            final(self).state() == emit(
                ExprV::If {
                    condition: Box::new(expr_view(*condition)),
                    then_branch: Box::new(expr_view(*then_branch)),
                    else_branch: match else_branch {
                        Some(b) => Some(Box::new(expr_view(*b))),
                        None => None,
                    },
                },
                old(self).state(),
            ),
    {
        self.visit_expr(condition);
        let condition_block = self.get_block();
        self.visit_expr(then_branch);
        let then_branch_block = self.get_block();
        let else_branch_block = match else_branch {
            Some(b) => {
                self.visit_expr(b);
                let block = self.get_block();
                Some(block)
            },
            None => None,
        };
        self.push_instruction(
            Instruction::If {
                condition: condition_block,
                then_branch: then_branch_block,
                else_branch: else_branch_block,
            },
        );
        assert(self.state().0 =~= seq![self.state().0[0]]);
    }

    /// A function: its body becomes a function of the module.
    pub fn visit_function(&mut self, name: &String, params: &Vec<String>, signature: &Vec<String>, body: &Expr)
        requires
            params.len() <= signature.len(),
            supported(expr_view(*body)),
        ensures
            final(self).state() == emit(
                ExprV::Function {
                    name: name@,
                    params: params@.map_values(|s: String| s@),
                    signature: signature@.map_values(|s: String| s@),
                    body: Box::new(expr_view(*body)),
                },
                old(self).state(),
            ),
    {
        self.visit_expr(body);
        self.finish_function(name, params, signature);
        proof {
            let pv = params@.map_values(|s: String| s@);
            let sv = signature@.map_values(|s: String| s@);
            assert(Seq::new(pv.len(), |k: int| (pv[k], type_of(sv[k]))) =~= Seq::new(
                params@.len(),
                |k: int| (params@[k]@, type_of(signature@[k]@)),
            ));
            if signature@.len() > 0 {
                assert(sv.last() == signature@.last()@);
            }
        }
    }

    /// Makes a function of the pending instructions.
    fn finish_function(&mut self, name: &String, params: &Vec<String>, signature: &Vec<String>)
        requires
            params.len() <= signature.len(),
        ensures
            final(self).state() == (
                Seq::<InstrV>::empty(),
                old(self).state().1.push(
                    (
                        name@,
                        Seq::new(
                            params@.len(),
                            |k: int| (params@[k]@, type_of(signature@[k]@)),
                        ),
                        if signature@.len() > 0 {
                            Some(type_of(signature@.last()@))
                        } else {
                            None
                        },
                        old(self).state().0,
                    ),
                ),
            ),
    {
        let block = self.get_block();
        let mut ps: Vec<(String, Type)> = Vec::new();
        let mut k: usize = 0;
        while k < params.len()
            invariant
                k <= params.len() <= signature.len(),
                ps@.len() == k,
                forall|j: int|
                    0 <= j < k ==> (#[trigger] ps@[j]).0@ == params@[j]@ && type_view(ps@[j].1)
                        == type_of(signature@[j]@),
            decreases params.len() - k,
        {
            let ty = Type::from_name(&signature[k]);
            let p = params[k].clone();
            ps.push((p, ty));
            k = k + 1;
        }
        assert(ps@.map_values(|p: (String, Type)| (p.0@, type_view(p.1))) =~= Seq::new(
            params@.len(),
            |j: int| (params@[j]@, type_of(signature@[j]@)),
        ));
        let return_type = if signature.len() > 0 {
            Some(Type::from_name(&signature[signature.len() - 1]))
        } else {
            None
        };
        let func = Function { name: name.clone(), params: ps, return_type, body: block };
        let ghost before = self.state();
        self.functions.push(func);
        assert(self.state().1 =~= before.1.push(func_view(func)));
    }

    /// Translates an expression.
    pub fn visit_expr(&mut self, expr: &Expr)
        requires
            supported(expr_view(*expr)),
        ensures
            final(self).state() == emit(expr_view(*expr), old(self).state()),
        decreases *expr,
    {
        match expr {
            Expr::Atom(atom) => {
                let value = match atom {
                    Atom::Int(value) => Value::Int(*value),
                    Atom::Char(value) => Value::Char(*value),
                    Atom::Bool(value) => Value::Bool(*value),
                };
                self.push_instruction(Instruction::Push(value));
            },
            Expr::Identifier(name) => {
                let value = Value::Variable(name.clone());
                self.push_instruction(Instruction::Push(value));
            },
            Expr::BinaryOp { left, op: _, right } => {
                self.visit_expr(left);
                self.visit_expr(right);
                self.push_instruction(Instruction::GreaterThan);
            },
            Expr::Function { name, params, signature, body } => {
                self.visit_expr(body);
                self.finish_function(name, params, signature);
                proof {
                    let pv = crate::front_end::strings_view(params@);
                    let sv = crate::front_end::strings_view(signature@);
                    assert(Seq::new(pv.len(), |k: int| (pv[k], type_of(sv[k]))) =~= Seq::new(
                        params@.len(),
                        |k: int| (params@[k]@, type_of(signature@[k]@)),
                    ));
                    if signature@.len() > 0 {
                        assert(sv.last() == signature@.last()@);
                    }
                }
            },
            Expr::If { condition, then_branch, else_branch } => {
                self.visit_expr(condition);
                let condition_block = self.get_block();
                self.visit_expr(then_branch);
                let then_branch_block = self.get_block();
                let else_branch_block = match else_branch {
                    Some(b) => {
                        self.visit_expr(b);
                        let block = self.get_block();
                        Some(block)
                    },
                    None => None,
                };
                self.push_instruction(
                    Instruction::If {
                        condition: condition_block,
                        then_branch: then_branch_block,
                        else_branch: else_branch_block,
                    },
                );
                assert(self.state().0 =~= seq![self.state().0[0]]);
            },
            Expr::PrefixOp { .. } => {},
            Expr::Enum { .. } => {},
        }
    }

    /// Translates expressions one after the other; the module holds the
    /// functions made.
    pub fn visit(&mut self, expressions: &[Expr]) -> (r: Module)
        requires
            forall|i: int| 0 <= i < expressions@.len() ==> supported(#[trigger] expr_view(expressions@[i])),
        ensures
            funcs_view(r.functions@) == emit_all(
                expressions@.map_values(|e: Expr| expr_view(e)),
                old(self).state(),
            ).1,
            r.globals@.len() == 0,
            r.enums@.len() == 0,
    {
        let ghost es = expressions@.map_values(|e: Expr| expr_view(e));
        let ghost s0 = self.state();
        let mut i: usize = 0;
        while i < expressions.len()
            invariant
                i <= expressions@.len(),
                es == expressions@.map_values(|e: Expr| expr_view(e)),
                forall|j: int| 0 <= j < expressions@.len() ==> supported(#[trigger] expr_view(expressions@[j])),
                self.state() == emit_all(es.subrange(0, i as int), s0),
            decreases expressions@.len() - i,
        {
            assert(es.subrange(0, i + 1).drop_last() =~= es.subrange(0, i as int));
            self.visit_expr(&expressions[i]);
            i = i + 1;
        }
        assert(es.subrange(0, i as int) =~= es);
        let mut functions: Vec<Function> = Vec::new();
        std::mem::swap(&mut functions, &mut self.functions);
        Module { functions, globals: Vec::new(), enums: Vec::new() }
    }
}

} // verus!
