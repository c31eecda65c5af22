//! The bytecode compiler: a syntax tree to instructions and a constant pool.

use std::rc::Rc;
use vstd::prelude::*;
use crate::ast::{AstNode, AstNodeType, call_args, names_view};
use crate::interpreter::{Value, ValueV, eval_measure};

verus! {

broadcast use vstd::std_specs::vec::axiom_vec_index_decreases;

/// One instruction of the stack machine. Jump targets are absolute indices.
#[derive(Debug, Clone, PartialEq)]
pub enum Instruction {
    LoadConstant(usize),
    BinaryOp(String),
    JumpIfFalse(usize),
    Jump(usize),
    /// A call of the function at a constant index, with the number of arguments.
    Call(usize, usize),
    Print,
}

/// Why a tree has no bytecode.
#[derive(Debug, Clone, PartialEq)]
pub enum CompileError {
    /// A call of a function that no earlier definition introduced.
    UnresolvedFunction(String),
    /// A node that no compilation rule covers.
    Unsupported,
}

/// The state of a compilation: instructions, constants, and the symbol table
/// from function names to constant indices.
pub struct CState {
    pub code: Seq<Instruction>,
    pub consts: Seq<ValueV>,
    pub syms: Seq<(Seq<char>, usize)>,
}

pub open spec fn emit(st: CState, i: Instruction) -> CState {
    CState { code: st.code.push(i), ..st }
}

/// Writes `i` over the placeholder at index `at`.
pub open spec fn patch(st: CState, at: int, i: Instruction) -> CState {
    CState { code: st.code.update(at, i), ..st }
}

pub open spec fn add_const(st: CState, v: ValueV) -> CState {
    CState {
        code: st.code.push(Instruction::LoadConstant(st.consts.len() as usize)),
        consts: st.consts.push(v),
        ..st
    }
}

/// The constant index of the latest definition of `name`.
pub open spec fn find_sym(syms: Seq<(Seq<char>, usize)>, name: Seq<char>) -> Option<usize>
    decreases syms.len(),
{
    if syms.len() == 0 {
        None
    } else if syms.last().0 == name {
        Some(syms.last().1)
    } else {
        find_sym(syms.drop_last(), name)
    }
}

/// Compiles `node` after the state `st`.
pub open spec fn comp(node: AstNode, st: CState) -> Result<CState, CompileError>
    decreases node, eval_measure(node),
{
    match node.node_type {
        AstNodeType::Program | AstNodeType::Block => comp_seq(node, 0, st),
        AstNodeType::Number(n) => Ok(add_const(st, ValueV::Number(n))),
        AstNodeType::String(s) => Ok(add_const(st, ValueV::Str(s@))),
        AstNodeType::Identifier(_) => Err(CompileError::Unsupported),
        AstNodeType::BinaryOp(op) => {
            if node.children.len() < 2 {
                Err(CompileError::Unsupported)
            } else {
                match comp(node.children[0], st) {
                    Err(e) => Err(e),
                    Ok(s1) => match comp(node.children[1], s1) {
                        Err(e) => Err(e),
                        Ok(s2) => Ok(emit(s2, Instruction::BinaryOp(op))),
                    },
                }
            }
        },
        AstNodeType::IfStatement => {
            if node.children.len() < 2 {
                Err(CompileError::Unsupported)
            } else {
                match comp(node.children[0], st) {
                    Err(e) => Err(e),
                    Ok(s1) => {
                        let j = s1.code.len() as int;
                        match comp(node.children[1], emit(s1, Instruction::JumpIfFalse(0))) {
                            Err(e) => Err(e),
                            Ok(s3) => if node.children.len() > 2 {
                                let k = s3.code.len() as int;
                                let s4 = emit(s3, Instruction::Jump(0));
                                let s5 = patch(s4, j, Instruction::JumpIfFalse(s4.code.len() as usize));
                                match comp(node.children[2], s5) {
                                    Err(e) => Err(e),
                                    Ok(s6) => Ok(patch(s6, k, Instruction::Jump(s6.code.len() as usize))),
                                }
                            } else {
                                Ok(patch(s3, j, Instruction::JumpIfFalse(s3.code.len() as usize)))
                            },
                        }
                    },
                }
            }
        },
        AstNodeType::FunctionDef(name, params, body) => Ok(
            CState {
                syms: st.syms.push((name@, st.consts.len() as usize)),
                consts: st.consts.push(ValueV::Function(names_view(params@), *body)),
                ..st
            },
        ),
        AstNodeType::Call(name, args) => match find_sym(st.syms, name@) {
            None => Err(CompileError::UnresolvedFunction(name)),
            Some(idx) => match comp_args(node, 0, st) {
                Err(e) => Err(e),
                Ok(s1) => Ok(emit(s1, Instruction::Call(idx, args.len()))),
            },
        },
    }
}

/// Compiles the children of `node` from index `i` on, in order.
pub open spec fn comp_seq(node: AstNode, i: int, st: CState) -> Result<CState, CompileError>
    decreases node, node.children.len() - i,
{
    if i < 0 || i >= node.children.len() {
        Ok(st)
    } else {
        match comp(node.children[i], st) {
            Err(e) => Err(e),
            Ok(s1) => comp_seq(node, i + 1, s1),
        }
    }
}

/// Compiles the call arguments of `node` from index `i` on, in order.
pub open spec fn comp_args(node: AstNode, i: int, st: CState) -> Result<CState, CompileError>
    decreases node, call_args(node).len() - i,
{
    if i < 0 || i >= call_args(node).len() {
        Ok(st)
    } else {
        match comp(call_args(node)[i], st) {
            Err(e) => Err(e),
            Ok(s1) => comp_args(node, i + 1, s1),
        }
    }
}

pub open spec fn start_state() -> CState {
    CState { code: seq![], consts: seq![], syms: seq![] }
}

/// Lowers syntax trees to bytecode.
pub struct Compiler {
    pub bytecode: Vec<Instruction>,
    pub constants: Vec<Value>,
    pub symbol_table: Vec<(String, usize)>,
}

impl Compiler {
    pub open spec fn state(&self) -> CState {
        CState {
            code: self.bytecode@,
            consts: self.constants@.map_values(|v: Value| v@),
            syms: self.symbol_table@.map_values(|e: (String, usize)| (e.0@, e.1)),
        }
    }

    pub fn new() -> (r: Compiler)
        ensures
            r.state() == start_state(),
    {
        let r = Compiler { bytecode: Vec::new(), constants: Vec::new(), symbol_table: Vec::new() };
        assert(r.state().consts =~= seq![]);
        assert(r.state().syms =~= seq![]);
        r
    }

    /// The instructions and the constant pool compiled so far.
    pub fn get_bytecode(self) -> (r: (Vec<Instruction>, Vec<Value>))
        ensures
            r.0@ == self.state().code,
            r.1@.map_values(|v: Value| v@) == self.state().consts,
    {
        (self.bytecode, self.constants)
    }

    fn find_symbol(&self, name: &String) -> (r: Option<usize>)
        ensures
            r == find_sym(self.state().syms, name@),
    {
        let ghost syms = self.state().syms;
        let mut i: usize = self.symbol_table.len();
        assert(syms.subrange(0, i as int) =~= syms);
        while i > 0
            invariant
                i <= self.symbol_table.len(),
                syms == self.state().syms,
                find_sym(syms, name@) == find_sym(syms.subrange(0, i as int), name@),
            decreases i,
        {
            assert(syms.subrange(0, i as int).drop_last() =~= syms.subrange(0, i - 1));
            if self.symbol_table[i - 1].0 == *name {
                return Some(self.symbol_table[i - 1].1);
            }
            i -= 1;
        }
        None
    }

    fn push_constant(&mut self, v: Value)
        ensures
            final(self).state() == add_const(old(self).state(), v@),
    {
        let idx = self.constants.len();
        self.bytecode.push(Instruction::LoadConstant(idx));
        self.constants.push(v);
        assert(final(self).state().consts =~= old(self).state().consts.push(v@));
    }

    /// Compiles `node` after what is compiled so far.
    pub fn compile(&mut self, node: &AstNode) -> (r: Result<(), CompileError>)
        ensures
            match comp(*node, old(self).state()) {
                Ok(st) => r is Ok && final(self).state() == st,
                Err(e) => r == Err::<(), CompileError>(e),
            },
            r is Ok ==> old(self).bytecode@.len() <= final(self).bytecode@.len(),
        decreases *node, eval_measure(*node),
    {
        match &node.node_type {
            AstNodeType::Program | AstNodeType::Block => {
                let ghost st0 = self.state();
                let mut i: usize = 0;
                assert(comp(*node, st0) == comp_seq(*node, 0, st0));
                while i < node.children.len()
                    invariant
                        i <= node.children.len(),
                        st0 == old(self).state(),
                        comp(*node, st0) == comp_seq(*node, 0, st0),
                        comp_seq(*node, i as int, self.state()) == comp_seq(*node, 0, st0),
                        old(self).bytecode@.len() <= self.bytecode@.len(),
                    decreases node.children.len() - i,
                {
                    let ghost pre = self.state();
                    let r = self.compile(&node.children[i]);
                    proof {
                        assert(comp_seq(*node, i as int, pre) == match comp(node.children[i as int], pre) {
                            Err(e) => Err(e),
                            Ok(s1) => comp_seq(*node, i + 1, s1),
                        });
                    }
                    match r {
                        Ok(()) => {},
                        Err(e) => {
                            return Err(e);
                        },
                    }
                    i += 1;
                }
                Ok(())
            },
            AstNodeType::Number(n) => {
                self.push_constant(Value::Number(*n));
                Ok(())
            },
            AstNodeType::String(s) => {
                self.push_constant(Value::String(s.clone()));
                Ok(())
            },
            AstNodeType::Identifier(_) => Err(CompileError::Unsupported),
            AstNodeType::BinaryOp(op) => {
                if node.children.len() < 2 {
                    return Err(CompileError::Unsupported);
                }
                self.compile(&node.children[0])?;
                self.compile(&node.children[1])?;
                let ghost s2 = self.state();
                self.bytecode.push(Instruction::BinaryOp(op.clone()));
                assert(self.state() == emit(s2, Instruction::BinaryOp(*op)));
                Ok(())
            },
            AstNodeType::IfStatement => {
                if node.children.len() < 2 {
                    return Err(CompileError::Unsupported);
                }
                self.compile(&node.children[0])?;
                let ghost s1 = self.state();
                let jump_false = self.bytecode.len();
                self.bytecode.push(Instruction::JumpIfFalse(0));
                assert(self.state() == emit(s1, Instruction::JumpIfFalse(0)));
                self.compile(&node.children[1])?;
                let ghost s3 = self.state();
                if node.children.len() > 2 {
                    let jump = self.bytecode.len();
                    self.bytecode.push(Instruction::Jump(0));
                    let ghost s4 = self.state();
                    assert(s4 == emit(s3, Instruction::Jump(0)));
                    let target = self.bytecode.len();
                    self.bytecode.set(jump_false, Instruction::JumpIfFalse(target));
                    assert(self.state() == patch(s4, jump_false as int, Instruction::JumpIfFalse(target)));
                    self.compile(&node.children[2])?;
                    let ghost s6 = self.state();
                    let end = self.bytecode.len();
                    self.bytecode.set(jump, Instruction::Jump(end));
                    assert(self.state() == patch(s6, jump as int, Instruction::Jump(end)));
                } else {
                    let end = self.bytecode.len();
                    self.bytecode.set(jump_false, Instruction::JumpIfFalse(end));
                    assert(self.state() == patch(s3, jump_false as int, Instruction::JumpIfFalse(end)));
                }
                Ok(())
            },
            AstNodeType::FunctionDef(name, params, body) => {
                let idx = self.constants.len();
                let ghost pre = self.state();
                self.symbol_table.push((name.clone(), idx));
                self.constants.push(Value::Function(copy_params(params), Rc::clone(body)));
                assert(self.state().consts =~= pre.consts.push(
                    ValueV::Function(names_view(params@), **body),
                ));
                assert(self.state().syms =~= pre.syms.push((name@, idx)));
                Ok(())
            },
            AstNodeType::Call(name, args) => {
                let idx = match self.find_symbol(name) {
                    Some(idx) => idx,
                    None => {
                        return Err(CompileError::UnresolvedFunction(name.clone()));
                    },
                };
                let ghost st0 = self.state();
                let ghost whole = match comp_args(*node, 0, st0) {
                    Err(e) => Err(e),
                    Ok(s1) => Ok(emit(s1, Instruction::Call(idx, args.len()))),
                };
                assert(comp(*node, st0) == whole);
                let mut i: usize = 0;
                while i < args.len()
                    invariant
                        i <= args.len(),
                        comp(*node, st0) == whole,
                        whole == match comp_args(*node, 0, st0) {
                            Err(e) => Err(e),
                            Ok(s1) => Ok(emit(s1, Instruction::Call(idx, args.len()))),
                        },
                        args@ == call_args(*node),
                        st0 == old(self).state(),
                        comp_args(*node, i as int, self.state()) == comp_args(*node, 0, st0),
                        old(self).bytecode@.len() <= self.bytecode@.len(),
                    decreases args.len() - i,
                {
                    let ghost pre = self.state();
                    let r = self.compile(&args[i]);
                    proof {
                        assert(comp_args(*node, i as int, pre) == match comp(call_args(*node)[i as int], pre) {
                            Err(e) => Err(e),
                            Ok(s1) => comp_args(*node, i + 1, s1),
                        });
                    }
                    match r {
                        Ok(()) => {},
                        Err(e) => {
                            return Err(e);
                        },
                    }
                    i += 1;
                }
                let ghost s1 = self.state();
                assert(comp_args(*node, i as int, s1) == Ok::<CState, CompileError>(s1));
                self.bytecode.push(Instruction::Call(idx, args.len()));
                assert(self.state() == emit(s1, Instruction::Call(idx, args.len())));
                Ok(())
            },
        }
    }
}

fn copy_params(names: &Vec<String>) -> (r: Vec<String>)
    ensures
        names_view(r@) == names_view(names@),
{
    let mut out: Vec<String> = Vec::new();
    let mut i: usize = 0;
    while i < names.len()
        invariant
            i <= names.len(),
            out@.len() == i,
            forall|k: int| 0 <= k < i ==> out@[k]@ == names@[k]@,
        decreases names.len() - i,
    {
        out.push(names[i].clone());
        i += 1;
    }
    assert(names_view(out@) =~= names_view(names@));
    out
}

/// Compiles `node` on its own: the instructions and the constant pool.
pub fn compile(node: &AstNode) -> (r: Result<(Vec<Instruction>, Vec<Value>), CompileError>)
    ensures
        match comp(*node, start_state()) {
            Ok(st) => r is Ok && r->Ok_0.0@ == st.code && r->Ok_0.1@.map_values(|v: Value| v@)
                == st.consts,
            Err(e) => r == Err::<(Vec<Instruction>, Vec<Value>), CompileError>(e),
        },
{
    let mut c = Compiler::new();
    match c.compile(node) {
        Ok(()) => Ok(c.get_bytecode()),
        Err(e) => Err(e),
    }
}

proof fn lemma_code_grows(node: AstNode, st: CState)
    requires
        comp(node, st) is Ok,
    ensures
        comp(node, st)->Ok_0.code.len() >= st.code.len(),
    decreases node, eval_measure(node),
{
    match node.node_type {
        AstNodeType::Program | AstNodeType::Block => lemma_seq_grows(node, 0, st),
        AstNodeType::BinaryOp(_) => {
            lemma_code_grows(node.children[0], st);
            lemma_code_grows(node.children[1], comp(node.children[0], st)->Ok_0);
        },
        AstNodeType::IfStatement => {
            lemma_code_grows(node.children[0], st);
            let s1 = comp(node.children[0], st)->Ok_0;
            let s2 = emit(s1, Instruction::JumpIfFalse(0));
            lemma_code_grows(node.children[1], s2);
            if node.children.len() > 2 {
                let s3 = comp(node.children[1], s2)->Ok_0;
                let s4 = emit(s3, Instruction::Jump(0));
                let s5 = patch(s4, s1.code.len() as int, Instruction::JumpIfFalse(s4.code.len() as usize));
                lemma_code_grows(node.children[2], s5);
            }
        },
        AstNodeType::Call(_, _) => lemma_args_grow(node, 0, st),
        _ => {},
    }
}

proof fn lemma_seq_grows(node: AstNode, i: int, st: CState)
    requires
        comp_seq(node, i, st) is Ok,
    ensures
        comp_seq(node, i, st)->Ok_0.code.len() >= st.code.len(),
    decreases node, node.children.len() - i,
{
    if 0 <= i < node.children.len() {
        lemma_code_grows(node.children[i], st);
        lemma_seq_grows(node, i + 1, comp(node.children[i], st)->Ok_0);
    }
}

proof fn lemma_args_grow(node: AstNode, i: int, st: CState)
    requires
        comp_args(node, i, st) is Ok,
    ensures
        comp_args(node, i, st)->Ok_0.code.len() >= st.code.len(),
    decreases node, call_args(node).len() - i,
{
    if 0 <= i < call_args(node).len() {
        lemma_code_grows(call_args(node)[i], st);
        lemma_args_grow(node, i + 1, comp(call_args(node)[i], st)->Ok_0);
    }
}

/// In the compiled form of an `if` without an else branch, the `JumpIfFalse`
/// emitted after the condition targets the index just after the then-branch's
/// last instruction, where the compiled form ends.
pub proof fn lemma_if_jump_target(e: AstNode, st: CState)
    requires
        e.node_type is IfStatement,
        e.children.len() == 2,
        comp(e, st) is Ok,
    ensures
        ({
            let s1 = comp(e.children[0], st)->Ok_0;
            let s3 = comp(e.children[1], emit(s1, Instruction::JumpIfFalse(0)))->Ok_0;
            &&& s1.code.len() < s3.code.len()
            &&& comp(e, st)->Ok_0.code[s1.code.len() as int] == Instruction::JumpIfFalse(
                s3.code.len() as usize,
            )
            &&& comp(e, st)->Ok_0.code.len() == s3.code.len()
        }),
{
    let s1 = comp(e.children[0], st)->Ok_0;
    let s2 = emit(s1, Instruction::JumpIfFalse(0));
    lemma_code_grows(e.children[1], s2);
}

} // verus!
