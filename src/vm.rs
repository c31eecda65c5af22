//! The stack machine that runs compiled bytecode.

use vstd::prelude::*;
use crate::compiler::Instruction;
use crate::interpreter::{
    MAX_CALL_DEPTH, RuntimeError, Value, ValueV, apply_binop, binary_op, bind, call_function,
    eval, result_view, truthy,
};

verus! {

/// Why a run of bytecode stopped.
#[derive(Debug, Clone, PartialEq)]
pub enum VmError {
    StackUnderflow,
    InvalidConstant(usize),
    /// A jump that does not go forward within the code.
    InvalidJump(usize),
    /// A call whose constant is not a function.
    NotAFunction(usize),
    ArityMismatch { expected: usize, actual: usize },
    Runtime(RuntimeError),
}

pub open spec fn values_view(vs: Seq<Value>) -> Seq<ValueV> {
    vs.map_values(|v: Value| v@)
}

/// Runs `code` from instruction `ip` with operand stack `stack` and printed
/// values `out`; gives the final stack and printed values.
pub open spec fn run_from(
    code: Seq<Instruction>,
    consts: Seq<ValueV>,
    ip: int,
    stack: Seq<ValueV>,
    out: Seq<ValueV>,
) -> Result<(Seq<ValueV>, Seq<ValueV>), VmError>
    decreases code.len() - ip,
{
    if ip < 0 || ip >= code.len() {
        Ok((stack, out))
    } else {
        match code[ip] {
            Instruction::LoadConstant(i) => if i < consts.len() {
                run_from(code, consts, ip + 1, stack.push(consts[i as int]), out)
            } else {
                Err(VmError::InvalidConstant(i))
            },
            Instruction::BinaryOp(op) => if stack.len() < 2 {
                Err(VmError::StackUnderflow)
            } else {
                match apply_binop(op, stack[stack.len() - 2], stack.last()) {
                    Ok(v) => run_from(
                        code,
                        consts,
                        ip + 1,
                        stack.drop_last().drop_last().push(v),
                        out,
                    ),
                    Err(e) => Err(VmError::Runtime(e)),
                }
            },
            Instruction::JumpIfFalse(t) => if stack.len() < 1 {
                Err(VmError::StackUnderflow)
            } else if truthy(stack.last()) {
                run_from(code, consts, ip + 1, stack.drop_last(), out)
            } else if ip < t <= code.len() {
                run_from(code, consts, t as int, stack.drop_last(), out)
            } else {
                Err(VmError::InvalidJump(t))
            },
            Instruction::Jump(t) => if ip < t <= code.len() {
                run_from(code, consts, t as int, stack, out)
            } else {
                Err(VmError::InvalidJump(t))
            },
            Instruction::Call(f, argc) => if f >= consts.len() {
                Err(VmError::InvalidConstant(f))
            } else {
                match consts[f as int] {
                    ValueV::Function(params, body) => if stack.len() < argc {
                        Err(VmError::StackUnderflow)
                    } else if params.len() != argc {
                        Err(VmError::ArityMismatch { expected: params.len() as usize, actual: argc })
                    } else {
                        let base = stack.len() - argc;
                        match eval(
                            body,
                            seq![bind(params, stack.subrange(base, stack.len() as int))],
                            (MAX_CALL_DEPTH - 1) as nat,
                        ).0 {
                            Ok(v) => run_from(
                                code,
                                consts,
                                ip + 1,
                                stack.subrange(0, base).push(v),
                                out,
                            ),
                            Err(e) => Err(VmError::Runtime(e)),
                        }
                    },
                    _ => Err(VmError::NotAFunction(f)),
                }
            },
            Instruction::Print => if stack.len() < 1 {
                Err(VmError::StackUnderflow)
            } else {
                run_from(code, consts, ip + 1, stack.drop_last(), out.push(stack.last()))
            },
        }
    }
}

/// The operand stack and printed values when a run of `code` from `ip` stops:
/// at the end of the code, or as they stood when a failing instruction was reached.
pub open spec fn run_state(
    code: Seq<Instruction>,
    consts: Seq<ValueV>,
    ip: int,
    stack: Seq<ValueV>,
    out: Seq<ValueV>,
) -> (Seq<ValueV>, Seq<ValueV>)
    decreases code.len() - ip,
{
    if ip < 0 || ip >= code.len() {
        (stack, out)
    } else {
        match code[ip] {
            Instruction::LoadConstant(i) => if i < consts.len() {
                run_state(code, consts, ip + 1, stack.push(consts[i as int]), out)
            } else {
                (stack, out)
            },
            Instruction::BinaryOp(op) => if stack.len() < 2 {
                (stack, out)
            } else {
                match apply_binop(op, stack[stack.len() - 2], stack.last()) {
                    Ok(v) => run_state(
                        code,
                        consts,
                        ip + 1,
                        stack.drop_last().drop_last().push(v),
                        out,
                    ),
                    Err(_) => (stack, out),
                }
            },
            Instruction::JumpIfFalse(t) => if stack.len() < 1 {
                (stack, out)
            } else if truthy(stack.last()) {
                run_state(code, consts, ip + 1, stack.drop_last(), out)
            } else if ip < t <= code.len() {
                run_state(code, consts, t as int, stack.drop_last(), out)
            } else {
                (stack, out)
            },
            Instruction::Jump(t) => if ip < t <= code.len() {
                run_state(code, consts, t as int, stack, out)
            } else {
                (stack, out)
            },
            Instruction::Call(f, argc) => if f >= consts.len() {
                (stack, out)
            } else {
                match consts[f as int] {
                    ValueV::Function(params, body) => if stack.len() < argc || params.len()
                        != argc {
                        (stack, out)
                    } else {
                        let base = stack.len() - argc;
                        match eval(
                            body,
                            seq![bind(params, stack.subrange(base, stack.len() as int))],
                            (MAX_CALL_DEPTH - 1) as nat,
                        ).0 {
                            Ok(v) => run_state(
                                code,
                                consts,
                                ip + 1,
                                stack.subrange(0, base).push(v),
                                out,
                            ),
                            Err(_) => (stack, out),
                        }
                    },
                    _ => (stack, out),
                }
            },
            Instruction::Print => if stack.len() < 1 {
                (stack, out)
            } else {
                run_state(code, consts, ip + 1, stack.drop_last(), out.push(stack.last()))
            },
        }
    }
}

/// A stack machine: the operand stack, and the values that `Print` wrote.
pub struct VM {
    pub stack: Vec<Value>,
    pub output: Vec<Value>,
}

impl VM {
    pub fn new() -> (r: VM)
        ensures
            r.stack@.len() == 0,
            r.output@.len() == 0,
    {
        VM { stack: Vec::new(), output: Vec::new() }
    }

    fn pop(&mut self) -> (r: Value)
        requires
            old(self).stack@.len() > 0,
        ensures
            r == old(self).stack@.last(),
            final(self).stack@ == old(self).stack@.drop_last(),
            final(self).output == old(self).output,
    {
        match self.stack.pop() {
            Some(v) => v,
            None => Value::Nil,
        }
    }

    /// Runs `code` against `constants` from its first instruction.
    pub fn run(&mut self, code: &Vec<Instruction>, constants: &Vec<Value>) -> (r: Result<(), VmError>)
        ensures
            match run_from(
                code@,
                values_view(constants@),
                0,
                values_view(old(self).stack@),
                values_view(old(self).output@),
            ) {
                Ok((st, out)) => r is Ok && values_view(final(self).stack@) == st && values_view(
                    final(self).output@,
                ) == out,
                Err(e) => r == Err::<(), VmError>(e),
            },
            values_view(final(self).stack@) == run_state(
                code@,
                values_view(constants@),
                0,
                values_view(old(self).stack@),
                values_view(old(self).output@),
            ).0,
            values_view(final(self).output@) == run_state(
                code@,
                values_view(constants@),
                0,
                values_view(old(self).stack@),
                values_view(old(self).output@),
            ).1,
    {
        let ghost cs = values_view(constants@);
        let ghost whole = run_from(
            code@,
            cs,
            0,
            values_view(self.stack@),
            values_view(self.output@),
        );
        let mut ip: usize = 0;
        while ip < code.len()
            invariant
                ip <= code@.len(),
                cs == values_view(constants@),
                whole == run_from(code@, cs, 0, values_view(old(self).stack@), values_view(old(self).output@)),
                run_from(code@, cs, ip as int, values_view(self.stack@), values_view(self.output@))
                    == whole,
                run_state(code@, cs, ip as int, values_view(self.stack@), values_view(self.output@))
                    == run_state(code@, cs, 0, values_view(old(self).stack@), values_view(old(self).output@)),
            decreases code@.len() - ip,
        {
            let ghost st = values_view(self.stack@);
            let ghost out = values_view(self.output@);
            match &code[ip] {
                Instruction::LoadConstant(i) => {
                    if *i >= constants.len() {
                        return Err(VmError::InvalidConstant(*i));
                    }
                    self.stack.push(constants[*i].duplicate());
                    assert(values_view(self.stack@) =~= st.push(cs[*i as int]));
                    ip += 1;
                },
                Instruction::BinaryOp(op) => {
                    let n = self.stack.len();
                    if n < 2 {
                        return Err(VmError::StackUnderflow);
                    }
                    let left = self.stack[n - 2].duplicate();
                    let right = self.stack[n - 1].duplicate();
                    match binary_op(op, left, right) {
                        Ok(v) => {
                            let _ = self.pop();
                            let _ = self.pop();
                            assert(values_view(self.stack@) =~= st.drop_last().drop_last());
                            self.stack.push(v);
                            assert(values_view(self.stack@) =~= st.drop_last().drop_last().push(v@));
                        },
                        Err(e) => {
                            return Err(VmError::Runtime(e));
                        },
                    }
                    ip += 1;
                },
                Instruction::JumpIfFalse(t) => {
                    let n = self.stack.len();
                    if n < 1 {
                        return Err(VmError::StackUnderflow);
                    }
                    let is_true = match &self.stack[n - 1] {
                        Value::Number(v) => v.num != 0,
                        _ => false,
                    };
                    if !is_true && !(ip < *t && *t <= code.len()) {
                        return Err(VmError::InvalidJump(*t));
                    }
                    let _ = self.pop();
                    assert(values_view(self.stack@) =~= st.drop_last());
                    if is_true {
                        ip += 1;
                    } else {
                        ip = *t;
                    }
                },
                Instruction::Jump(t) => {
                    if ip < *t && *t <= code.len() {
                        ip = *t;
                    } else {
                        return Err(VmError::InvalidJump(*t));
                    }
                },
                Instruction::Call(f, argc) => {
                    if *f >= constants.len() {
                        return Err(VmError::InvalidConstant(*f));
                    }
                    match &constants[*f] {
                        Value::Function(params, body) => {
                            if self.stack.len() < *argc {
                                return Err(VmError::StackUnderflow);
                            }
                            if params.len() != *argc {
                                return Err(VmError::ArityMismatch { expected: params.len(), actual: *argc });
                            }
                            let base = self.stack.len() - *argc;
                            let mut args: Vec<Value> = Vec::new();
                            let mut k: usize = base;
                            while k < self.stack.len()
                                invariant
                                    base <= k <= self.stack@.len(),
                                    values_view(self.stack@) == st,
                                    values_view(args@) == st.subrange(base as int, k as int),
                                decreases self.stack@.len() - k,
                            {
                                let ghost pre = args@;
                                args.push(self.stack[k].duplicate());
                                assert(values_view(args@) =~= values_view(pre).push(self.stack@[k as int]@));
                                assert(st.subrange(base as int, k + 1) =~= st.subrange(base as int, k as int).push(st[k as int]));
                                k += 1;
                            }
                            match call_function(params, body, &args) {
                                Ok(v) => {
                                    self.stack.truncate(base);
                                    assert(values_view(self.stack@) =~= st.subrange(0, base as int));
                                    self.stack.push(v);
                                    assert(values_view(self.stack@) =~= st.subrange(0, base as int).push(v@));
                                },
                                Err(e) => {
                                    return Err(VmError::Runtime(e));
                                },
                            }
                        },
                        _ => {
                            return Err(VmError::NotAFunction(*f));
                        },
                    }
                    ip += 1;
                },
                Instruction::Print => {
                    if self.stack.len() < 1 {
                        return Err(VmError::StackUnderflow);
                    }
                    let v = self.pop();
                    self.output.push(v);
                    assert(values_view(self.stack@) =~= st.drop_last());
                    assert(values_view(self.output@) =~= out.push(st.last()));
                    ip += 1;
                },
            }
        }
        Ok(())
    }
}

} // verus!
