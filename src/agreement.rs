//! The two backends agree: running compiled bytecode gives what evaluating the
//! tree gives.

use vstd::prelude::*;
use crate::ast::{AstNode, AstNodeType};
use crate::compiler::{CState, Instruction, comp, comp_seq, emit, patch, start_state};
use crate::interpreter::{MAX_CALL_DEPTH, RuntimeError, Scope, ValueV, eval, eval_block, truthy};
use crate::vm::{VmError, run_from};

verus! {

broadcast use vstd::std_specs::vec::axiom_vec_index_decreases;

/// Expressions built from number and string literals with binary operators.
pub open spec fn pure_expr(e: AstNode) -> bool
    decreases e,
{
    match e.node_type {
        AstNodeType::Number(_) => true,
        AstNodeType::String(_) => true,
        AstNodeType::BinaryOp(_) => e.children.len() >= 2 && pure_expr(e.children[0])
            && pure_expr(e.children[1]),
        _ => false,
    }
}

/// `a` begins with `b`.
pub open spec fn extends<T>(a: Seq<T>, b: Seq<T>) -> bool {
    b.len() <= a.len() && a.subrange(0, b.len() as int) == b
}

/// `a` and `b` hold the same instructions at the indices from `lo` up to `hi`.
pub open spec fn agrees(a: Seq<Instruction>, b: Seq<Instruction>, lo: int, hi: int) -> bool {
    &&& 0 <= lo <= hi
    &&& hi <= a.len()
    &&& hi <= b.len()
    &&& forall|k: int| lo <= k < hi ==> #[trigger] a[k] == b[k]
}

proof fn lemma_agrees_narrow(code: Seq<Instruction>, big: Seq<Instruction>, small: Seq<Instruction>, lo: int, hi: int)
    requires
        agrees(code, big, lo, big.len() as int),
        extends(big, small),
        lo <= hi <= small.len(),
    ensures
        agrees(code, small, lo, hi),
{
    assert forall|k: int| lo <= k < hi implies code[k] == small[k] by {
        assert(big.subrange(0, small.len() as int)[k] == big[k]);
    }
}

proof fn lemma_extends_trans<T>(a: Seq<T>, b: Seq<T>, c: Seq<T>)
    requires
        extends(a, b),
        extends(b, c),
    ensures
        extends(a, c),
{
    assert(a.subrange(0, c.len() as int) =~= b.subrange(0, c.len() as int));
}

/// Evaluating a pure expression leaves the environment as it was.
proof fn lemma_pure_env(e: AstNode, env: Scope, d: nat)
    requires
        pure_expr(e),
    ensures
        eval(e, env, d).1 == env,
    decreases e,
{
    if let AstNodeType::BinaryOp(_) = e.node_type {
        lemma_pure_env(e.children[0], env, d);
        lemma_pure_env(e.children[1], env, d);
    }
}

/// Compiling a pure expression succeeds and only appends to the state.
proof fn lemma_pure_compiles(e: AstNode, st: CState)
    requires
        pure_expr(e),
    ensures
        comp(e, st) is Ok,
        extends(comp(e, st)->Ok_0.code, st.code),
        extends(comp(e, st)->Ok_0.consts, st.consts),
        comp(e, st)->Ok_0.code.len() > st.code.len(),
    decreases e,
{
    match e.node_type {
        AstNodeType::Number(_) => {
            assert(comp(e, st)->Ok_0.code.subrange(0, st.code.len() as int) =~= st.code);
            assert(comp(e, st)->Ok_0.consts.subrange(0, st.consts.len() as int) =~= st.consts);
        },
        AstNodeType::String(_) => {
            assert(comp(e, st)->Ok_0.code.subrange(0, st.code.len() as int) =~= st.code);
            assert(comp(e, st)->Ok_0.consts.subrange(0, st.consts.len() as int) =~= st.consts);
        },
        AstNodeType::BinaryOp(op) => {
            lemma_pure_compiles(e.children[0], st);
            let s1 = comp(e.children[0], st)->Ok_0;
            lemma_pure_compiles(e.children[1], s1);
            let s2 = comp(e.children[1], s1)->Ok_0;
            let s3 = comp(e, st)->Ok_0;
            assert(s3.code == s2.code.push(Instruction::BinaryOp(op)));
            assert(s3.code.subrange(0, s2.code.len() as int) =~= s2.code);
            lemma_extends_trans(s2.code, s1.code, st.code);
            lemma_extends_trans(s3.code, s2.code, st.code);
            lemma_extends_trans(s2.consts, s1.consts, st.consts);
        },
        _ => {},
    }
}

/// Within any code that begins with the compiled form of `e`, running from
/// where that form starts pushes the value of `e` and continues after it, or
/// stops with the runtime error that evaluation meets.
proof fn lemma_pure_runs(
    e: AstNode,
    st: CState,
    code: Seq<Instruction>,
    cs: Seq<ValueV>,
    stack: Seq<ValueV>,
    out: Seq<ValueV>,
    env: Scope,
    d: nat,
)
    requires
        pure_expr(e),
        comp(e, st) is Ok,
        agrees(code, comp(e, st)->Ok_0.code, st.code.len() as int, comp(e, st)->Ok_0.code.len() as int),
        extends(cs, comp(e, st)->Ok_0.consts),
        cs.len() <= usize::MAX,
    ensures
        run_from(code, cs, st.code.len() as int, stack, out) == match eval(e, env, d).0 {
            Ok(v) => run_from(code, cs, comp(e, st)->Ok_0.code.len() as int, stack.push(v), out),
            Err(er) => Err(VmError::Runtime(er)),
        },
    decreases e,
{
    let st2 = comp(e, st)->Ok_0;
    match e.node_type {
        AstNodeType::Number(_) => {
            assert(code[st.code.len() as int] == st2.code[st.code.len() as int]);
            assert(cs[st.consts.len() as int] == st2.consts[st.consts.len() as int]);
            assert(st.code.len() < code.len());
        },
        AstNodeType::String(_) => {
            assert(code[st.code.len() as int] == st2.code[st.code.len() as int]);
            assert(cs[st.consts.len() as int] == st2.consts[st.consts.len() as int]);
            assert(st.code.len() < code.len());
        },
        AstNodeType::BinaryOp(op) => {
            let c0 = e.children[0];
            let c1 = e.children[1];
            lemma_pure_compiles(c0, st);
            let s1 = comp(c0, st)->Ok_0;
            lemma_pure_compiles(c1, s1);
            let s2 = comp(c1, s1)->Ok_0;
            assert(st2.code == s2.code.push(Instruction::BinaryOp(op)));
            assert(st2.code.subrange(0, s2.code.len() as int) =~= s2.code);
            lemma_extends_trans(st2.code, s2.code, s1.code);
            lemma_agrees_narrow(code, st2.code, s1.code, st.code.len() as int, s1.code.len() as int);
            lemma_agrees_narrow(code, st2.code, s2.code, s1.code.len() as int, s2.code.len() as int);
            assert(st2.consts == s2.consts);
            lemma_extends_trans(cs, s2.consts, s1.consts);
            lemma_pure_env(c0, env, d);
            lemma_pure_runs(c0, st, code, cs, stack, out, env, d);
            match eval(c0, env, d).0 {
                Err(er) => {},
                Ok(v0) => {
                    lemma_pure_runs(c1, s1, code, cs, stack.push(v0), out, env, d);
                    match eval(c1, env, d).0 {
                        Err(er) => {},
                        Ok(v1) => {
                            let s = stack.push(v0).push(v1);
                            assert(code[s2.code.len() as int] == st2.code[s2.code.len() as int]);
                            assert(s[s.len() - 2] == v0);
                            assert(s.drop_last().drop_last() =~= stack);
                        },
                    }
                },
            }
        },
        _ => {},
    }
}

/// Compiling a pure expression and running the bytecode on an empty machine
/// ends with exactly the expression's value on the stack and nothing printed,
/// or stops with the same runtime error that evaluating the expression gives.
pub proof fn lemma_backends_agree(e: AstNode, env: Scope)
    requires
        pure_expr(e),
        comp(e, start_state())->Ok_0.consts.len() <= usize::MAX,
    ensures
        comp(e, start_state()) is Ok,
        run_from(
            comp(e, start_state())->Ok_0.code,
            comp(e, start_state())->Ok_0.consts,
            0,
            seq![],
            seq![],
        ) == match eval(e, env, MAX_CALL_DEPTH as nat).0 {
            Ok(v) => Ok::<(Seq<ValueV>, Seq<ValueV>), VmError>((seq![v], seq![])),
            Err(er) => Err(VmError::Runtime(er)),
        },
{
    lemma_pure_compiles(e, start_state());
    let st = comp(e, start_state())->Ok_0;
    assert(agrees(st.code, st.code, 0, st.code.len() as int));
    assert(st.consts.subrange(0, st.consts.len() as int) =~= st.consts);
    lemma_pure_runs(e, start_state(), st.code, st.consts, seq![], seq![], env, MAX_CALL_DEPTH as nat);
    assert(Seq::<ValueV>::empty().push(eval(e, env, MAX_CALL_DEPTH as nat).0->Ok_0) =~= seq![eval(e, env, MAX_CALL_DEPTH as nat).0->Ok_0]);
}

/// Statements of the compiled subset: pure expressions, and `if` statements with
/// a pure condition and both branches, each a non-empty block of such statements.
pub open spec fn simple_stmt(e: AstNode) -> bool
    decreases e, 0int,
{
    pure_expr(e) || (e.node_type is IfStatement && e.children.len() == 3 && pure_expr(
        e.children[0],
    ) && simple_block(e.children[1]) && simple_block(e.children[2]))
}

pub open spec fn simple_block(b: AstNode) -> bool
    decreases b, b.children.len() + 1,
{
    b.node_type is Block && b.children.len() > 0 && simple_from(b, 0)
}

/// The statements of `b` from index `i` on are all in the compiled subset.
pub open spec fn simple_from(b: AstNode, i: int) -> bool
    decreases b, b.children.len() - i,
{
    if i < 0 || i >= b.children.len() {
        true
    } else {
        simple_stmt(b.children[i]) && simple_from(b, i + 1)
    }
}

/// The values a statement leaves for its block, in order, or the first error:
/// one value for an expression, the chosen branch's values for an `if`.
pub open spec fn stmt_values(e: AstNode, env: Scope, d: nat) -> Result<Seq<ValueV>, RuntimeError>
    decreases e, 0int,
{
    if e.node_type is IfStatement && e.children.len() == 3 {
        match eval(e.children[0], env, d).0 {
            Err(x) => Err(x),
            Ok(c) => if truthy(c) {
                block_values(e.children[1], 0, env, d)
            } else {
                block_values(e.children[2], 0, env, d)
            },
        }
    } else {
        match eval(e, env, d).0 {
            Ok(v) => Ok(seq![v]),
            Err(x) => Err(x),
        }
    }
}

/// The values of the statements of `b` from index `i` on, concatenated.
pub open spec fn block_values(b: AstNode, i: int, env: Scope, d: nat) -> Result<
    Seq<ValueV>,
    RuntimeError,
>
    decreases b, b.children.len() - i,
{
    if i < 0 || i >= b.children.len() {
        Ok(seq![])
    } else {
        match stmt_values(b.children[i], env, d) {
            Err(x) => Err(x),
            Ok(vs) => match block_values(b, i + 1, env, d) {
                Ok(ws) => Ok(vs + ws),
                Err(x) => Err(x),
            },
        }
    }
}

proof fn lemma_stmt_evaluates(e: AstNode, env: Scope, d: nat)
    requires
        simple_stmt(e),
    ensures
        eval(e, env, d).1 == env,
        eval(e, env, d).0 == match stmt_values(e, env, d) {
            Ok(vs) => Ok(vs.last()),
            Err(x) => Err(x),
        },
        stmt_values(e, env, d) is Ok ==> stmt_values(e, env, d)->Ok_0.len() > 0,
    decreases e, 0int,
{
    if pure_expr(e) {
        lemma_pure_env(e, env, d);
        assert(!(e.node_type is IfStatement));
    } else {
        let c = e.children[0];
        lemma_pure_env(c, env, d);
        lemma_block_evaluates(e.children[1], 0, env, d, ValueV::Nothing);
        lemma_block_evaluates(e.children[2], 0, env, d, ValueV::Nothing);
        assert(eval(e.children[1], env, d) == eval_block(e.children[1], 0, env, d, ValueV::Nothing));
        assert(eval(e.children[2], env, d) == eval_block(e.children[2], 0, env, d, ValueV::Nothing));
    }
}

proof fn lemma_block_evaluates(b: AstNode, i: int, env: Scope, d: nat, last: ValueV)
    requires
        simple_from(b, i),
        0 <= i <= b.children.len(),
    ensures
        eval_block(b, i, env, d, last).1 == env,
        eval_block(b, i, env, d, last).0 == match block_values(b, i, env, d) {
            Ok(vs) => Ok(
                if vs.len() == 0 {
                    last
                } else {
                    vs.last()
                },
            ),
            Err(x) => Err(x),
        },
        i < b.children.len() && block_values(b, i, env, d) is Ok ==> block_values(b, i, env, d)->Ok_0.len() > 0,
    decreases b, b.children.len() - i,
{
    if i < b.children.len() {
        let c = b.children[i];
        lemma_stmt_evaluates(c, env, d);
        match eval(c, env, d).0 {
            Err(x) => {},
            Ok(v) => {
                lemma_block_evaluates(b, i + 1, env, d, v);
                let vs = stmt_values(c, env, d)->Ok_0;
                match block_values(b, i + 1, env, d) {
                    Ok(ws) => {
                        assert((vs + ws).last() == if ws.len() == 0 {
                            vs.last()
                        } else {
                            ws.last()
                        });
                    },
                    Err(x) => {},
                }
            },
        }
    }
}

proof fn lemma_stmt_compiles(e: AstNode, st: CState)
    requires
        simple_stmt(e),
    ensures
        comp(e, st) is Ok,
        extends(comp(e, st)->Ok_0.code, st.code),
        extends(comp(e, st)->Ok_0.consts, st.consts),
    decreases e, 0int,
{
    if pure_expr(e) {
        lemma_pure_compiles(e, st);
    } else {
        lemma_pure_compiles(e.children[0], st);
        let s1 = comp(e.children[0], st)->Ok_0;
        let s2 = emit(s1, Instruction::JumpIfFalse(0));
        lemma_block_compiles(e.children[1], 0, s2);
        assert(comp(e.children[1], s2) == comp_seq(e.children[1], 0, s2));
        let s3 = comp(e.children[1], s2)->Ok_0;
        let s4 = emit(s3, Instruction::Jump(0));
        let s5 = patch(s4, s1.code.len() as int, Instruction::JumpIfFalse(s4.code.len() as usize));
        lemma_block_compiles(e.children[2], 0, s5);
        assert(comp(e.children[2], s5) == comp_seq(e.children[2], 0, s5));
        let s6 = comp(e.children[2], s5)->Ok_0;
        let fin = patch(s6, s3.code.len() as int, Instruction::Jump(s6.code.len() as usize));
        assert(comp(e, st) == Ok::<CState, crate::compiler::CompileError>(fin));
        assert forall|k: int| 0 <= k < st.code.len() implies fin.code[k] == st.code[k] by {
            assert(s6.code.subrange(0, s5.code.len() as int)[k] == s6.code[k]);
            assert(s3.code.subrange(0, s2.code.len() as int)[k] == s3.code[k]);
            assert(s1.code.subrange(0, st.code.len() as int)[k] == s1.code[k]);
        }
        assert(fin.code.subrange(0, st.code.len() as int) =~= st.code);
        lemma_extends_trans(s3.consts, s2.consts, st.consts);
        lemma_extends_trans(s6.consts, s5.consts, st.consts);
    }
}

proof fn lemma_block_compiles(b: AstNode, i: int, st: CState)
    requires
        simple_from(b, i),
        0 <= i <= b.children.len(),
    ensures
        comp_seq(b, i, st) is Ok,
        extends(comp_seq(b, i, st)->Ok_0.code, st.code),
        extends(comp_seq(b, i, st)->Ok_0.consts, st.consts),
    decreases b, b.children.len() - i,
{
    if i < b.children.len() {
        let c = b.children[i];
        lemma_stmt_compiles(c, st);
        let s1 = comp(c, st)->Ok_0;
        lemma_block_compiles(b, i + 1, s1);
        lemma_extends_trans(comp_seq(b, i, st)->Ok_0.code, s1.code, st.code);
        lemma_extends_trans(comp_seq(b, i, st)->Ok_0.consts, s1.consts, st.consts);
    } else {
        assert(st.code.subrange(0, st.code.len() as int) =~= st.code);
        assert(st.consts.subrange(0, st.consts.len() as int) =~= st.consts);
    }
}

proof fn lemma_stmt_runs(
    e: AstNode,
    st: CState,
    code: Seq<Instruction>,
    cs: Seq<ValueV>,
    stack: Seq<ValueV>,
    env: Scope,
    d: nat,
)
    requires
        simple_stmt(e),
        comp(e, st) is Ok,
        agrees(code, comp(e, st)->Ok_0.code, st.code.len() as int, comp(e, st)->Ok_0.code.len() as int),
        extends(cs, comp(e, st)->Ok_0.consts),
        cs.len() <= usize::MAX,
        code.len() <= usize::MAX,
    ensures
        run_from(code, cs, st.code.len() as int, stack, seq![]) == match stmt_values(e, env, d) {
            Ok(vs) => run_from(code, cs, comp(e, st)->Ok_0.code.len() as int, stack + vs, seq![]),
            Err(x) => Err(VmError::Runtime(x)),
        },
    decreases e, 0int,
{
    if pure_expr(e) {
        lemma_pure_runs(e, st, code, cs, stack, seq![], env, d);
        assert(!(e.node_type is IfStatement));
        match eval(e, env, d).0 {
            Ok(v) => {
                assert(stack.push(v) =~= stack + seq![v]);
            },
            Err(x) => {},
        }
    } else {
        let c0 = e.children[0];
        lemma_pure_compiles(c0, st);
        let s1 = comp(c0, st)->Ok_0;
        let j = s1.code.len() as int;
        let s2 = emit(s1, Instruction::JumpIfFalse(0));
        let tb = e.children[1];
        let eb = e.children[2];
        lemma_block_compiles(tb, 0, s2);
        assert(comp(tb, s2) == comp_seq(tb, 0, s2));
        let s3 = comp(tb, s2)->Ok_0;
        let k = s3.code.len() as int;
        let s4 = emit(s3, Instruction::Jump(0));
        let s5 = patch(s4, j, Instruction::JumpIfFalse(s4.code.len() as usize));
        lemma_block_compiles(eb, 0, s5);
        assert(comp(eb, s5) == comp_seq(eb, 0, s5));
        let s6 = comp(eb, s5)->Ok_0;
        let fin = patch(s6, k, Instruction::Jump(s6.code.len() as usize));
        assert(comp(e, st) == Ok::<CState, crate::compiler::CompileError>(fin));
        // Where each part of the compiled form sits in `code`.
        assert(agrees(code, s1.code, st.code.len() as int, j)) by {
            assert forall|x: int| st.code.len() <= x < j implies code[x] == s1.code[x] by {
                assert(code[x] == fin.code[x]);
                assert(s6.code.subrange(0, s5.code.len() as int)[x] == s6.code[x]);
                assert(s3.code.subrange(0, s2.code.len() as int)[x] == s3.code[x]);
            }
        }
        assert(code[j] == Instruction::JumpIfFalse(s4.code.len() as usize)) by {
            assert(code[j] == fin.code[j]);
            assert(s6.code.subrange(0, s5.code.len() as int)[j] == s6.code[j]);
        }
        assert(agrees(code, s3.code, s2.code.len() as int, k)) by {
            assert forall|x: int| s2.code.len() <= x < k implies code[x] == s3.code[x] by {
                assert(code[x] == fin.code[x]);
                assert(s6.code.subrange(0, s5.code.len() as int)[x] == s6.code[x]);
            }
        }
        assert(code[k] == Instruction::Jump(s6.code.len() as usize)) by {
            assert(code[k] == fin.code[k]);
        }
        assert(agrees(code, s6.code, s5.code.len() as int, s6.code.len() as int)) by {
            assert forall|x: int| s5.code.len() <= x < s6.code.len() implies code[x] == s6.code[x] by {
                assert(code[x] == fin.code[x]);
            }
        }
        lemma_extends_trans(cs, s6.consts, s5.consts);
        lemma_extends_trans(cs, s3.consts, s1.consts);
        lemma_pure_runs(c0, st, code, cs, stack, seq![], env, d);
        match eval(c0, env, d).0 {
            Err(x) => {},
            Ok(c) => {
                let sc = stack.push(c);
                assert(sc.drop_last() =~= stack);
                assert(sc.last() == c);
                assert(s6.code.len() >= s5.code.len());
                assert(stmt_values(e, env, d) == if truthy(c) {
                    block_values(tb, 0, env, d)
                } else {
                    block_values(eb, 0, env, d)
                });
                if truthy(c) {
                    assert(run_from(code, cs, j, sc, seq![]) == run_from(code, cs, j + 1, stack, seq![]));
                    lemma_block_runs(tb, 0, s2, code, cs, stack, env, d);
                    match block_values(tb, 0, env, d) {
                        Err(x) => {},
                        Ok(vs) => {
                            assert(run_from(code, cs, k, stack + vs, seq![]) == run_from(
                                code,
                                cs,
                                s6.code.len() as int,
                                stack + vs,
                                seq![],
                            ));
                        },
                    }
                } else {
                    assert(run_from(code, cs, j, sc, seq![]) == run_from(code, cs, k + 1, stack, seq![]));
                    lemma_block_runs(eb, 0, s5, code, cs, stack, env, d);
                }
            },
        }
    }
}

proof fn lemma_block_runs(
    b: AstNode,
    i: int,
    st: CState,
    code: Seq<Instruction>,
    cs: Seq<ValueV>,
    stack: Seq<ValueV>,
    env: Scope,
    d: nat,
)
    requires
        simple_from(b, i),
        0 <= i <= b.children.len(),
        comp_seq(b, i, st) is Ok,
        agrees(code, comp_seq(b, i, st)->Ok_0.code, st.code.len() as int, comp_seq(b, i, st)->Ok_0.code.len() as int),
        extends(cs, comp_seq(b, i, st)->Ok_0.consts),
        cs.len() <= usize::MAX,
        code.len() <= usize::MAX,
    ensures
        run_from(code, cs, st.code.len() as int, stack, seq![]) == match block_values(b, i, env, d) {
            Ok(vs) => run_from(code, cs, comp_seq(b, i, st)->Ok_0.code.len() as int, stack + vs, seq![]),
            Err(x) => Err(VmError::Runtime(x)),
        },
    decreases b, b.children.len() - i,
{
    if i < b.children.len() {
        let c = b.children[i];
        lemma_stmt_compiles(c, st);
        let s1 = comp(c, st)->Ok_0;
        lemma_block_compiles(b, i + 1, s1);
        let fin = comp_seq(b, i, st)->Ok_0;
        lemma_agrees_narrow(code, fin.code, s1.code, st.code.len() as int, s1.code.len() as int);
        lemma_extends_trans(cs, fin.consts, s1.consts);
        lemma_stmt_runs(c, st, code, cs, stack, env, d);
        match stmt_values(c, env, d) {
            Err(x) => {},
            Ok(vs) => {
                lemma_block_runs(b, i + 1, s1, code, cs, stack + vs, env, d);
                match block_values(b, i + 1, env, d) {
                    Ok(ws) => {
                        assert(stack + vs + ws =~= stack + (vs + ws));
                    },
                    Err(x) => {},
                }
            },
        }
    } else {
        assert(stack + Seq::<ValueV>::empty() =~= stack);
    }
}

/// A program of statements in the compiled subset: expressions built from
/// literals and binary operators, and `if` statements with such a condition
/// and both branches.
pub open spec fn simple_program(p: AstNode) -> bool {
    (p.node_type is Program || p.node_type is Block) && simple_from(p, 0)
}

/// Both backends come down to the values that the statements leave: the
/// machine ends with all of them on its stack, in order, and nothing printed;
/// the interpreter gives the last of them (nothing for an empty program); or
/// both stop with the same runtime error.
pub proof fn lemma_program_backends_agree(p: AstNode, env: Scope)
    requires
        simple_program(p),
        comp(p, start_state())->Ok_0.consts.len() <= usize::MAX,
        comp(p, start_state())->Ok_0.code.len() <= usize::MAX,
    ensures
        comp(p, start_state()) is Ok,
        run_from(
            comp(p, start_state())->Ok_0.code,
            comp(p, start_state())->Ok_0.consts,
            0,
            seq![],
            seq![],
        ) == match block_values(p, 0, env, MAX_CALL_DEPTH as nat) {
            Ok(vs) => Ok::<(Seq<ValueV>, Seq<ValueV>), VmError>((vs, seq![])),
            Err(er) => Err(VmError::Runtime(er)),
        },
        eval(p, env, MAX_CALL_DEPTH as nat).0 == match block_values(p, 0, env, MAX_CALL_DEPTH as nat) {
            Ok(vs) => Ok(
                if vs.len() == 0 {
                    ValueV::Nothing
                } else {
                    vs.last()
                },
            ),
            Err(er) => Err(er),
        },
{
    let d = MAX_CALL_DEPTH as nat;
    assert(comp(p, start_state()) == comp_seq(p, 0, start_state()));
    lemma_block_compiles(p, 0, start_state());
    let st = comp(p, start_state())->Ok_0;
    assert(agrees(st.code, st.code, 0, st.code.len() as int));
    assert(st.consts.subrange(0, st.consts.len() as int) =~= st.consts);
    lemma_block_runs(p, 0, start_state(), st.code, st.consts, seq![], env, d);
    match block_values(p, 0, env, d) {
        Ok(vs) => {
            assert(Seq::<ValueV>::empty() + vs =~= vs);
        },
        Err(e) => {},
    }
    assert(eval(p, env, d) == eval_block(p, 0, env, d, ValueV::Nothing));
    lemma_block_evaluates(p, 0, env, d, ValueV::Nothing);
}

} // verus!
