//! The tree-walking interpreter: values, environments and evaluation.

use std::rc::Rc;
use vstd::prelude::*;
use vstd::string::StringExecFns;
use vstd::string::StrSliceExecFns;
use crate::ast::{AstNode, AstNodeType, call_args, names_view};
use crate::number::{Num, ArithError, add_spec, sub_spec, mul_spec, div_spec, eq_spec};

verus! {

broadcast use vstd::std_specs::vec::axiom_vec_index_decreases;

/// How many nested function calls one evaluation may make.
pub const MAX_CALL_DEPTH: u64 = 200;

/// A runtime value. A function value holds its parameter names and shares its body.
#[derive(Debug, Clone, PartialEq)]
pub enum Value {
    Number(Num),
    String(String),
    Function(Vec<String>, Rc<AstNode>),
    Nil,
}

/// The mathematical model of a runtime value.
pub enum ValueV {
    Number(Num),
    Str(Seq<char>),
    Function(Seq<Seq<char>>, AstNode),
    Nothing,
}

impl View for Value {
    type V = ValueV;

    open spec fn view(&self) -> ValueV {
        match self {
            Value::Number(n) => ValueV::Number(*n),
            Value::String(s) => ValueV::Str(s@),
            Value::Function(params, body) => ValueV::Function(names_view(params@), **body),
            Value::Nil => ValueV::Nothing,
        }
    }
}

/// Why an evaluation failed.
#[derive(Debug, Clone, PartialEq)]
pub enum RuntimeError {
    UndefinedVariable(String),
    UndefinedFunction(String),
    ArityMismatch { name: String, expected: usize, actual: usize },
    /// The operands' kinds do not fit the operator.
    TypeError(String),
    UnsupportedOperator(String),
    /// A node whose shape no evaluation rule covers.
    UnsupportedNode,
    /// A number with a denominator that is not positive.
    InvalidNumber,
    DivisionByZero,
    NumericOverflow,
    CallDepthExceeded,
}

/// The bindings of one environment; a later binding of a name hides earlier ones.
pub type Frame = Seq<(Seq<char>, ValueV)>;

/// A chain of environments, innermost first.
pub type Scope = Seq<Frame>;

/// A mapping from names to values, with an optional parent that lookups fall
/// back to.
pub struct Environment {
    pub variables: Vec<(String, Value)>,
    pub parent: Option<Box<Environment>>,
}

pub open spec fn frame_of(vars: Seq<(String, Value)>) -> Frame {
    vars.map_values(|b: (String, Value)| (b.0@, b.1@))
}

/// The chain of frames of `e`: its own bindings, then its parent's chain.
pub open spec fn scope_of(e: Environment) -> Scope
    decreases e,
{
    match e.parent {
        Some(p) => seq![frame_of(e.variables@)] + scope_of(*p),
        None => seq![frame_of(e.variables@)],
    }
}

impl View for Environment {
    type V = Scope;

    open spec fn view(&self) -> Scope {
        scope_of(*self)
    }
}

/// The value bound to `name` along the chain: the innermost frame that binds it wins.
pub open spec fn lookup_chain(env: Scope, name: Seq<char>) -> Option<ValueV>
    decreases env.len(),
{
    if env.len() == 0 {
        None
    } else {
        match lookup(env[0], name) {
            Some(v) => Some(v),
            None => lookup_chain(env.drop_first(), name),
        }
    }
}

/// The chain with `name` bound to `v` in its innermost frame.
pub open spec fn define(env: Scope, name: Seq<char>, v: ValueV) -> Scope {
    if env.len() == 0 {
        seq![seq![(name, v)]]
    } else {
        env.update(0, env[0].push((name, v)))
    }
}

/// The value bound to `name` in one frame: the latest binding wins.
pub open spec fn lookup(env: Frame, name: Seq<char>) -> Option<ValueV>
    decreases env.len(),
{
    if env.len() == 0 {
        None
    } else if env.last().0 == name {
        Some(env.last().1)
    } else {
        lookup(env.drop_last(), name)
    }
}

/// The environment of a fresh call: each parameter bound to its argument.
pub open spec fn bind(params: Seq<Seq<char>>, vals: Seq<ValueV>) -> Seq<(Seq<char>, ValueV)> {
    Seq::new(params.len(), |i: int| (params[i], vals[i]))
}

pub open spec fn truthy(v: ValueV) -> bool {
    v matches ValueV::Number(n) && n.num != 0
}

pub open spec fn lift(r: Result<Num, ArithError>) -> Result<ValueV, RuntimeError> {
    match r {
        Ok(n) => Ok(ValueV::Number(n)),
        Err(ArithError::Overflow) => Err(RuntimeError::NumericOverflow),
        Err(ArithError::DivisionByZero) => Err(RuntimeError::DivisionByZero),
    }
}

/// The equality operator of the alternate notation.
pub open spec fn heart() -> Seq<char> {
    seq!['\u{2661}']
}

/// What a binary operator gives on two values.
pub open spec fn apply_binop(op: String, l: ValueV, r: ValueV) -> Result<ValueV, RuntimeError> {
    match (l, r) {
        (ValueV::Number(a), ValueV::Number(b)) => {
            if !(a.wf() && b.wf()) {
                Err(RuntimeError::InvalidNumber)
            } else if op@ == seq!['+'] {
                lift(add_spec(a, b))
            } else if op@ == seq!['-'] {
                lift(sub_spec(a, b))
            } else if op@ == seq!['*'] {
                lift(mul_spec(a, b))
            } else if op@ == seq!['/'] {
                lift(div_spec(a, b))
            } else if op@ == heart() {
                Ok(ValueV::Number(eq_spec(a, b)))
            } else {
                Err(RuntimeError::UnsupportedOperator(op))
            }
        },
        (ValueV::Str(a), ValueV::Str(b)) => {
            if op@ == seq!['+'] {
                Ok(ValueV::Str(a + b))
            } else {
                Err(RuntimeError::TypeError(op))
            }
        },
        _ => Err(RuntimeError::TypeError(op)),
    }
}

pub open spec fn eval_measure(node: AstNode) -> int {
    node.children.len() + call_args(node).len() + 1
}

/// Evaluates `node` in `env`, allowing `depth` more nested calls; gives the
/// result and the environment afterwards.
pub open spec fn eval(node: AstNode, env: Scope, depth: nat) -> (
    Result<ValueV, RuntimeError>,
    Scope,
)
    decreases depth, node, eval_measure(node),
{
    match node.node_type {
        AstNodeType::Program | AstNodeType::Block => eval_block(node, 0, env, depth, ValueV::Nothing),
        AstNodeType::Number(n) => (Ok(ValueV::Number(n)), env),
        AstNodeType::String(s) => (Ok(ValueV::Str(s@)), env),
        AstNodeType::Identifier(name) => match lookup_chain(env, name@) {
            Some(v) => (Ok(v), env),
            None => (Err(RuntimeError::UndefinedVariable(name)), env),
        },
        AstNodeType::BinaryOp(op) => {
            if node.children.len() < 2 {
                (Err(RuntimeError::UnsupportedNode), env)
            } else {
                let (l, e1) = eval(node.children[0], env, depth);
                match l {
                    Err(e) => (Err(e), e1),
                    Ok(lv) => {
                        let (r, e2) = eval(node.children[1], e1, depth);
                        match r {
                            Err(e) => (Err(e), e2),
                            Ok(rv) => (apply_binop(op, lv, rv), e2),
                        }
                    },
                }
            }
        },
        AstNodeType::IfStatement => {
            if node.children.len() < 2 {
                (Err(RuntimeError::UnsupportedNode), env)
            } else {
                let (c, e1) = eval(node.children[0], env, depth);
                match c {
                    Err(e) => (Err(e), e1),
                    Ok(cv) => {
                        if truthy(cv) {
                            eval(node.children[1], e1, depth)
                        } else if node.children.len() > 2 {
                            eval(node.children[2], e1, depth)
                        } else {
                            (Ok(ValueV::Nothing), e1)
                        }
                    },
                }
            }
        },
        AstNodeType::FunctionDef(name, params, body) => (
            Ok(ValueV::Nothing),
            define(env, name@, ValueV::Function(names_view(params@), *body)),
        ),
        AstNodeType::Call(name, args) => match lookup_chain(env, name@) {
            Some(ValueV::Function(params, body)) => {
                if params.len() != args.len() {
                    (
                        Err(
                            RuntimeError::ArityMismatch {
                                name,
                                expected: params.len() as usize,
                                actual: args.len(),
                            },
                        ),
                        env,
                    )
                } else {
                    let (a, e1) = eval_args(node, 0, env, depth, seq![]);
                    match a {
                        Err(e) => (Err(e), e1),
                        Ok(vals) => {
                            if depth == 0 {
                                (Err(RuntimeError::CallDepthExceeded), e1)
                            } else {
                                (eval(body, seq![bind(params, vals)], (depth - 1) as nat).0, e1)
                            }
                        },
                    }
                }
            },
            _ => (Err(RuntimeError::UndefinedFunction(name)), env),
        },
    }
}

/// Evaluates the children of `node` from index `i` on, in order; the value is the
/// last child's, or `last` when none is left.
pub open spec fn eval_block(
    node: AstNode,
    i: int,
    env: Scope,
    depth: nat,
    last: ValueV,
) -> (Result<ValueV, RuntimeError>, Scope)
    decreases depth, node, node.children.len() - i,
{
    if i < 0 || i >= node.children.len() {
        (Ok(last), env)
    } else {
        let (r, e1) = eval(node.children[i], env, depth);
        match r {
            Err(e) => (Err(e), e1),
            Ok(v) => eval_block(node, i + 1, e1, depth, v),
        }
    }
}

/// Evaluates the call arguments of `node` from index `i` on, left to right,
/// appending their values to `acc`.
pub open spec fn eval_args(
    node: AstNode,
    i: int,
    env: Scope,
    depth: nat,
    acc: Seq<ValueV>,
) -> (Result<Seq<ValueV>, RuntimeError>, Scope)
    decreases depth, node, call_args(node).len() - i,
{
    if i < 0 || i >= call_args(node).len() {
        (Ok(acc), env)
    } else {
        let (r, e1) = eval(call_args(node)[i], env, depth);
        match r {
            Err(e) => (Err(e), e1),
            Ok(v) => eval_args(node, i + 1, e1, depth, acc.push(v)),
        }
    }
}

pub open spec fn result_view(r: Result<Value, RuntimeError>) -> Result<ValueV, RuntimeError> {
    match r {
        Ok(v) => Ok(v@),
        Err(e) => Err(e),
    }
}

pub open spec fn option_view(o: Option<Value>) -> Option<ValueV> {
    match o {
        Some(v) => Some(v@),
        None => None,
    }
}

fn copy_names(names: &Vec<String>) -> (r: Vec<String>)
    ensures
        names_view(r@) == names_view(names@),
{
    let mut out: Vec<String> = Vec::new();
    let mut i: usize = 0;
    while i < names.len()
        invariant
            i <= names.len(),
            out@.len() == i,
            forall|k: int| 0 <= k < i ==> out@[k]@ == names@[k]@,
        decreases names.len() - i,
    {
        out.push(names[i].clone());
        i += 1;
    }
    assert(names_view(out@) =~= names_view(names@));
    out
}

impl Value {
    /// A copy with the same model; a function body stays shared.
    pub fn duplicate(&self) -> (r: Value)
        ensures
            r@ == self@,
    {
        match self {
            Value::Number(n) => Value::Number(*n),
            Value::String(s) => Value::String(s.clone()),
            Value::Function(params, body) => Value::Function(copy_names(params), Rc::clone(body)),
            Value::Nil => Value::Nil,
        }
    }
}

impl Environment {
    /// An environment without bindings or parent.
    pub fn new() -> (r: Environment)
        ensures
            r@ == seq![Frame::empty()],
    {
        let r = Environment { variables: Vec::new(), parent: None };
        assert(frame_of(r.variables@) =~= Frame::empty());
        r
    }

    /// An environment without bindings whose lookups fall back to `parent`.
    pub fn with_parent(parent: Environment) -> (r: Environment)
        ensures
            r@ == seq![Frame::empty()] + parent@,
    {
        let r = Environment { variables: Vec::new(), parent: Some(Box::new(parent)) };
        assert(frame_of(r.variables@) =~= Frame::empty());
        r
    }

    /// The value of `name`: from this environment's own bindings, else from the parent chain.
    pub fn get(&self, name: &str) -> (r: Option<Value>)
        ensures
            option_view(r) == lookup_chain(self@, name@),
        decreases self,
    {
        let ghost own = frame_of(self.variables@);
        let key = String::from_str(name);
        let mut i: usize = self.variables.len();
        assert(own.subrange(0, i as int) =~= own);
        while i > 0
            invariant
                i <= self.variables.len(),
                key@ == name@,
                own == frame_of(self.variables@),
                lookup(own, name@) == lookup(own.subrange(0, i as int), name@),
            decreases i,
        {
            let ghost pre = own.subrange(0, i as int);
            assert(pre.drop_last() =~= own.subrange(0, i - 1));
            if self.variables[i - 1].0 == key {
                return Some(self.variables[i - 1].1.duplicate());
            }
            i -= 1;
        }
        assert(lookup(own, name@) is None);
        match &self.parent {
            Some(p) => {
                assert(self@.drop_first() =~= p@);
                p.get(name)
            },
            None => None,
        }
    }

    /// Binds `name` to `value` in this environment's own bindings.
    pub fn set(&mut self, name: String, value: Value)
        ensures
            final(self)@ == define(old(self)@, name@, value@),
    {
        self.variables.push((name, value));
        assert(frame_of(self.variables@) =~= frame_of(old(self).variables@).push((name@, value@)));
        assert(final(self)@ =~= define(old(self)@, name@, value@));
    }
}

/// The single character of a one-character string.
pub(crate) fn single_char(s: &String) -> (r: Option<char>)
    ensures
        r == (if s@.len() == 1 {
            Some(s@[0])
        } else {
            None
        }),
{
    if s.as_str().unicode_len() == 1 {
        Some(s.as_str().get_char(0))
    } else {
        None
    }
}

fn lift_exec(r: Result<Num, ArithError>) -> (v: Result<Value, RuntimeError>)
    ensures
        result_view(v) == lift(r),
{
    match r {
        Ok(n) => Ok(Value::Number(n)),
        Err(ArithError::Overflow) => Err(RuntimeError::NumericOverflow),
        Err(ArithError::DivisionByZero) => Err(RuntimeError::DivisionByZero),
    }
}

/// Applies a binary operator to two values.
pub fn binary_op(op: &String, l: Value, r: Value) -> (v: Result<Value, RuntimeError>)
    ensures
        result_view(v) == apply_binop(*op, l@, r@),
{
    let c = single_char(op);
    proof {
        if c is Some {
            assert(op@ =~= seq![c->0]);
        }
    }
    match (l, r) {
        (Value::Number(a), Value::Number(b)) => {
            if !(a.den > 0 && b.den > 0) {
                Err(RuntimeError::InvalidNumber)
            } else if c == Some('+') {
                lift_exec(a.checked_add(&b))
            } else if c == Some('-') {
                lift_exec(a.checked_sub(&b))
            } else if c == Some('*') {
                lift_exec(a.checked_mul(&b))
            } else if c == Some('/') {
                lift_exec(a.checked_div(&b))
            } else if c == Some('\u{2661}') {
                Ok(Value::Number(a.value_eq(&b)))
            } else {
                proof {
                    assert(op@ != seq!['+']);
                    assert(op@ != seq!['-']);
                    assert(op@ != seq!['*']);
                    assert(op@ != seq!['/']);
                    assert(op@ != heart());
                }
                Err(RuntimeError::UnsupportedOperator(op.clone()))
            }
        },
        (Value::String(a), Value::String(b)) => {
            if c == Some('+') {
                assert(op@ =~= seq!['+']);
                Ok(Value::String(a.concat(b.as_str())))
            } else {
                assert(op@ != seq!['+']);
                Err(RuntimeError::TypeError(op.clone()))
            }
        },
        _ => Err(RuntimeError::TypeError(op.clone())),
    }
}

/// Evaluates `node` in `env` with `depth` more nested calls allowed.
fn eval_node(node: &AstNode, env: &mut Environment, depth: u64) -> (r: Result<Value, RuntimeError>)
    ensures
        result_view(r) == eval(*node, old(env)@, depth as nat).0,
        final(env)@ == eval(*node, old(env)@, depth as nat).1,
    decreases depth, *node, eval_measure(*node),
{
    match &node.node_type {
        AstNodeType::Program | AstNodeType::Block => {
            let ghost env0 = env@;
            assert(eval(*node, env0, depth as nat) == eval_block(*node, 0, env0, depth as nat, ValueV::Nothing));
            let mut last = Value::Nil;
            let mut i: usize = 0;
            while i < node.children.len()
                invariant
                    i <= node.children.len(),
                    env0 == old(env)@,
                    eval(*node, env0, depth as nat) == eval_block(*node, 0, env0, depth as nat, ValueV::Nothing),
                    eval_block(*node, i as int, env@, depth as nat, last@) == eval_block(
                        *node,
                        0,
                        env0,
                        depth as nat,
                        ValueV::Nothing,
                    ),
                decreases node.children.len() - i,
            {
                let ghost pre = env@;
                let ghost pre_last = last@;
                let r = eval_node(&node.children[i], env, depth);
                proof {
                    assert(eval_block(*node, i as int, pre, depth as nat, pre_last) == match eval(
                        node.children[i as int],
                        pre,
                        depth as nat,
                    ).0 {
                        Err(e) => (Err(e), env@),
                        Ok(v) => eval_block(*node, i + 1, env@, depth as nat, v),
                    });
                }
                match r {
                    Ok(v) => {
                        last = v;
                    },
                    Err(e) => {
                        return Err(e);
                    },
                }
                i += 1;
            }
            Ok(last)
        },
        AstNodeType::Number(n) => Ok(Value::Number(*n)),
        AstNodeType::String(s) => Ok(Value::String(s.clone())),
        AstNodeType::Identifier(name) => match env.get(name.as_str()) {
            Some(v) => Ok(v),
            None => Err(RuntimeError::UndefinedVariable(name.clone())),
        },
        AstNodeType::BinaryOp(op) => {
            if node.children.len() < 2 {
                return Err(RuntimeError::UnsupportedNode);
            }
            let l = eval_node(&node.children[0], env, depth)?;
            let r = eval_node(&node.children[1], env, depth)?;
            binary_op(op, l, r)
        },
        AstNodeType::IfStatement => {
            if node.children.len() < 2 {
                return Err(RuntimeError::UnsupportedNode);
            }
            let c = eval_node(&node.children[0], env, depth)?;
            let is_true = match &c {
                Value::Number(n) => n.num != 0,
                _ => false,
            };
            if is_true {
                eval_node(&node.children[1], env, depth)
            } else if node.children.len() > 2 {
                eval_node(&node.children[2], env, depth)
            } else {
                Ok(Value::Nil)
            }
        },
        AstNodeType::FunctionDef(name, params, body) => {
            env.set(name.clone(), Value::Function(copy_names(params), Rc::clone(body)));
            Ok(Value::Nil)
        },
        AstNodeType::Call(name, args) => {
            let f = env.get(name.as_str());
            match f {
                Some(Value::Function(params, body)) => {
                    if params.len() != args.len() {
                        proof {
                            assert(names_view(params@).len() == params@.len());
                        }
                        return Err(
                            RuntimeError::ArityMismatch {
                                name: name.clone(),
                                expected: params.len(),
                                actual: args.len(),
                            },
                        );
                    }
                    let ghost env0 = env@;
                    let mut vals: Vec<Value> = Vec::new();
                    assert(vals@.map_values(|v: Value| v@) =~= seq![]);
                    let ghost fparams = names_view(params@);
                    let ghost whole = eval(*node, env0, depth as nat);
                    assert(whole == match eval_args(*node, 0, env0, depth as nat, seq![]).0 {
                        Err(e) => (Err(e), eval_args(*node, 0, env0, depth as nat, seq![]).1),
                        Ok(vs) => if depth == 0 {
                            (Err(RuntimeError::CallDepthExceeded), eval_args(*node, 0, env0, depth as nat, seq![]).1)
                        } else {
                            (eval(*body, seq![bind(fparams, vs)], (depth - 1) as nat).0, eval_args(*node, 0, env0, depth as nat, seq![]).1)
                        },
                    });
                    let mut i: usize = 0;
                    while i < args.len()
                        invariant
                            i <= args.len(),
                            env0 == old(env)@,
                            whole == eval(*node, env0, depth as nat),
                            whole == match eval_args(*node, 0, env0, depth as nat, seq![]).0 {
                                Err(e) => (Err(e), eval_args(*node, 0, env0, depth as nat, seq![]).1),
                                Ok(vs) => if depth == 0 {
                                    (Err(RuntimeError::CallDepthExceeded), eval_args(*node, 0, env0, depth as nat, seq![]).1)
                                } else {
                                    (eval(*body, seq![bind(fparams, vs)], (depth - 1) as nat).0, eval_args(*node, 0, env0, depth as nat, seq![]).1)
                                },
                            },
                            params.len() == args.len(),
                            lookup_chain(env0, name@) == Some(ValueV::Function(names_view(params@), *body)),
                            args@ == call_args(*node),
                            vals@.len() == i,
                            eval_args(
                                *node,
                                i as int,
                                env@,
                                depth as nat,
                                vals@.map_values(|v: Value| v@),
                            ) == eval_args(*node, 0, env0, depth as nat, seq![]),
                        decreases args.len() - i,
                    {
                        let ghost pre = env@;
                        let ghost pre_vals = vals@.map_values(|v: Value| v@);
                        let r = eval_node(&args[i], env, depth);
                        proof {
                            assert(eval_args(*node, i as int, pre, depth as nat, pre_vals) == match eval(
                                call_args(*node)[i as int],
                                pre,
                                depth as nat,
                            ).0 {
                                Err(e) => (Err(e), env@),
                                Ok(v) => eval_args(*node, i + 1, env@, depth as nat, pre_vals.push(v)),
                            });
                        }
                        match r {
                            Ok(v) => {
                                let ghost before = vals@;
                                vals.push(v);
                                assert(vals@.map_values(|v: Value| v@) =~= before.map_values(
                                    |v: Value| v@,
                                ).push(v@));
                            },
                            Err(e) => {
                                return Err(e);
                            },
                        }
                        i += 1;
                    }
                    let ghost vs = vals@.map_values(|v: Value| v@);
                    assert(eval_args(*node, i as int, env@, depth as nat, vs) == (Ok::<Seq<ValueV>, RuntimeError>(vs), env@));
                    if depth == 0 {
                        return Err(RuntimeError::CallDepthExceeded);
                    }
                    let mut local = Environment::new();
                    let mut k: usize = 0;
                    assert(bind(fparams, vs).subrange(0, 0) =~= Frame::empty());
                    while k < params.len()
                        invariant
                            k <= params.len(),
                            params.len() == vals.len(),
                            local@ == seq![bind(names_view(params@), vals@.map_values(|v: Value| v@)).subrange(0, k as int)],
                        decreases params.len() - k,
                    {
                        let ghost pre = bind(names_view(params@), vals@.map_values(|v: Value| v@)).subrange(0, k as int);
        assert(pre =~= bind(names_view(params@), vals@.map_values(|v: Value| v@)).subrange(0, k as int));
        local.set(params[k].clone(), vals[k].duplicate());
        assert(bind(names_view(params@), vals@.map_values(|v: Value| v@)).subrange(0, k + 1) =~= pre.push((names_view(params@)[k as int], vals@[k as int]@)));
        assert(seq![pre].update(0, pre.push((names_view(params@)[k as int], vals@[k as int]@))) =~= seq![bind(names_view(params@), vals@.map_values(|v: Value| v@)).subrange(0, k + 1)]);
                        k += 1;
                    }
                    assert(bind(fparams, vs).subrange(0, k as int) =~= bind(fparams, vs));
                    eval_node(&body, &mut local, depth - 1)
                },
                _ => Err(RuntimeError::UndefinedFunction(name.clone())),
            }
        },
    }
}

/// Evaluates `node` in `env`, the way a program run evaluates it.
pub fn interpret(node: &AstNode, env: &mut Environment) -> (r: Result<Value, RuntimeError>)
    ensures
        result_view(r) == eval(*node, old(env)@, MAX_CALL_DEPTH as nat).0,
        final(env)@ == eval(*node, old(env)@, MAX_CALL_DEPTH as nat).1,
{
    eval_node(node, env, MAX_CALL_DEPTH)
}

/// Calls a function with parameters `params` and body `body` on `args`, in a
/// fresh environment that binds each parameter to its argument.
pub fn call_function(params: &Vec<String>, body: &AstNode, args: &Vec<Value>) -> (r: Result<Value, RuntimeError>)
    requires
        params@.len() == args@.len(),
    ensures
        result_view(r) == eval(
            *body,
            seq![bind(names_view(params@), args@.map_values(|v: Value| v@))],
            (MAX_CALL_DEPTH - 1) as nat,
        ).0,
{
    let mut local = Environment::new();
    let mut k: usize = 0;
    assert(bind(names_view(params@), args@.map_values(|v: Value| v@)).subrange(0, 0) =~= Frame::empty());
    while k < params.len()
        invariant
            k <= params.len(),
            params.len() == args.len(),
            local@ == seq![bind(names_view(params@), args@.map_values(|v: Value| v@)).subrange(0, k as int)],
        decreases params.len() - k,
    {
        let ghost pre = bind(names_view(params@), args@.map_values(|v: Value| v@)).subrange(0, k as int);
        assert(pre =~= bind(names_view(params@), args@.map_values(|v: Value| v@)).subrange(0, k as int));
        local.set(params[k].clone(), args[k].duplicate());
        assert(bind(names_view(params@), args@.map_values(|v: Value| v@)).subrange(0, k + 1) =~= pre.push((names_view(params@)[k as int], args@[k as int]@)));
        assert(seq![pre].update(0, pre.push((names_view(params@)[k as int], args@[k as int]@))) =~= seq![bind(names_view(params@), args@.map_values(|v: Value| v@)).subrange(0, k + 1)]);
        k += 1;
    }
    assert(bind(names_view(params@), args@.map_values(|v: Value| v@)).subrange(0, k as int) =~= bind(
        names_view(params@),
        args@.map_values(|v: Value| v@),
    ));
    eval_node(body, &mut local, MAX_CALL_DEPTH - 1)
}

/// An interpreter with one root environment that successive evaluations share.
pub struct Interpreter {
    pub env: Environment,
}

impl Interpreter {
    pub fn new() -> (r: Interpreter)
        ensures
            r.env@ == seq![Frame::empty()],
    {
        Interpreter { env: Environment::new() }
    }

    /// Evaluates `node` in the root environment.
    pub fn interpret(&mut self, node: &AstNode) -> (r: Result<Value, RuntimeError>)
        ensures
            result_view(r) == eval(*node, old(self).env@, MAX_CALL_DEPTH as nat).0,
            final(self).env@ == eval(*node, old(self).env@, MAX_CALL_DEPTH as nat).1,
    {
        interpret(node, &mut self.env)
    }
}

} // verus!
