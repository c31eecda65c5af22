use std::rc::Rc;
use minilang::ast::{AstNode, AstNodeType};
use minilang::interpreter::{Environment, Interpreter, RuntimeError, Value, interpret};
use minilang::lexer::tokenize;
use minilang::number::Num;
use minilang::parser::Parser;

fn num(n: i64) -> AstNode {
    AstNode::new(AstNodeType::Number(Num::from_int(n)), vec![])
}

fn binop(op: &str, l: AstNode, r: AstNode) -> AstNode {
    AstNode::new(AstNodeType::BinaryOp(op.to_string()), vec![l, r])
}

fn program(src: &str) -> AstNode {
    Parser::new(tokenize(src).unwrap()).parse().unwrap()
}

#[test]
fn test_interpret_number() {
    let mut interpreter = Interpreter::new();
    let node = AstNode::new(AstNodeType::Number(Num::from_int(42)), vec![]);
    let result = interpreter.interpret(&node).unwrap();
    assert_eq!(result, Value::Number(Num::from_int(42)));
}

#[test]
fn test_interpret_binary_operation() {
    let mut interpreter = Interpreter::new();
    let node = binop("+", num(5), num(3));
    let result = interpreter.interpret(&node).unwrap();
    assert_eq!(result, Value::Number(Num::from_int(8)));
}

#[test]
fn five_plus_three_from_source() {
    let mut env = Environment::new();
    assert_eq!(interpret(&program("5 + 3"), &mut env), Ok(Value::Number(Num::from_int(8))));
}

#[test]
fn call_of_defined_function() {
    let mut env = Environment::new();
    assert_eq!(interpret(&program("def test(x, y):\n    x + y"), &mut env), Ok(Value::Nil));
    let call = AstNode::new(AstNodeType::Call("test".to_string(), vec![num(5), num(3)]), vec![]);
    assert_eq!(interpret(&call, &mut env), Ok(Value::Number(Num::from_int(8))));
    let short = AstNode::new(AstNodeType::Call("test".to_string(), vec![num(5)]), vec![]);
    assert_eq!(
        interpret(&short, &mut env),
        Err(RuntimeError::ArityMismatch { name: "test".to_string(), expected: 2, actual: 1 })
    );
}

#[test]
fn undefined_variable_is_an_error() {
    let mut env = Environment::new();
    assert_eq!(
        interpret(&program("undefined_var"), &mut env),
        Err(RuntimeError::UndefinedVariable("undefined_var".to_string()))
    );
}

#[test]
fn false_if_without_else_is_nil() {
    let mut env = Environment::new();
    assert_eq!(interpret(&program("if 0:\n    7\n"), &mut env), Ok(Value::Nil));
    assert_eq!(interpret(&program("if 2:\n    7\n"), &mut env), Ok(Value::Number(Num::from_int(7))));
    assert_eq!(
        interpret(&program("if 0:\n    7\nelse:\n    9\n"), &mut env),
        Ok(Value::Number(Num::from_int(9)))
    );
}

#[test]
fn arithmetic_and_strings() {
    let mut env = Environment::new();
    assert_eq!(
        interpret(&binop("*", num(4), num(3)), &mut env),
        Ok(Value::Number(Num::from_int(12)))
    );
    assert_eq!(
        interpret(&binop("-", num(4), num(9)), &mut env),
        Ok(Value::Number(Num::from_int(-5)))
    );
    assert_eq!(
        interpret(&binop("/", num(1), num(4)), &mut env),
        Ok(Value::Number(Num { num: 1, den: 4 }))
    );
    assert_eq!(
        interpret(&binop("♡", num(2), num(2)), &mut env),
        Ok(Value::Number(Num::from_int(1)))
    );
    assert_eq!(
        interpret(&binop("♡", num(2), num(3)), &mut env),
        Ok(Value::Number(Num::from_int(0)))
    );
    assert_eq!(
        interpret(&program("'Salam' + ' Alaikum'"), &mut env),
        Ok(Value::String("Salam Alaikum".to_string()))
    );
}

#[test]
fn runtime_errors() {
    let mut env = Environment::new();
    assert_eq!(interpret(&binop("/", num(5), num(0)), &mut env), Err(RuntimeError::DivisionByZero));
    assert_eq!(
        interpret(&program("'text' + 42"), &mut env),
        Err(RuntimeError::TypeError("+".to_string()))
    );
    assert_eq!(
        interpret(&binop("%", num(5), num(2)), &mut env),
        Err(RuntimeError::UnsupportedOperator("%".to_string()))
    );
    assert_eq!(
        interpret(&binop("*", num(i64::MAX), num(2)), &mut env),
        Err(RuntimeError::NumericOverflow)
    );
    let call = AstNode::new(AstNodeType::Call("nothing".to_string(), vec![]), vec![]);
    assert_eq!(
        interpret(&call, &mut env),
        Err(RuntimeError::UndefinedFunction("nothing".to_string()))
    );
    let bad = AstNode::new(AstNodeType::BinaryOp("+".to_string()), vec![num(1)]);
    assert_eq!(interpret(&bad, &mut env), Err(RuntimeError::UnsupportedNode));
}

#[test]
fn calls_do_not_see_the_caller_scope() {
    let mut env = Environment::new();
    env.set("y".to_string(), Value::Number(Num::from_int(1)));
    interpret(&program("def f(x):\n    y"), &mut env).unwrap();
    let call = AstNode::new(AstNodeType::Call("f".to_string(), vec![num(5)]), vec![]);
    assert_eq!(
        interpret(&call, &mut env),
        Err(RuntimeError::UndefinedVariable("y".to_string()))
    );
}

#[test]
fn endless_recursion_stops_at_the_depth_limit() {
    // f(x) calls x(x); calling f(f) never ends on its own.
    let mut env = Environment::new();
    let ident = |s: &str| AstNode::new(AstNodeType::Identifier(s.to_string()), vec![]);
    let body = AstNode::new(
        AstNodeType::Block,
        vec![AstNode::new(AstNodeType::Call("x".to_string(), vec![ident("x")]), vec![])],
    );
    let def = AstNode::new(
        AstNodeType::FunctionDef("f".to_string(), vec!["x".to_string()], Rc::new(body)),
        vec![],
    );
    interpret(&def, &mut env).unwrap();
    let call = AstNode::new(AstNodeType::Call("f".to_string(), vec![ident("f")]), vec![]);
    assert_eq!(interpret(&call, &mut env), Err(RuntimeError::CallDepthExceeded));
}

#[test]
fn later_binding_hides_earlier() {
    let mut env = Environment::new();
    env.set("a".to_string(), Value::Number(Num::from_int(1)));
    env.set("a".to_string(), Value::Number(Num::from_int(2)));
    assert_eq!(env.get("a"), Some(Value::Number(Num::from_int(2))));
    assert_eq!(env.get("b"), None);
}

#[test]
fn lookup_falls_back_to_the_parent() {
    let mut parent = Environment::new();
    parent.set("a".to_string(), Value::Number(Num::from_int(1)));
    parent.set("b".to_string(), Value::Number(Num::from_int(2)));
    let mut child = Environment::with_parent(parent);
    child.set("a".to_string(), Value::Number(Num::from_int(10)));
    assert_eq!(child.get("a"), Some(Value::Number(Num::from_int(10))));
    assert_eq!(child.get("b"), Some(Value::Number(Num::from_int(2))));
    let ident = AstNode::new(AstNodeType::Identifier("b".to_string()), vec![]);
    assert_eq!(interpret(&ident, &mut child), Ok(Value::Number(Num::from_int(2))));
}
