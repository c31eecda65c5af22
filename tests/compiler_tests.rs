use minilang::ast::{AstNode, AstNodeType};
use minilang::compiler::{compile, CompileError, Compiler, Instruction};
use minilang::interpreter::{Environment, Value, interpret};
use minilang::lexer::tokenize;
use minilang::number::Num;
use minilang::parser::Parser;
use minilang::vm::{VmError, VM};

fn num(n: i64) -> AstNode {
    AstNode::new(AstNodeType::Number(Num::from_int(n)), vec![])
}

fn program(src: &str) -> AstNode {
    Parser::new(tokenize(src).unwrap()).parse().unwrap()
}

#[test]
fn test_compile_number() {
    let mut compiler = Compiler::new();
    let node = AstNode::new(AstNodeType::Number(Num::from_int(42)), vec![]);
    compiler.compile(&node).unwrap();
    let (_bytecode, constants) = compiler.get_bytecode();
    assert_eq!(constants[0], Value::Number(Num::from_int(42)));
}

#[test]
fn test_compile_binary_operation() {
    let mut compiler = Compiler::new();
    let node = AstNode::new(AstNodeType::BinaryOp("+".to_string()), vec![num(5), num(3)]);
    compiler.compile(&node).unwrap();
    let (_bytecode, constants) = compiler.get_bytecode();
    assert_eq!(constants[0], Value::Number(Num::from_int(5)));
    assert_eq!(constants[1], Value::Number(Num::from_int(3)));
}

#[test]
fn five_plus_three_compiles_and_runs() {
    let (code, consts) = compile(&program("5 + 3")).unwrap();
    assert_eq!(
        code,
        vec![
            Instruction::LoadConstant(0),
            Instruction::LoadConstant(1),
            Instruction::BinaryOp("+".to_string())
        ]
    );
    assert_eq!(consts, vec![Value::Number(Num::from_int(5)), Value::Number(Num::from_int(3))]);
    let mut vm = VM::new();
    vm.run(&code, &consts).unwrap();
    assert_eq!(vm.stack, vec![Value::Number(Num::from_int(8))]);
}

#[test]
fn jump_if_false_targets_the_end_of_the_then_branch() {
    let (code, _consts) = compile(&program("if 0:\n    7\n")).unwrap();
    assert_eq!(
        code,
        vec![
            Instruction::LoadConstant(0),
            Instruction::JumpIfFalse(3),
            Instruction::LoadConstant(1)
        ]
    );
}

#[test]
fn if_else_patches_both_jumps() {
    let (code, consts) = compile(&program("if 0:\n    7\nelse:\n    9\n")).unwrap();
    assert_eq!(
        code,
        vec![
            Instruction::LoadConstant(0),
            Instruction::JumpIfFalse(4),
            Instruction::LoadConstant(1),
            Instruction::Jump(5),
            Instruction::LoadConstant(2)
        ]
    );
    let mut vm = VM::new();
    vm.run(&code, &consts).unwrap();
    assert_eq!(vm.stack, vec![Value::Number(Num::from_int(9))]);
}

#[test]
fn compiled_call_agrees_with_interpreter() {
    let def = program("def test(x, y):\n    x + y");
    let call = AstNode::new(AstNodeType::Call("test".to_string(), vec![num(5), num(3)]), vec![]);
    let mut compiler = Compiler::new();
    compiler.compile(&def).unwrap();
    compiler.compile(&call).unwrap();
    let (code, consts) = compiler.get_bytecode();
    assert_eq!(code[code.len() - 1], Instruction::Call(0, 2));
    let mut vm = VM::new();
    vm.run(&code, &consts).unwrap();
    let mut env = Environment::new();
    interpret(&def, &mut env).unwrap();
    let direct = interpret(&call, &mut env).unwrap();
    assert_eq!(vm.stack, vec![direct]);
}

#[test]
fn compile_errors() {
    let call = AstNode::new(AstNodeType::Call("nothing".to_string(), vec![]), vec![]);
    assert_eq!(compile(&call), Err(CompileError::UnresolvedFunction("nothing".to_string())));
    let ident = AstNode::new(AstNodeType::Identifier("x".to_string()), vec![]);
    assert_eq!(compile(&ident), Err(CompileError::Unsupported));
}

#[test]
fn vm_errors_and_print() {
    let consts = vec![Value::Number(Num::from_int(1))];
    let mut vm = VM::new();
    assert_eq!(vm.run(&vec![Instruction::BinaryOp("+".to_string())], &consts), Err(VmError::StackUnderflow));
    let mut vm = VM::new();
    assert_eq!(vm.run(&vec![Instruction::LoadConstant(5)], &consts), Err(VmError::InvalidConstant(5)));
    let mut vm = VM::new();
    assert_eq!(vm.run(&vec![Instruction::Jump(0)], &consts), Err(VmError::InvalidJump(0)));
    let mut vm = VM::new();
    assert_eq!(vm.run(&vec![Instruction::Call(0, 0)], &consts), Err(VmError::NotAFunction(0)));
    let mut vm = VM::new();
    vm.run(&vec![Instruction::LoadConstant(0), Instruction::Print], &consts).unwrap();
    assert_eq!(vm.output, vec![Value::Number(Num::from_int(1))]);
    assert!(vm.stack.is_empty());
}

#[test]
fn both_backends_agree_on_a_program_with_branches() {
    let ast = program("1 + 2\nif 1 - 1:\n    'a'\nelse:\n    'b' + 'c'\n    4\n");
    let (code, consts) = compile(&ast).unwrap();
    let mut vm = VM::new();
    vm.run(&code, &consts).unwrap();
    assert_eq!(
        vm.stack,
        vec![
            Value::Number(Num::from_int(3)),
            Value::String("bc".to_string()),
            Value::Number(Num::from_int(4))
        ]
    );
    let mut env = Environment::new();
    assert_eq!(interpret(&ast, &mut env).unwrap(), vm.stack[2]);
}

#[test]
fn failing_instruction_leaves_the_machine_as_it_was() {
    let consts = vec![Value::Number(Num::from_int(1)), Value::String("s".to_string())];
    let mut vm = VM::new();
    assert_eq!(vm.run(&vec![Instruction::LoadConstant(2)], &consts), Err(VmError::InvalidConstant(2)));
    assert!(vm.stack.is_empty());
    let mut vm = VM::new();
    let code = vec![
        Instruction::LoadConstant(0),
        Instruction::Print,
        Instruction::LoadConstant(0),
        Instruction::LoadConstant(1),
        Instruction::BinaryOp("+".to_string()),
    ];
    assert!(matches!(vm.run(&code, &consts), Err(VmError::Runtime(_))));
    assert_eq!(vm.stack, vec![Value::Number(Num::from_int(1)), Value::String("s".to_string())]);
    assert_eq!(vm.output, vec![Value::Number(Num::from_int(1))]);
    let mut vm = VM::new();
    let code = vec![Instruction::LoadConstant(0), Instruction::LoadConstant(0), Instruction::JumpIfFalse(0)];
    assert_eq!(vm.run(&code, &vec![Value::Number(Num::from_int(0))]), Err(VmError::InvalidJump(0)));
    assert_eq!(vm.stack.len(), 2);
}
