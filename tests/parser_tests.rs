use minilang::ast::{AstNode, AstNodeType};
use minilang::lexer::{tokenize, TokenType};
use minilang::number::Num;
use minilang::parser::{Parser, SyntaxError};

fn parse_text(src: &str) -> Result<AstNode, SyntaxError> {
    Parser::new(tokenize(src).unwrap()).parse()
}

#[test]
fn parses_function_definition() {
    let ast = parse_text("def test(x, y):\n    x + y").unwrap();
    assert!(matches!(ast.node_type, AstNodeType::Program));
    match &ast.children[0].node_type {
        AstNodeType::FunctionDef(name, params, body) => {
            assert_eq!(name, "test");
            assert_eq!(params, &vec!["x".to_string(), "y".to_string()]);
            assert!(matches!(body.node_type, AstNodeType::Block));
            assert!(matches!(&body.children[0].node_type, AstNodeType::BinaryOp(op) if op == "+"));
        }
        _ => panic!("Expected function definition"),
    }
}

#[test]
fn additive_operators_chain_to_the_left() {
    let ast = parse_text("1 - 2 + 3").unwrap();
    let e = &ast.children[0];
    assert!(matches!(&e.node_type, AstNodeType::BinaryOp(op) if op == "+"));
    assert!(matches!(&e.children[0].node_type, AstNodeType::BinaryOp(op) if op == "-"));
    assert_eq!(e.children[1].node_type, AstNodeType::Number(Num::from_int(3)));
}

#[test]
fn parentheses_group() {
    let ast = parse_text("1 - (2 + 3)").unwrap();
    let e = &ast.children[0];
    assert!(matches!(&e.children[1].node_type, AstNodeType::BinaryOp(op) if op == "+"));
}

#[test]
fn if_with_else_has_three_children() {
    let ast = parse_text("if 0:\n    1\nelse:\n    2\n").unwrap();
    let stmt = &ast.children[0];
    assert!(matches!(stmt.node_type, AstNodeType::IfStatement));
    assert_eq!(stmt.children.len(), 3);
}

#[test]
fn syntax_errors() {
    assert_eq!(
        parse_text("(1 + 2"),
        Err(SyntaxError::Expected {
            expected: TokenType::Operator(")".to_string()),
            found: TokenType::EOF
        })
    );
    assert_eq!(
        parse_text("+"),
        Err(SyntaxError::Unexpected(TokenType::Operator("+".to_string())))
    );
    assert_eq!(
        parse_text("while x:\n    1"),
        Err(SyntaxError::UnsupportedStatement(TokenType::Keyword("while".to_string())))
    );
    assert_eq!(
        parse_text("def (x):\n    1"),
        Err(SyntaxError::ExpectedName(TokenType::Operator("(".to_string())))
    );
}

#[test]
fn parsing_twice_gives_the_same_tree() {
    let src = "def f(a):\n    a + 1\nif f:\n    'x' + 'y'\n";
    assert_eq!(parse_text(src).unwrap(), parse_text(src).unwrap());
}
