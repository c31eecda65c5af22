use minilang::lexer::{tokenize, LexError, Lexer, TokenType};
use minilang::number::Num;

fn text(s: &str) -> String {
    s.to_string()
}

#[test]
fn test_tokenize_number() {
    let mut lexer = Lexer::new("42");
    lexer.tokenize().unwrap();
    assert_eq!(lexer.tokens[0], TokenType::Number(Num::from_int(42)));
}

#[test]
fn test_tokenize_identifier() {
    let mut lexer = Lexer::new("variable_name");
    lexer.tokenize().unwrap();
    assert_eq!(lexer.tokens[0], TokenType::Identifier("variable_name".to_string()));
}

#[test]
fn test_tokenize_islamic_symbols() {
    let mut lexer = Lexer::new("﷽ ☪ ۩");
    lexer.tokenize().unwrap();
    assert_eq!(lexer.tokens[0], TokenType::Symbol("﷽".to_string()));
    assert_eq!(lexer.tokens[1], TokenType::Symbol("☪".to_string()));
    assert_eq!(lexer.tokens[2], TokenType::Symbol("۩".to_string()));
}

#[test]
fn number_literal_alone_gives_number_then_eof() {
    assert_eq!(
        tokenize("42").unwrap(),
        vec![TokenType::Number(Num::from_int(42)), TokenType::EOF]
    );
    assert_eq!(
        tokenize("3.25").unwrap(),
        vec![TokenType::Number(Num { num: 325, den: 100 }), TokenType::EOF]
    );
    assert_eq!(
        tokenize("7.").unwrap(),
        vec![TokenType::Number(Num { num: 7, den: 1 }), TokenType::EOF]
    );
}

#[test]
fn identifier_alone_gives_identifier_then_eof() {
    assert_eq!(
        tokenize("counter_2").unwrap(),
        vec![TokenType::Identifier(text("counter_2")), TokenType::EOF]
    );
    assert_eq!(
        tokenize("_x").unwrap(),
        vec![TokenType::Identifier(text("_x")), TokenType::EOF]
    );
}

#[test]
fn keywords_are_recognised() {
    assert_eq!(
        tokenize("if while").unwrap(),
        vec![
            TokenType::Keyword(text("if")),
            TokenType::Keyword(text("while")),
            TokenType::EOF
        ]
    );
}

#[test]
fn operators_strings_and_comments() {
    assert_eq!(
        tokenize("(a + 'hi') # note").unwrap(),
        vec![
            TokenType::Operator(text("(")),
            TokenType::Identifier(text("a")),
            TokenType::Operator(text("+")),
            TokenType::String(text("hi")),
            TokenType::Operator(text(")")),
            TokenType::EOF
        ]
    );
    assert_eq!(
        tokenize("\"a'b\"").unwrap(),
        vec![TokenType::String(text("a'b")), TokenType::EOF]
    );
}

#[test]
fn sibling_line_after_indented_line_gives_one_indent_dedent_pair() {
    let tokens = tokenize("if 1:\n    5\n6").unwrap();
    assert_eq!(
        tokens,
        vec![
            TokenType::Keyword(text("if")),
            TokenType::Number(Num::from_int(1)),
            TokenType::Operator(text(":")),
            TokenType::Newline,
            TokenType::Indent,
            TokenType::Number(Num::from_int(5)),
            TokenType::Newline,
            TokenType::Dedent,
            TokenType::Number(Num::from_int(6)),
            TokenType::EOF
        ]
    );
    let indents = tokens.iter().filter(|t| **t == TokenType::Indent).count();
    let dedents = tokens.iter().filter(|t| **t == TokenType::Dedent).count();
    assert_eq!((indents, dedents), (1, 1));
}

#[test]
fn open_blocks_close_at_end_of_input() {
    let tokens = tokenize("a\n  b\n    c").unwrap();
    let n = tokens.len();
    assert_eq!(tokens[n - 3], TokenType::Dedent);
    assert_eq!(tokens[n - 2], TokenType::Dedent);
    assert_eq!(tokens[n - 1], TokenType::EOF);
}

#[test]
fn lexical_errors() {
    assert_eq!(tokenize("'abc"), Err(LexError::UnterminatedString));
    assert_eq!(tokenize("1.2.3"), Err(LexError::MalformedNumber));
    assert_eq!(tokenize("99999999999999999999"), Err(LexError::NumberOutOfRange));
    assert_eq!(tokenize("a $ b"), Err(LexError::UnexpectedCharacter('$')));
    assert_eq!(tokenize("a\n    b\n  c"), Err(LexError::InconsistentIndentation));
}

#[test]
fn empty_input_is_just_eof() {
    assert_eq!(tokenize("").unwrap(), vec![TokenType::EOF]);
}

#[test]
fn unicode_whitespace_separates_words() {
    assert_eq!(
        tokenize("a\u{A0}b \u{3000}c").unwrap(),
        vec![
            TokenType::Identifier(text("a")),
            TokenType::Identifier(text("b")),
            TokenType::Identifier(text("c")),
            TokenType::EOF
        ]
    );
}
