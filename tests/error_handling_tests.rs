use minilang::error::Error;

#[test]
fn test_error_display() {
    let syntax_err = Error::Syntax("Test error".to_string());
    assert_eq!(syntax_err.to_text(), "Syntax Error: Test error");
}

#[test]
fn runtime_error_text() {
    assert_eq!(Error::Runtime("boom".to_string()).to_text(), "Runtime: boom");
}
