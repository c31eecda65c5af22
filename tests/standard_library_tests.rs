use minilang::builtins::{add, divide, multiply, subtract};
use minilang::number::{ArithError, Num};

fn n(v: i64) -> Num {
    Num::from_int(v)
}

#[test]
fn test_add() {
    assert_eq!(add(n(1), n(2)), Ok(n(3)));
}

#[test]
fn test_subtract() {
    assert_eq!(subtract(n(5), n(3)), Ok(n(2)));
}

#[test]
fn test_multiply() {
    assert_eq!(multiply(n(4), n(3)), Ok(n(12)));
}

#[test]
fn test_divide() {
    assert!(divide(n(10), n(2)).unwrap().same_value(&n(5)));
    assert_eq!(divide(n(10), n(0)), Ok(n(0)));
}

#[test]
fn overflow_is_reported() {
    assert_eq!(add(n(i64::MAX), n(1)), Err(ArithError::Overflow));
}
