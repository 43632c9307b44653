use lox::error::ErrorKind;
use lox::interpret;
use lox::interpreter::{binary, unary, Arith, Comparison, Step, Value};
use lox::number::Number;
use lox::token::{Token, TokenType};

fn op(ty: TokenType, lexeme: &str, line: usize) -> Token {
    Token::new(ty, lexeme.into(), line)
}

fn string(s: &str) -> Value<f64> {
    Value::String(s.into())
}

#[test]
fn strings_concatenate() {
    let r = binary(string("1"), &op(TokenType::Plus, "+", 1), string("2")).unwrap();
    assert_eq!(r, Step::Done(string("12")));
}

#[test]
fn numbers_add() {
    let r = binary(Value::Number(1.0), &op(TokenType::Plus, "+", 1), Value::Number(2.0)).unwrap();
    assert_eq!(r, Step::Arithmetic(Arith::Add, 1.0, 2.0));
    match r {
        Step::Arithmetic(Arith::Add, a, b) => assert_eq!(a + b, 3.0),
        _ => panic!("expected an addition"),
    }
}

#[test]
fn bool_plus_number_is_type_error() {
    let err = binary(Value::Bool(true), &op(TokenType::Plus, "+", 7), Value::Number(1.0)).unwrap_err();
    assert_eq!(err.kind, ErrorKind::TypeError);
    assert_eq!(err.line, 7);
    assert_eq!(err.message, "Operands must be two numbers or two strings.");
}

#[test]
fn string_plus_number_is_type_error() {
    let err = binary(string("a"), &op(TokenType::Plus, "+", 1), Value::Number(1.0)).unwrap_err();
    assert_eq!(err.kind, ErrorKind::TypeError);
}

#[test]
fn arithmetic_needs_numbers() {
    for (ty, lexeme) in [(TokenType::Minus, "-"), (TokenType::Star, "*"), (TokenType::Slash, "/")] {
        let err = binary(string("a"), &op(ty, lexeme, 2), string("b")).unwrap_err();
        assert_eq!(err.kind, ErrorKind::TypeError);
        assert_eq!(err.message, "Operands must be numbers.");
    }
    let r = binary(Value::Number(6.0), &op(TokenType::Slash, "/", 1), Value::Number(0.0)).unwrap();
    assert_eq!(r, Step::Arithmetic(Arith::Divide, 6.0, 0.0));
}

#[test]
fn comparisons_need_numbers() {
    let r = binary(Value::Number(1.0), &op(TokenType::Less, "<", 1), Value::Number(2.0)).unwrap();
    assert_eq!(r, Step::Compare(Comparison::Less, 1.0, 2.0));
    let err = binary(string("a"), &op(TokenType::GreaterEqual, ">=", 3), string("b")).unwrap_err();
    assert_eq!(err.kind, ErrorKind::TypeError);
    assert_eq!(err.line, 3);
}

#[test]
fn nil_equals_nil() {
    let r = binary::<f64>(Value::Nil, &op(TokenType::EqualEqual, "==", 1), Value::Nil).unwrap();
    assert_eq!(r, Step::Done(Value::Bool(true)));
}

#[test]
fn zero_is_not_false() {
    let r = binary(Value::Number(0.0), &op(TokenType::EqualEqual, "==", 1), Value::Bool(false)).unwrap();
    assert_eq!(r, Step::Done(Value::Bool(false)));
    let r = binary(Value::Number(0.0), &op(TokenType::BangEqual, "!=", 1), Value::Bool(false)).unwrap();
    assert_eq!(r, Step::Done(Value::Bool(true)));
}

#[test]
fn one_equals_one_point_zero() {
    let r = binary(Value::Number(1.0), &op(TokenType::EqualEqual, "==", 1), Value::Number(1.0)).unwrap();
    assert_eq!(r, Step::Compare(Comparison::Equal, 1.0, 1.0));
    let one = TokenType::Number(Number::parse("1").unwrap());
    let one_point_zero = TokenType::Number(Number::parse("1.0").unwrap());
    assert!(one.is_equal(&one_point_zero));
}

#[test]
fn equality_of_strings_and_bools() {
    let r = binary::<f64>(string("a"), &op(TokenType::EqualEqual, "==", 1), string("a")).unwrap();
    assert_eq!(r, Step::Done(Value::Bool(true)));
    let r = binary::<f64>(Value::Bool(true), &op(TokenType::EqualEqual, "==", 1), Value::Bool(false)).unwrap();
    assert_eq!(r, Step::Done(Value::Bool(false)));
    let r = binary::<f64>(Value::Nil, &op(TokenType::EqualEqual, "==", 1), Value::Bool(false)).unwrap();
    assert_eq!(r, Step::Done(Value::Bool(false)));
}

#[test]
fn bang_negates_truthiness() {
    let bang = op(TokenType::Bang, "!", 1);
    assert_eq!(unary::<f64>(&bang, Value::Nil).unwrap(), Step::Done(Value::Bool(true)));
    assert_eq!(unary::<f64>(&bang, Value::Bool(false)).unwrap(), Step::Done(Value::Bool(true)));
    assert_eq!(unary(&bang, Value::Number(0.0)).unwrap(), Step::Done(Value::Bool(false)));
    assert_eq!(unary::<f64>(&bang, string("")).unwrap(), Step::Done(Value::Bool(false)));
}

#[test]
fn minus_needs_a_number() {
    let minus = op(TokenType::Minus, "-", 4);
    assert_eq!(unary(&minus, Value::Number(2.5)).unwrap(), Step::Negate(2.5));
    let err = unary::<f64>(&minus, Value::Bool(true)).unwrap_err();
    assert_eq!(err.kind, ErrorKind::TypeError);
    assert_eq!(err.line, 4);
    assert_eq!(err.message, "Operand must be a number.");
}

#[test]
fn value_truthiness() {
    assert!(!Value::<f64>::Nil.is_truthy());
    assert!(!Value::<f64>::Bool(false).is_truthy());
    assert!(Value::Number(0.0).is_truthy());
    assert!(string("").is_truthy());
}

fn number_value(n: Number) -> f64 {
    n.canonical_text().parse().unwrap()
}

fn perform(step: Step<f64>) -> Value<f64> {
    match step {
        Step::Done(value) => value,
        Step::Negate(a) => Value::Number(-a),
        Step::Arithmetic(op, a, b) => Value::Number(match op {
            Arith::Add => a + b,
            Arith::Subtract => a - b,
            Arith::Multiply => a * b,
            Arith::Divide => a / b,
        }),
        Step::Compare(op, a, b) => Value::Bool(match op {
            Comparison::Greater => a > b,
            Comparison::GreaterEqual => a >= b,
            Comparison::Less => a < b,
            Comparison::LessEqual => a <= b,
            Comparison::Equal => a == b,
            Comparison::NotEqual => a != b,
        }),
    }
}

fn eval(source: &str) -> Result<Value<f64>, lox::error::LoxError> {
    interpret(source, &number_value, &perform)
}

#[test]
fn interpret_string_concatenation() {
    assert_eq!(eval("\"1\" + \"2\"").unwrap(), string("12"));
}

#[test]
fn interpret_number_addition() {
    assert_eq!(eval("1 + 2").unwrap(), Value::Number(3.0));
}

#[test]
fn interpret_bool_plus_number_fails() {
    let err = eval("true + 1").unwrap_err();
    assert_eq!(err.kind, ErrorKind::TypeError);
    assert_eq!(err.line, 1);
}

#[test]
fn interpret_equality_is_type_discriminating() {
    assert_eq!(eval("0 == false").unwrap(), Value::Bool(false));
    assert_eq!(eval("1 == 1.0").unwrap(), Value::Bool(true));
    assert_eq!(eval("\"a\" != \"a\"").unwrap(), Value::Bool(false));
}

#[test]
fn interpret_precedence_and_grouping() {
    assert_eq!(eval("1 - (2 * 3) < 4 == false").unwrap(), Value::Bool(false));
    assert_eq!(eval("-123 * (45.67)").unwrap(), Value::Number(-123.0 * 45.67));
    assert_eq!(eval("(1 + 2) * 3 / 4").unwrap(), Value::Number(2.25));
    assert_eq!(eval("!(1 > 2)").unwrap(), Value::Bool(true));
}

#[test]
fn interpret_division_by_zero_is_infinite() {
    assert_eq!(eval("1 / 0").unwrap(), Value::Number(f64::INFINITY));
    match eval("0 / 0").unwrap() {
        Value::Number(n) => assert!(n.is_nan()),
        _ => panic!("expected a number"),
    }
}

#[test]
fn interpret_reports_first_error() {
    let err = eval("\n-\"x\"").unwrap_err();
    assert_eq!(err.kind, ErrorKind::TypeError);
    assert_eq!(err.line, 2);
    assert_eq!(eval("(1").unwrap_err().kind, ErrorKind::ExpectedToken);
    assert_eq!(eval("1 @").unwrap_err().kind, ErrorKind::UnexpectedCharacter);
}
