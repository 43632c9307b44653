use lox::expr::{Binary, Grouping, Literal, Unary};
use lox::number::Number;
use lox::token::{Token, TokenType};

fn num(text: &str) -> Number {
    Number::parse(text).unwrap()
}

#[test]
fn print_test_print() {
    let expr = Binary::new(
        Unary::boxed(
            Token::new(TokenType::Minus, "-".into(), 1),
            Literal::boxed(TokenType::Number(num("123.0"))),
        ),
        Token::new(TokenType::Star, "*".into(), 1),
        Grouping::boxed(Literal::boxed(TokenType::Number(num("45.67")))),
    );

    assert_eq!(expr.to_string(), "(* (- 123) (group 45.67))");
}

#[test]
fn print_parsed_negative_product() {
    let expr = lox::run("-123 * (45.67)").unwrap();
    assert_eq!(expr.to_string(), "(* (- 123) (group 45.67))");
}

#[test]
fn print_literals() {
    assert_eq!(Literal::new(TokenType::Bool(true)).to_string(), "true");
    assert_eq!(Literal::new(TokenType::Bool(false)).to_string(), "false");
    assert_eq!(Literal::new(TokenType::Nil).to_string(), "nil");
    assert_eq!(Literal::new(TokenType::String("hi there".into())).to_string(), "hi there");
    assert_eq!(Literal::new(TokenType::Number(num("007.250"))).to_string(), "7.25");
    assert_eq!(Literal::new(TokenType::Number(num("0.0"))).to_string(), "0");
}

#[test]
fn print_grouping_and_unary() {
    let g = Grouping::new(Unary::boxed(
        Token::new(TokenType::Bang, "!".into(), 1),
        Literal::boxed(TokenType::Bool(false)),
    ));
    assert_eq!(g.to_string(), "(group (! false))");
}
