use lox::error::ErrorKind;
use lox::parser::{parse, Parser};
use lox::scanner::{scan, Scanner};
use lox::token::{Token, TokenType};

fn tokens_of(source: &str) -> Vec<Token> {
    scan(source).unwrap()
}

#[test]
fn test_parse_expr() {
    let source_code = "1 - (2 * 3) < 4 == false";
    let scanner = Scanner::new(source_code);
    let tokens = scanner.scan_tokens().unwrap();

    let mut parser = Parser::new(&tokens);
    let expr = parser.expression().unwrap();
    assert_eq!(expr.to_string(), "(== (< (- 1 (group (* 2 3))) 4) false)");
}

#[test]
fn missing_closing_paren_names_it() {
    let tokens = tokens_of("(1 + 2");
    let err = parse(&tokens).unwrap_err();
    assert_eq!(err.kind, ErrorKind::ExpectedToken);
    assert_eq!(err.line, 1);
    assert!(err.message.contains(')'));
    assert_eq!(err.message, "Expect ')' after expression.");
}

#[test]
fn missing_operand_is_unexpected_expression() {
    let tokens = tokens_of("1 +\n;");
    let err = parse(&tokens).unwrap_err();
    assert_eq!(err.kind, ErrorKind::UnexpectedExpression);
    assert_eq!(err.line, 2);
    assert_eq!(err.message, "Expect expression.");
}

#[test]
fn identifier_is_not_an_expression() {
    let err = parse(&tokens_of("foo")).unwrap_err();
    assert_eq!(err.kind, ErrorKind::UnexpectedExpression);
}

#[test]
fn empty_input_is_unexpected_expression() {
    let err = parse(&tokens_of("")).unwrap_err();
    assert_eq!(err.kind, ErrorKind::UnexpectedExpression);
    assert_eq!(err.line, 1);
}

#[test]
fn operators_fold_to_the_left() {
    let expr = parse(&tokens_of("1 - 2 - 3")).unwrap();
    assert_eq!(expr.to_string(), "(- (- 1 2) 3)");
    let expr = parse(&tokens_of("8 / 4 * 2")).unwrap();
    assert_eq!(expr.to_string(), "(* (/ 8 4) 2)");
}

#[test]
fn factor_binds_tighter_than_term() {
    let expr = parse(&tokens_of("1 + 2 * 3")).unwrap();
    assert_eq!(expr.to_string(), "(+ 1 (* 2 3))");
}

#[test]
fn unary_operators_nest() {
    let expr = parse(&tokens_of("!!true == -1")).unwrap();
    assert_eq!(expr.to_string(), "(== (! (! true)) (- 1))");
}

#[test]
fn literals_parse() {
    let expr = parse(&tokens_of("\"a b\" != 1.50")).unwrap();
    assert_eq!(expr.to_string(), "(!= a b 1.5)");
    let tokens = vec![
        Token::new(TokenType::Nil, "nil".into(), 1),
        Token::new(TokenType::EOF, "".into(), 1),
    ];
    assert_eq!(parse(&tokens).unwrap().to_string(), "nil");
}

#[test]
fn expression_leaves_cursor_after_it() {
    let tokens = tokens_of("1 + 2; 3");
    let mut parser = Parser::new(&tokens);
    assert_eq!(parser.expression().unwrap().to_string(), "(+ 1 2)");
    let err = parser.expression().unwrap_err();
    assert_eq!(err.kind, ErrorKind::UnexpectedExpression);
    parser.synchronize();
    assert_eq!(parser.expression().unwrap().to_string(), "3");
}

#[test]
fn synchronize_stops_before_statement_keyword() {
    let tokens = tokens_of("1 2 3 print 4");
    let mut parser = Parser::new(&tokens);
    parser.synchronize();
    let err = parser.expression().unwrap_err();
    assert_eq!(err.kind, ErrorKind::UnexpectedExpression);
    assert_eq!(err.message, "Expect expression.");
}

#[test]
fn missing_paren_reports_at_end() {
    let err = parse(&tokens_of("(1 + 2")).unwrap_err();
    assert_eq!(err.location, " at end");
    assert_eq!(err.report(), "[line 1] Error at end: Expect ')' after expression.");
}

#[test]
fn unexpected_token_is_named() {
    let err = parse(&tokens_of("1 +\n;")).unwrap_err();
    assert_eq!(err.location, " at ';'");
    assert_eq!(err.report(), "[line 2] Error at ';': Expect expression.");
    let err = parse(&tokens_of("(1 2")).unwrap_err();
    assert_eq!(err.kind, ErrorKind::ExpectedToken);
    assert_eq!(err.location, " at '2'");
}

#[test]
fn consume_takes_only_the_expected_kind() {
    let tokens = tokens_of(") x");
    let mut parser = Parser::new(&tokens);
    let t = parser.consume(&TokenType::RightParen, "Expect ')'.").unwrap();
    assert_eq!(t, Token::new(TokenType::RightParen, ")".into(), 1));
    let err = parser.consume(&TokenType::RightParen, "Expect ')'.").unwrap_err();
    assert_eq!(err.kind, ErrorKind::ExpectedToken);
    assert_eq!(err.message, "Expect ')'.");
    assert_eq!(err.location, " at 'x'");
    let err = parser.consume(&TokenType::Identifier("y".into()), "Expect y.").unwrap_err();
    assert_eq!(err.kind, ErrorKind::ExpectedToken);
    assert_eq!(err.location, " at 'x'");
    let id = parser.consume(&TokenType::Identifier("x".into()), "Expect x.").unwrap();
    assert_eq!(id.lexeme, "x");
    let err = parser.consume(&TokenType::EOF, "Expect end.").unwrap_err();
    assert_eq!(err.location, " at end");
}

#[test]
fn consume_compares_numbers_by_value() {
    let tokens = tokens_of("1.50");
    let mut parser = Parser::new(&tokens);
    let two = TokenType::Number(lox::number::Number::parse("2").unwrap());
    assert_eq!(parser.consume(&two, "Expect 2.").unwrap_err().kind, ErrorKind::ExpectedToken);
    let one_and_a_half = TokenType::Number(lox::number::Number::parse("1.5").unwrap());
    assert_eq!(parser.consume(&one_and_a_half, "Expect 1.5.").unwrap().lexeme, "1.50");
}
