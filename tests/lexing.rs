use lox::error::{error, report, ErrorKind, LoxError};
use lox::number::Number;
use lox::scanner::scan;
use lox::token::{Token, TokenType};

#[test]
fn punctuation_only_gives_one_token_per_mark() {
    let source = "(){},.-+;*";
    let tokens = scan(source).unwrap();
    assert_eq!(tokens.len(), source.len() + 1);
    let kinds = [
        TokenType::LeftParen,
        TokenType::RightParen,
        TokenType::LeftBrace,
        TokenType::RightBrace,
        TokenType::Comma,
        TokenType::Dot,
        TokenType::Minus,
        TokenType::Plus,
        TokenType::Semicolon,
        TokenType::Star,
    ];
    for (i, kind) in kinds.into_iter().enumerate() {
        assert_eq!(tokens[i].ty, kind);
        assert_eq!(tokens[i].lexeme, source[i..i + 1]);
        assert_eq!(tokens[i].line, 1);
    }
    assert_eq!(tokens[10], Token::new(TokenType::EOF, "".into(), 1));

    let tokens = scan("=!/<>(").unwrap();
    let kinds: Vec<TokenType> = tokens.into_iter().map(|t| t.ty).collect();
    assert_eq!(
        kinds,
        vec![
            TokenType::Equal,
            TokenType::Bang,
            TokenType::Slash,
            TokenType::Less,
            TokenType::Greater,
            TokenType::LeftParen,
            TokenType::EOF,
        ]
    );
}

#[test]
fn hello_world_statement() {
    let tokens = scan("print \"Hello, world!\";").unwrap();
    let kinds: Vec<TokenType> = tokens.iter().map(|t| t.ty.clone()).collect();
    assert_eq!(
        kinds,
        vec![
            TokenType::Print,
            TokenType::String("Hello, world!".into()),
            TokenType::Semicolon,
            TokenType::EOF,
        ]
    );
    assert!(tokens.iter().all(|t| t.line == 1));
}

#[test]
fn two_character_operators_munch() {
    let tokens = scan("!= == <= >= ! = < > /").unwrap();
    let kinds: Vec<TokenType> = tokens.into_iter().map(|t| t.ty).collect();
    assert_eq!(
        kinds,
        vec![
            TokenType::BangEqual,
            TokenType::EqualEqual,
            TokenType::LessEqual,
            TokenType::GreaterEqual,
            TokenType::Bang,
            TokenType::Equal,
            TokenType::Less,
            TokenType::Greater,
            TokenType::Slash,
            TokenType::EOF,
        ]
    );
}

#[test]
fn comment_runs_to_end_of_line() {
    let tokens = scan("1 // two 3\n4").unwrap();
    assert_eq!(tokens.len(), 3);
    assert_eq!(tokens[1].lexeme, "4");
    assert_eq!(tokens[1].line, 2);
    assert_eq!(tokens[2].line, 2);
}

#[test]
fn trailing_dot_is_not_part_of_number() {
    let tokens = scan("12.").unwrap();
    assert_eq!(tokens[0].ty, TokenType::Number(Number::parse("12").unwrap()));
    assert_eq!(tokens[0].lexeme, "12");
    assert_eq!(tokens[1].ty, TokenType::Dot);
    let tokens = scan("1.5.2").unwrap();
    assert_eq!(tokens[0].lexeme, "1.5");
    assert_eq!(tokens[1].ty, TokenType::Dot);
    assert_eq!(tokens[2].lexeme, "2");
}

#[test]
fn multi_line_string_ends_on_its_last_line() {
    let tokens = scan("\"a\nb\" x").unwrap();
    assert_eq!(tokens[0].ty, TokenType::String("a\nb".into()));
    assert_eq!(tokens[0].line, 2);
    assert_eq!(tokens[1].line, 2);
}

#[test]
fn unterminated_string_reports_its_first_line() {
    let err = scan("1;\n\"never\nclosed\n").unwrap_err();
    assert_eq!(err.kind, ErrorKind::UnterminatedString);
    assert_eq!(err.line, 2);
    assert_eq!(err.message, "Unterminated string.");
}

#[test]
fn unexpected_character_reports_its_line() {
    let err = scan("1\n2\n  @ 3").unwrap_err();
    assert_eq!(err.kind, ErrorKind::UnexpectedCharacter);
    assert_eq!(err.line, 3);
    assert_eq!(err.message, "Unexpected character.");
}

#[test]
fn nil_is_not_reserved() {
    let tokens = scan("nil").unwrap();
    assert_eq!(tokens[0].ty, TokenType::Identifier("nil".into()));
}

#[test]
fn lines_never_decrease_and_end_with_eof() {
    let tokens = scan("a\n\n b \"c\nd\" // e\n f").unwrap();
    for w in tokens.windows(2) {
        assert!(w[0].line <= w[1].line);
    }
    assert_eq!(tokens.last().unwrap().ty, TokenType::EOF);
    assert_eq!(tokens.iter().filter(|t| t.ty == TokenType::EOF).count(), 1);
}

#[test]
fn number_values() {
    let a = Number::parse("007.500").unwrap();
    assert_eq!(a.canonical_text(), "7.5");
    assert_eq!(Number::parse("120").unwrap().canonical_text(), "120");
    assert_eq!(Number::parse("3.000").unwrap().canonical_text(), "3");
    assert!(a.same_value(&Number::parse("7.5").unwrap()));
    assert!(!a.same_value(&Number::parse("75").unwrap()));
    assert!(Number::parse("1.").is_none());
    assert!(Number::parse(".5").is_none());
    assert!(Number::parse("").is_none());
    assert!(Number::parse("1a").is_none());
    assert!(Number::parse("1.2.3").is_none());
}

#[test]
fn token_type_equality_and_truthiness() {
    assert!(TokenType::Nil.is_equal(&TokenType::Nil));
    assert!(!TokenType::Nil.is_equal(&TokenType::Bool(false)));
    assert!(!TokenType::Number(Number::parse("0").unwrap()).is_equal(&TokenType::Bool(false)));
    assert!(TokenType::String("x".into()).is_equal(&TokenType::String("x".into())));
    assert!(!TokenType::Nil.is_truthy());
    assert!(!TokenType::Bool(false).is_truthy());
    assert!(TokenType::Number(Number::parse("0").unwrap()).is_truthy());
    assert!(TokenType::Number(Number::parse("1").unwrap()).is_literal());
    assert!(!TokenType::Plus.is_literal());
}

#[test]
fn diagnostics_are_line_tagged() {
    assert_eq!(error(12, "Unexpected character."), "[line 12] Error: Unexpected character.");
    assert_eq!(report(3, " at ')'", "Expect expression."), "[line 3] Error at ')': Expect expression.");
    let e = LoxError::new(ErrorKind::TypeError, 0, "bad");
    assert_eq!(e.report(), "[line 0] Error: bad");
}

#[test]
fn errors_after_text_that_scans_keep_their_line() {
    let err = scan("a = 1;\nb // c\n\"open\nand on\nand on").unwrap_err();
    assert_eq!(err.kind, ErrorKind::UnterminatedString);
    assert_eq!(err.line, 3);
    let err = scan("x\n\ny @ \"z\n\"").unwrap_err();
    assert_eq!(err.kind, ErrorKind::UnexpectedCharacter);
    assert_eq!(err.line, 3);
    assert_eq!(err.report(), "[line 3] Error: Unexpected character.");
}
