use vstd::prelude::*;

use crate::number::{canonical, Number};

verus! {

/// What a token is, with the value carried by literal kinds.
#[derive(Debug, PartialEq)]
pub enum TokenType {
    // Single-character tokens.
    LeftParen,
    RightParen,
    LeftBrace,
    RightBrace,
    Comma,
    Dot,
    Semicolon,
    Minus,
    Plus,
    Slash,
    Star,
    // One or two character tokens.
    Bang,
    BangEqual,
    Equal,
    EqualEqual,
    Greater,
    GreaterEqual,
    Less,
    LessEqual,
    // Literals.
    Identifier(String),
    String(String),
    Number(Number),
    Bool(bool),
    Nil,
    // Keywords.
    And,
    Or,
    True,
    False,
    Class,
    Super,
    This,
    Var,
    Fun,
    Return,
    If,
    Else,
    While,
    For,
    Print,
    EOF,
}

impl Clone for TokenType {
    fn clone(&self) -> (r: Self)
        ensures
            r == *self,
    {
        match self {
            TokenType::LeftParen => TokenType::LeftParen,
            TokenType::RightParen => TokenType::RightParen,
            TokenType::LeftBrace => TokenType::LeftBrace,
            TokenType::RightBrace => TokenType::RightBrace,
            TokenType::Comma => TokenType::Comma,
            TokenType::Dot => TokenType::Dot,
            TokenType::Semicolon => TokenType::Semicolon,
            TokenType::Minus => TokenType::Minus,
            TokenType::Plus => TokenType::Plus,
            TokenType::Slash => TokenType::Slash,
            TokenType::Star => TokenType::Star,
            TokenType::Bang => TokenType::Bang,
            TokenType::BangEqual => TokenType::BangEqual,
            TokenType::Equal => TokenType::Equal,
            TokenType::EqualEqual => TokenType::EqualEqual,
            TokenType::Greater => TokenType::Greater,
            TokenType::GreaterEqual => TokenType::GreaterEqual,
            TokenType::Less => TokenType::Less,
            TokenType::LessEqual => TokenType::LessEqual,
            TokenType::Identifier(v) => TokenType::Identifier(v.clone()),
            TokenType::String(v) => TokenType::String(v.clone()),
            TokenType::Number(v) => TokenType::Number(v.clone()),
            TokenType::Bool(v) => TokenType::Bool(*v),
            TokenType::Nil => TokenType::Nil,
            TokenType::And => TokenType::And,
            TokenType::Or => TokenType::Or,
            TokenType::True => TokenType::True,
            TokenType::False => TokenType::False,
            TokenType::Class => TokenType::Class,
            TokenType::Super => TokenType::Super,
            TokenType::This => TokenType::This,
            TokenType::Var => TokenType::Var,
            TokenType::Fun => TokenType::Fun,
            TokenType::Return => TokenType::Return,
            TokenType::If => TokenType::If,
            TokenType::Else => TokenType::Else,
            TokenType::While => TokenType::While,
            TokenType::For => TokenType::For,
            TokenType::Print => TokenType::Print,
            TokenType::EOF => TokenType::EOF,
        }
    }
}

/// The mathematical model of a `TokenType`: the same variants, with text payloads
/// as character sequences.
pub ghost enum Kind {
    LeftParen,
    RightParen,
    LeftBrace,
    RightBrace,
    Comma,
    Dot,
    Semicolon,
    Minus,
    Plus,
    Slash,
    Star,
    Bang,
    BangEqual,
    Equal,
    EqualEqual,
    Greater,
    GreaterEqual,
    Less,
    LessEqual,
    Identifier(Seq<char>),
    String(Seq<char>),
    Number(Seq<char>),
    Bool(bool),
    Nil,
    And,
    Or,
    True,
    False,
    Class,
    Super,
    This,
    Var,
    Fun,
    Return,
    If,
    Else,
    While,
    For,
    Print,
    EOF,
}

impl View for TokenType {
    type V = Kind;

    open spec fn view(&self) -> Kind {
        match self {
            TokenType::LeftParen => Kind::LeftParen,
            TokenType::RightParen => Kind::RightParen,
            TokenType::LeftBrace => Kind::LeftBrace,
            TokenType::RightBrace => Kind::RightBrace,
            TokenType::Comma => Kind::Comma,
            TokenType::Dot => Kind::Dot,
            TokenType::Semicolon => Kind::Semicolon,
            TokenType::Minus => Kind::Minus,
            TokenType::Plus => Kind::Plus,
            TokenType::Slash => Kind::Slash,
            TokenType::Star => Kind::Star,
            TokenType::Bang => Kind::Bang,
            TokenType::BangEqual => Kind::BangEqual,
            TokenType::Equal => Kind::Equal,
            TokenType::EqualEqual => Kind::EqualEqual,
            TokenType::Greater => Kind::Greater,
            TokenType::GreaterEqual => Kind::GreaterEqual,
            TokenType::Less => Kind::Less,
            TokenType::LessEqual => Kind::LessEqual,
            TokenType::Identifier(s) => Kind::Identifier(s@),
            TokenType::String(s) => Kind::String(s@),
            TokenType::Number(n) => Kind::Number(n@),
            TokenType::Bool(b) => Kind::Bool(*b),
            TokenType::Nil => Kind::Nil,
            TokenType::And => Kind::And,
            TokenType::Or => Kind::Or,
            TokenType::True => Kind::True,
            TokenType::False => Kind::False,
            TokenType::Class => Kind::Class,
            TokenType::Super => Kind::Super,
            TokenType::This => Kind::This,
            TokenType::Var => Kind::Var,
            TokenType::Fun => Kind::Fun,
            TokenType::Return => Kind::Return,
            TokenType::If => Kind::If,
            TokenType::Else => Kind::Else,
            TokenType::While => Kind::While,
            TokenType::For => Kind::For,
            TokenType::Print => Kind::Print,
            TokenType::EOF => Kind::EOF,
        }
    }
}

/// How a token kind is written: its symbol or keyword, the text of an
/// identifier or string, a number in its shortest decimal form.
pub open spec fn kind_text(k: Kind) -> Seq<char> {
    match k {
        Kind::LeftParen => "("@,
        Kind::RightParen => ")"@,
        Kind::LeftBrace => "{"@,
        Kind::RightBrace => "}"@,
        Kind::Comma => ","@,
        Kind::Dot => "."@,
        Kind::Semicolon => ";"@,
        Kind::Minus => "-"@,
        Kind::Plus => "+"@,
        Kind::Slash => "/"@,
        Kind::Star => "*"@,
        Kind::Bang => "!"@,
        Kind::BangEqual => "!="@,
        Kind::Equal => "="@,
        Kind::EqualEqual => "=="@,
        Kind::Greater => ">"@,
        Kind::GreaterEqual => ">="@,
        Kind::Less => "<"@,
        Kind::LessEqual => "<="@,
        Kind::Identifier(s) => s,
        Kind::String(s) => s,
        Kind::Number(t) => canonical(t),
        Kind::Bool(b) => if b {
            "true"@
        } else {
            "false"@
        },
        Kind::Nil => "nil"@,
        Kind::And => "and"@,
        Kind::Or => "or"@,
        Kind::True => "true"@,
        Kind::False => "false"@,
        Kind::Class => "class"@,
        Kind::Super => "super"@,
        Kind::This => "this"@,
        Kind::Var => "var"@,
        Kind::Fun => "fun"@,
        Kind::Return => "return"@,
        Kind::If => "if"@,
        Kind::Else => "else"@,
        Kind::While => "while"@,
        Kind::For => "for"@,
        Kind::Print => "print"@,
        Kind::EOF => "EOF"@,
    }
}

/// Two kinds are the same, payloads included, with numbers compared by value.
pub open spec fn same_kind(a: Kind, b: Kind) -> bool {
    match (a, b) {
        (Kind::Number(m), Kind::Number(n)) => crate::number::same_value(m, n),
        _ => a == b,
    }
}

/// Only `nil` and `false` are falsy.
pub open spec fn truthy(k: Kind) -> bool {
    match k {
        Kind::Bool(b) => b,
        Kind::Nil => false,
        _ => true,
    }
}

/// Equality of literal values: `nil` equals only `nil`, values of different
/// types are never equal, and values of one type compare by value.
pub open spec fn equal_values(a: Kind, b: Kind) -> bool {
    match (a, b) {
        (Kind::Nil, Kind::Nil) => true,
        (Kind::String(s), Kind::String(t)) => s == t,
        (Kind::Number(m), Kind::Number(n)) => crate::number::same_value(m, n),
        (Kind::Bool(p), Kind::Bool(q)) => p == q,
        _ => false,
    }
}

impl TokenType {
    /// Kinds that carry a literal value read from the source.
    pub fn is_literal(&self) -> (r: bool)
        ensures
            r == (self@ is String || self@ is Number),
    {
        match self {
            TokenType::String(_) | TokenType::Number(_) => true,
            _ => false,
        }
    }

    pub fn is_truthy(&self) -> (r: bool)
        ensures
            r == truthy(self@),
    {
        match self {
            TokenType::Bool(b) => *b,
            TokenType::Nil => false,
            _ => true,
        }
    }

    pub fn is_equal(&self, other: &Self) -> (r: bool)
        ensures
            r == equal_values(self@, other@),
    {
        match (self, other) {
            (TokenType::Nil, TokenType::Nil) => true,
            (TokenType::String(s), TokenType::String(u)) => s.eq(u),
            (TokenType::Number(l), TokenType::Number(r)) => l.same_value(r),
            (TokenType::Bool(l), TokenType::Bool(r)) => *l == *r,
            _ => false,
        }
    }
    /// Whether two token kinds are the same, payloads included; numbers
    /// compare by value.
    pub fn same_kind(&self, other: &TokenType) -> (r: bool)
        ensures
            r == same_kind(self@, other@),
    {
        match (self, other) {
            (TokenType::Identifier(a), TokenType::Identifier(b)) => a.eq(b),
            (TokenType::String(a), TokenType::String(b)) => a.eq(b),
            (TokenType::Number(a), TokenType::Number(b)) => a.same_value(b),
            (TokenType::Bool(a), TokenType::Bool(b)) => *a == *b,
            (TokenType::LeftParen, TokenType::LeftParen) => true,
            (TokenType::RightParen, TokenType::RightParen) => true,
            (TokenType::LeftBrace, TokenType::LeftBrace) => true,
            (TokenType::RightBrace, TokenType::RightBrace) => true,
            (TokenType::Comma, TokenType::Comma) => true,
            (TokenType::Dot, TokenType::Dot) => true,
            (TokenType::Semicolon, TokenType::Semicolon) => true,
            (TokenType::Minus, TokenType::Minus) => true,
            (TokenType::Plus, TokenType::Plus) => true,
            (TokenType::Slash, TokenType::Slash) => true,
            (TokenType::Star, TokenType::Star) => true,
            (TokenType::Bang, TokenType::Bang) => true,
            (TokenType::BangEqual, TokenType::BangEqual) => true,
            (TokenType::Equal, TokenType::Equal) => true,
            (TokenType::EqualEqual, TokenType::EqualEqual) => true,
            (TokenType::Greater, TokenType::Greater) => true,
            (TokenType::GreaterEqual, TokenType::GreaterEqual) => true,
            (TokenType::Less, TokenType::Less) => true,
            (TokenType::LessEqual, TokenType::LessEqual) => true,
            (TokenType::Nil, TokenType::Nil) => true,
            (TokenType::And, TokenType::And) => true,
            (TokenType::Or, TokenType::Or) => true,
            (TokenType::True, TokenType::True) => true,
            (TokenType::False, TokenType::False) => true,
            (TokenType::Class, TokenType::Class) => true,
            (TokenType::Super, TokenType::Super) => true,
            (TokenType::This, TokenType::This) => true,
            (TokenType::Var, TokenType::Var) => true,
            (TokenType::Fun, TokenType::Fun) => true,
            (TokenType::Return, TokenType::Return) => true,
            (TokenType::If, TokenType::If) => true,
            (TokenType::Else, TokenType::Else) => true,
            (TokenType::While, TokenType::While) => true,
            (TokenType::For, TokenType::For) => true,
            (TokenType::Print, TokenType::Print) => true,
            (TokenType::EOF, TokenType::EOF) => true,
            _ => false,
        }
    }

    pub fn to_string(&self) -> (r: String)
        ensures
            r@ == kind_text(self@),
    {
        match self {
            TokenType::LeftParen => String::from_str("("),
            TokenType::RightParen => String::from_str(")"),
            TokenType::LeftBrace => String::from_str("{"),
            TokenType::RightBrace => String::from_str("}"),
            TokenType::Comma => String::from_str(","),
            TokenType::Dot => String::from_str("."),
            TokenType::Semicolon => String::from_str(";"),
            TokenType::Minus => String::from_str("-"),
            TokenType::Plus => String::from_str("+"),
            TokenType::Slash => String::from_str("/"),
            TokenType::Star => String::from_str("*"),
            TokenType::Bang => String::from_str("!"),
            TokenType::BangEqual => String::from_str("!="),
            TokenType::Equal => String::from_str("="),
            TokenType::EqualEqual => String::from_str("=="),
            TokenType::Greater => String::from_str(">"),
            TokenType::GreaterEqual => String::from_str(">="),
            TokenType::Less => String::from_str("<"),
            TokenType::LessEqual => String::from_str("<="),
            TokenType::Identifier(s) => s.clone(),
            TokenType::String(s) => s.clone(),
            TokenType::Number(n) => n.canonical_text(),
            TokenType::Bool(b) => String::from_str(if *b {
                "true"
            } else {
                "false"
            }),
            TokenType::Nil => String::from_str("nil"),
            TokenType::And => String::from_str("and"),
            TokenType::Or => String::from_str("or"),
            TokenType::True => String::from_str("true"),
            TokenType::False => String::from_str("false"),
            TokenType::Class => String::from_str("class"),
            TokenType::Super => String::from_str("super"),
            TokenType::This => String::from_str("this"),
            TokenType::Var => String::from_str("var"),
            TokenType::Fun => String::from_str("fun"),
            TokenType::Return => String::from_str("return"),
            TokenType::If => String::from_str("if"),
            TokenType::Else => String::from_str("else"),
            TokenType::While => String::from_str("while"),
            TokenType::For => String::from_str("for"),
            TokenType::Print => String::from_str("print"),
            TokenType::EOF => String::from_str("EOF"),
        }
    }
}

/// The model of a token: its kind, its lexeme and its line.
pub ghost struct TokenView {
    pub kind: Kind,
    pub lexeme: Seq<char>,
    pub line: nat,
}

#[derive(Debug, PartialEq)]
pub struct Token {
    pub ty: TokenType,
    pub lexeme: String,
    pub line: usize,
}

impl View for Token {
    type V = TokenView;

    open spec fn view(&self) -> TokenView {
        TokenView { kind: self.ty@, lexeme: self.lexeme@, line: self.line as nat }
    }
}

impl Clone for Token {
    fn clone(&self) -> (r: Self)
        ensures
            r == *self,
    {
        Token { ty: self.ty.clone(), lexeme: self.lexeme.clone(), line: self.line }
    }
}

impl Token {
    /// A token is written as its lexeme.
    pub fn to_string(&self) -> (r: String)
        ensures
            r@ == self.lexeme@,
    {
        self.lexeme.clone()
    }

    pub fn new(ty: TokenType, lexeme: String, line: usize) -> (r: Self)
        ensures
            r.ty == ty,
            r.lexeme == lexeme,
            r.line == line,
    {
        Token { ty, lexeme, line }
    }
}

} // verus!
