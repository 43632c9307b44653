use vstd::prelude::*;

use crate::error::{ErrorKind, ErrorView, LoxError};
use crate::expr::{op_level, tier, well_formed, Binary, Expr, Grouping, Literal, Unary};
use crate::token::{same_kind, Kind, Token, TokenType};

verus! {

// The grammar, from the loosest level to the tightest:
//
// expression     → equality ;
// equality       → comparison ( ( "!=" | "==" ) comparison )* ;
// comparison     → term ( ( ">" | ">=" | "<" | "<=" ) term )* ;
// term           → factor ( ( "-" | "+" ) factor )* ;
// factor         → unary ( ( "/" | "*" ) unary )* ;
// unary          → ( "!" | "-" ) unary | primary ;
// primary        → NUMBER | STRING | "true" | "false" | "nil" | "(" expression ")" ;
//
// Levels 0 to 3 are the binary levels, 4 is unary and 5 is primary.

pub open spec fn kind_at(ts: Seq<Token>, p: int) -> Kind {
    if 0 <= p < ts.len() {
        ts[p].ty@
    } else {
        Kind::EOF
    }
}

/// The line of the token at `p`; past the end, that of the last token.
pub open spec fn line_at(ts: Seq<Token>, p: int) -> nat {
    if 0 <= p < ts.len() {
        ts[p].line as nat
    } else if ts.len() > 0 {
        ts.last().line as nat
    } else {
        1
    }
}

/// The operators of a binary level.
pub open spec fn level_op(level: nat, k: Kind) -> bool {
    if level == 0 {
        k is BangEqual || k is EqualEqual
    } else if level == 1 {
        k is Greater || k is GreaterEqual || k is Less || k is LessEqual
    } else if level == 2 {
        k is Minus || k is Plus
    } else if level == 3 {
        k is Slash || k is Star
    } else {
        false
    }
}

/// Where in its line the token at `p` stands: ` at end` for the end, else
/// ` at '<lexeme>'`.
pub open spec fn location_at(ts: Seq<Token>, p: int) -> Seq<char> {
    if kind_at(ts, p) is EOF {
        " at end"@
    } else {
        " at '"@ + ts[p].lexeme@ + "'"@
    }
}

/// An error of `kind` at the token at `p`.
pub open spec fn error_at(ts: Seq<Token>, p: int, kind: ErrorKind, message: Seq<char>) -> ErrorView {
    ErrorView { kind, line: line_at(ts, p), location: location_at(ts, p), message }
}

pub open spec fn expected_paren(ts: Seq<Token>, p: int) -> ErrorView {
    error_at(ts, p, ErrorKind::ExpectedToken, "Expect ')' after expression."@)
}

pub open spec fn expected_expression(ts: Seq<Token>, p: int) -> ErrorView {
    error_at(ts, p, ErrorKind::UnexpectedExpression, "Expect expression."@)
}

pub open spec fn binary_node(l: Expr, op: Token, r: Expr) -> Expr {
    Expr::Binary(Binary { lhs: Box::new(l), op, rhs: Box::new(r) })
}

/// The expression of grammar level `level` that starts at `p`, with the
/// position after it.
pub open spec fn parse_level(ts: Seq<Token>, p: int, level: nat) -> Result<(Expr, int), ErrorView>
    decreases ts.len() - p, 6 - level,
{
    if p < 0 || p > ts.len() || level > 5 {
        Err(expected_expression(ts, p))
    } else if level < 4 {
        match parse_level(ts, p, level + 1) {
            Ok((l, q)) => if p < q <= ts.len() {
                fold_level(ts, q, level, l)
            } else {
                Ok((l, q))
            },
            Err(e) => Err(e),
        }
    } else if level == 4 {
        if kind_at(ts, p) is Bang || kind_at(ts, p) is Minus {
            match parse_level(ts, p + 1, 4) {
                Ok((r, q)) => Ok((Expr::Unary(Unary { op: ts[p], rhs: Box::new(r) }), q)),
                Err(e) => Err(e),
            }
        } else {
            parse_level(ts, p, 5)
        }
    } else {
        let k = kind_at(ts, p);
        if k is False {
            Ok((Expr::Literal(Literal { expr: TokenType::Bool(false) }), p + 1))
        } else if k is True {
            Ok((Expr::Literal(Literal { expr: TokenType::Bool(true) }), p + 1))
        } else if k is Nil {
            Ok((Expr::Literal(Literal { expr: TokenType::Nil }), p + 1))
        } else if k is String || k is Number {
            Ok((Expr::Literal(Literal { expr: ts[p].ty }), p + 1))
        } else if k is LeftParen {
            match parse_level(ts, p + 1, 0) {
                Ok((e, q)) => if kind_at(ts, q) is RightParen {
                    Ok((Expr::Grouping(Grouping { expr: Box::new(e) }), q + 1))
                } else {
                    Err(expected_paren(ts, q))
                },
                Err(e) => Err(e),
            }
        } else {
            Err(expected_expression(ts, p))
        }
    }
}

/// Folds `left` with the operators of `level` and their right operands from
/// `p` on, to the left.
pub open spec fn fold_level(ts: Seq<Token>, p: int, level: nat, left: Expr) -> Result<
    (Expr, int),
    ErrorView,
>
    decreases ts.len() - p, 0nat,
{
    if 0 <= p < ts.len() && level < 4 && level_op(level, kind_at(ts, p)) {
        match parse_level(ts, p + 1, level + 1) {
            Ok((r, q)) => if p < q <= ts.len() {
                fold_level(ts, q, level, binary_node(left, ts[p], r))
            } else {
                Ok((binary_node(left, ts[p], r), q))
            },
            Err(e) => Err(e),
        }
    } else {
        Ok((left, p))
    }
}

/// The expression at the start of `ts`.
pub open spec fn parse_spec(ts: Seq<Token>) -> Result<Expr, ErrorView> {
    match parse_level(ts, 0, 0) {
        Ok((e, _)) => Ok(e),
        Err(e) => Err(e),
    }
}

pub open spec fn parse_result_view(r: Result<Expr, LoxError>) -> Result<Expr, ErrorView> {
    match r {
        Ok(e) => Ok(e),
        Err(e) => Err(e@),
    }
}

/// An executable result agrees with the grammar's: the same tree and the
/// parser left after it, or the same error.
pub open spec fn agrees(r: Result<Expr, LoxError>, spec: Result<(Expr, int), ErrorView>, pos: int) -> bool {
    match spec {
        Ok((e, q)) => r is Ok && r->Ok_0 == e && pos == q,
        Err(ev) => r is Err && r->Err_0@ == ev,
    }
}

/// The kinds that begin a statement.
pub open spec fn starts_statement(k: Kind) -> bool {
    k is Class || k is Fun || k is Var || k is For || k is If || k is While || k is Print
        || k is Return
}

/// Where recovery stops, scanning from `p`: just past a `;`, before a token
/// that begins a statement, or at the end.
pub open spec fn sync_from(ts: Seq<Token>, p: int) -> int
    decreases ts.len() - p,
{
    if p < 0 || p >= ts.len() || kind_at(ts, p) is EOF {
        p
    } else if kind_at(ts, p - 1) is Semicolon || starts_statement(kind_at(ts, p)) {
        p
    } else {
        sync_from(ts, p + 1)
    }
}

proof fn lemma_level_shape(ts: Seq<Token>, p: int, level: nat)
    requires
        0 <= p <= ts.len(),
        level <= 5,
    ensures
        parse_level(ts, p, level) matches Ok((e, q)) ==> {
            &&& well_formed(e)
            &&& tier(e) >= level
            &&& p < q <= ts.len()
        },
    decreases ts.len() - p, 6 - level,
{
    if level < 4 {
        lemma_level_shape(ts, p, level + 1);
        if let Ok((l, q)) = parse_level(ts, p, level + 1) {
            lemma_fold_shape(ts, q, level, l);
        }
    } else if level == 4 {
        if kind_at(ts, p) is Bang || kind_at(ts, p) is Minus {
            lemma_level_shape(ts, p + 1, 4);
        } else {
            lemma_level_shape(ts, p, 5);
        }
    } else {
        if kind_at(ts, p) is LeftParen {
            lemma_level_shape(ts, p + 1, 0);
        }
    }
}

proof fn lemma_fold_shape(ts: Seq<Token>, p: int, level: nat, left: Expr)
    requires
        0 <= p <= ts.len(),
        level < 4,
        well_formed(left),
        tier(left) >= level,
    ensures
        fold_level(ts, p, level, left) matches Ok((e, q)) ==> {
            &&& well_formed(e)
            &&& tier(e) >= level
            &&& p <= q <= ts.len()
        },
    decreases ts.len() - p, 0nat,
{
    if 0 <= p < ts.len() && level_op(level, kind_at(ts, p)) {
        lemma_level_shape(ts, p + 1, level + 1);
        if let Ok((r, q)) = parse_level(ts, p + 1, level + 1) {
            let node = binary_node(left, ts[p], r);
            assert(op_level(ts[p].ty@) == level);
            assert(well_formed(node));
            lemma_fold_shape(ts, q, level, node);
        }
    }
}

/// Every tree the parser builds is well formed: its operators are those of
/// the grammar level they stand at, and precedence is in its shape.
pub proof fn lemma_parse_well_formed(ts: Seq<Token>)
    ensures
        parse_spec(ts) matches Ok(e) ==> well_formed(e),
{
    lemma_level_shape(ts, 0, 0);
}

/// Reads one expression from a token sequence.
pub struct Parser<'a> {
    tokens: &'a Vec<Token>,
    current: usize,
}

impl<'a> Parser<'a> {
    pub closed spec fn tokens(&self) -> Seq<Token> {
        self.tokens@
    }

    pub closed spec fn position(&self) -> int {
        self.current as int
    }

    /// Both parsers read the very same token sequence.
    pub closed spec fn same_tokens(&self, other: Self) -> bool {
        self.tokens == other.tokens
    }

    pub closed spec fn wf(&self) -> bool {
        self.current <= self.tokens@.len()
    }

    pub fn new(tokens: &'a Vec<Token>) -> (r: Self)
        ensures
            r.wf(),
            r.tokens() == tokens@,
            r.position() == 0,
    {
        Parser { tokens, current: 0 }
    }

    fn is_at_end(&self) -> (r: bool)
        requires
            self.wf(),
        ensures
            r == (kind_at(self.tokens@, self.current as int) is EOF),
    {
        if self.current >= self.tokens.len() {
            true
        } else {
            match self.tokens[self.current].ty {
                TokenType::EOF => true,
                _ => false,
            }
        }
    }

    fn advance(&mut self)
        requires
            old(self).wf(),
        ensures
            final(self).wf(),
            final(self).tokens == old(self).tokens,
            final(self).current == old(self).current + if kind_at(
                old(self).tokens@,
                old(self).current as int,
            ) is EOF {
                0int
            } else {
                1int
            },
    {
        if self.current < self.tokens.len() && !self.is_at_end() {
            self.current = self.current + 1;
        }
    }

    /// Whether the next token is an operator of binary level `level`.
    fn check_level(&self, level: u8) -> (r: bool)
        requires
            self.wf(),
            level < 4,
        ensures
            r == (self.current < self.tokens@.len() && level_op(
                level as nat,
                kind_at(self.tokens@, self.current as int),
            )),
    {
        if self.current >= self.tokens.len() {
            return false;
        }
        match self.tokens[self.current].ty {
            TokenType::BangEqual | TokenType::EqualEqual => level == 0,
            TokenType::Greater | TokenType::GreaterEqual | TokenType::Less
            | TokenType::LessEqual => level == 1,
            TokenType::Minus | TokenType::Plus => level == 2,
            TokenType::Slash | TokenType::Star => level == 3,
            _ => false,
        }
    }

    fn error_here(&self, kind: ErrorKind, message: &str) -> (r: LoxError)
        requires
            self.wf(),
        ensures
            r@ == error_at(self.tokens@, self.current as int, kind, message@),
    {
        let line = if self.current < self.tokens.len() {
            self.tokens[self.current].line
        } else if self.tokens.len() > 0 {
            self.tokens[self.tokens.len() - 1].line
        } else {
            1
        };
        let location = if self.is_at_end() {
            String::from_str(" at end")
        } else {
            let mut l = String::from_str(" at '");
            l.append(self.tokens[self.current].lexeme.as_str());
            l.append("'");
            l
        };
        LoxError::at(kind, line, location, message)
    }

    /// Takes the next token when its kind is `ty`, payload included (numbers
    /// compare by value); otherwise fails with `ExpectedToken`, the given
    /// message and the place of the token found, and leaves the cursor where
    /// it is.
    pub fn consume(&mut self, ty: &TokenType, message: &str) -> (r: Result<Token, LoxError>)
        requires
            old(self).wf(),
        ensures
            final(self).wf(),
            final(self).tokens() == old(self).tokens(),
            final(self).same_tokens(*old(self)),
            ({
                let ts = old(self).tokens();
                let p = old(self).position();
                if !(kind_at(ts, p) is EOF) && same_kind(kind_at(ts, p), ty@) {
                    &&& r is Ok
                    &&& r->Ok_0 == ts[p]
                    &&& final(self).position() == p + 1
                } else {
                    &&& r is Err
                    &&& r->Err_0@ == error_at(ts, p, ErrorKind::ExpectedToken, message@)
                    &&& final(self).position() == p
                }
            }),
    {
        if self.current < self.tokens.len() && !self.is_at_end() && self.tokens[self.current].ty.same_kind(ty) {
            let t = self.tokens[self.current].clone();
            self.advance();
            Ok(t)
        } else {
            Err(self.error_here(ErrorKind::ExpectedToken, message))
        }
    }

    /// Parses one expression from the cursor and leaves the cursor after it.
    pub fn expression(&mut self) -> (r: Result<Expr, LoxError>)
        requires
            old(self).wf(),
        ensures
            final(self).wf(),
            final(self).tokens() == old(self).tokens(),
            agrees(r, parse_level(old(self).tokens(), old(self).position(), 0), final(self).position()),
    {
        self.binary(0)
    }

    /// The operand of binary level `level - 1`.
    fn operand(&mut self, level: u8) -> (r: Result<Expr, LoxError>)
        requires
            old(self).wf(),
            1 <= level <= 4,
        ensures
            final(self).wf(),
            final(self).tokens == old(self).tokens,
            agrees(r, parse_level(old(self).tokens@, old(self).current as int, level as nat), final(self).current as int),
            r is Ok ==> old(self).current < final(self).current,
        decreases old(self).tokens@.len() - old(self).current, 11 - 2 * level,
    {
        if level == 4 {
            self.unary()
        } else {
            self.binary(level)
        }
    }

    /// An expression of binary level `level`: operands of the next level
    /// joined by this level's operators, folded to the left.
    fn binary(&mut self, level: u8) -> (r: Result<Expr, LoxError>)
        requires
            old(self).wf(),
            level < 4,
        ensures
            final(self).wf(),
            final(self).tokens == old(self).tokens,
            agrees(r, parse_level(old(self).tokens@, old(self).current as int, level as nat), final(self).current as int),
            r is Ok ==> old(self).current < final(self).current,
        decreases old(self).tokens@.len() - old(self).current, 10 - 2 * level,
    {
        let ghost ts = self.tokens@;
        let ghost p = self.current as int;
        let mut expr = match self.operand(level + 1) {
            Ok(e) => e,
            Err(e) => {
                return Err(e);
            },
        };
        let ghost q0 = self.current as int;
        let ghost e0 = expr;
        while self.check_level(level)
            invariant
                self.wf(),
                self.tokens == old(self).tokens,
                ts == self.tokens@,
                level < 4,
                0 <= p < q0 <= self.current,
                p == old(self).current,
                parse_level(ts, p, level as nat) == fold_level(ts, q0, level as nat, e0),
                fold_level(ts, q0, level as nat, e0) == fold_level(
                    ts,
                    self.current as int,
                    level as nat,
                    expr,
                ),
            decreases self.tokens@.len() - self.current,
        {
            let op = self.tokens[self.current].clone();
            self.advance();
            let right = match self.operand(level + 1) {
                Ok(e) => e,
                Err(e) => {
                    return Err(e);
                },
            };
            expr = Expr::Binary(Binary { lhs: Box::new(expr), op, rhs: Box::new(right) });
        }
        Ok(expr)
    }

    /// `!` or `-` before a unary expression, or a primary expression.
    fn unary(&mut self) -> (r: Result<Expr, LoxError>)
        requires
            old(self).wf(),
        ensures
            final(self).wf(),
            final(self).tokens == old(self).tokens,
            agrees(r, parse_level(old(self).tokens@, old(self).current as int, 4), final(self).current as int),
            r is Ok ==> old(self).current < final(self).current,
        decreases old(self).tokens@.len() - old(self).current, 2int,
    {
        if self.current < self.tokens.len() {
            match self.tokens[self.current].ty {
                TokenType::Bang | TokenType::Minus => {
                    let op = self.tokens[self.current].clone();
                    self.advance();
                    return match self.unary() {
                        Ok(right) => Ok(Expr::Unary(Unary { op, rhs: Box::new(right) })),
                        Err(e) => Err(e),
                    };
                },
                _ => {},
            }
        }
        self.primary()
    }

    /// A literal or a parenthesized expression.
    fn primary(&mut self) -> (r: Result<Expr, LoxError>)
        requires
            old(self).wf(),
        ensures
            final(self).wf(),
            final(self).tokens == old(self).tokens,
            agrees(r, parse_level(old(self).tokens@, old(self).current as int, 5), final(self).current as int),
            r is Ok ==> old(self).current < final(self).current,
        decreases old(self).tokens@.len() - old(self).current, 1int,
    {
        if self.current >= self.tokens.len() {
            return Err(self.error_here(ErrorKind::UnexpectedExpression, "Expect expression."));
        }
        let literal = match &self.tokens[self.current].ty {
            TokenType::False => Some(TokenType::Bool(false)),
            TokenType::True => Some(TokenType::Bool(true)),
            TokenType::Nil => Some(TokenType::Nil),
            TokenType::String(_) | TokenType::Number(_) => Some(self.tokens[self.current].ty.clone()),
            _ => None,
        };
        if let Some(value) = literal {
            self.advance();
            return Ok(Expr::Literal(Literal { expr: value }));
        }
        match self.tokens[self.current].ty {
            TokenType::LeftParen => {},
            _ => {
                return Err(self.error_here(ErrorKind::UnexpectedExpression, "Expect expression."));
            },
        }
        self.advance();
        let inner = match self.binary(0) {
            Ok(e) => e,
            Err(e) => {
                return Err(e);
            },
        };
        match self.consume(&TokenType::RightParen, "Expect ')' after expression.") {
            Ok(_) => Ok(Expr::Grouping(Grouping { expr: Box::new(inner) })),
            Err(e) => Err(e),
        }
    }

    /// Skips to where a new statement may begin: past the next `;`, or up to
    /// a keyword that starts a statement, or to the end.
    pub fn synchronize(&mut self)
        requires
            old(self).wf(),
        ensures
            final(self).wf(),
            final(self).tokens() == old(self).tokens(),
            final(self).position() == sync_from(
                old(self).tokens(),
                if kind_at(old(self).tokens(), old(self).position()) is EOF {
                    old(self).position()
                } else {
                    old(self).position() + 1
                },
            ),
    {
        self.advance();
        let ghost start = self.current as int;
        while self.current < self.tokens.len() && !self.is_at_end()
            invariant
                self.wf(),
                self.tokens == old(self).tokens,
                start == old(self).current + if kind_at(
                    old(self).tokens@,
                    old(self).current as int,
                ) is EOF {
                    0int
                } else {
                    1int
                },
                sync_from(self.tokens@, start) == sync_from(self.tokens@, self.current as int),
            decreases self.tokens@.len() - self.current,
        {
            let after_semicolon = self.current > 0 && match self.tokens[self.current - 1].ty {
                TokenType::Semicolon => true,
                _ => false,
            };
            if after_semicolon {
                return;
            }
            match self.tokens[self.current].ty {
                TokenType::Class | TokenType::Fun | TokenType::Var | TokenType::For
                | TokenType::If | TokenType::While | TokenType::Print | TokenType::Return => {
                    return;
                },
                _ => {},
            }
            self.advance();
        }
    }
}

/// Parses the expression at the start of a token sequence.
pub fn parse(tokens: &Vec<Token>) -> (r: Result<Expr, LoxError>)
    ensures
        parse_result_view(r) == parse_spec(tokens@),
{
    let mut parser = Parser::new(tokens);
    parser.expression()
}

} // verus!
