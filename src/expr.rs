use vstd::prelude::*;

use crate::token::{Kind, Token, TokenType};

verus! {

/// An expression tree. Each node owns its children.
#[derive(Debug)]
pub enum Expr {
    Binary(Binary),
    Grouping(Grouping),
    Literal(Literal),
    Unary(Unary),
}

pub type BoxExpr = Box<Expr>;

/// `lhs op rhs`.
#[derive(Debug)]
pub struct Binary {
    pub lhs: BoxExpr,
    pub op: Token,
    pub rhs: BoxExpr,
}

/// `( expr )`.
#[derive(Debug)]
pub struct Grouping {
    pub expr: BoxExpr,
}

/// A value written in the source: a string, a number, `true`, `false` or `nil`.
#[derive(Debug)]
pub struct Literal {
    pub expr: TokenType,
}

/// `op rhs`.
#[derive(Debug)]
pub struct Unary {
    pub op: Token,
    pub rhs: BoxExpr,
}

impl Binary {
    pub fn new(lhs: BoxExpr, op: Token, rhs: BoxExpr) -> (r: Self)
        ensures
            r == (Binary { lhs, op, rhs }),
    {
        Binary { lhs, op, rhs }
    }

    pub fn boxed(lhs: BoxExpr, op: Token, rhs: BoxExpr) -> (r: BoxExpr)
        ensures
            *r == Expr::Binary(Binary { lhs, op, rhs }),
    {
        Box::new(Expr::Binary(Self::new(lhs, op, rhs)))
    }
}

impl Grouping {
    pub fn new(expr: BoxExpr) -> (r: Self)
        ensures
            r == (Grouping { expr }),
    {
        Grouping { expr }
    }

    pub fn boxed(expr: BoxExpr) -> (r: BoxExpr)
        ensures
            *r == Expr::Grouping(Grouping { expr }),
    {
        Box::new(Expr::Grouping(Self::new(expr)))
    }
}

impl Literal {
    pub fn new(expr: TokenType) -> (r: Self)
        ensures
            r == (Literal { expr }),
    {
        Literal { expr }
    }

    pub fn boxed(expr: TokenType) -> (r: BoxExpr)
        ensures
            *r == Expr::Literal(Literal { expr }),
    {
        Box::new(Expr::Literal(Self::new(expr)))
    }
}

impl Unary {
    pub fn new(op: Token, rhs: BoxExpr) -> (r: Self)
        ensures
            r == (Unary { op, rhs }),
    {
        Unary { op, rhs }
    }

    pub fn boxed(op: Token, rhs: BoxExpr) -> (r: BoxExpr)
        ensures
            *r == Expr::Unary(Unary { op, rhs }),
    {
        Box::new(Expr::Unary(Self::new(op, rhs)))
    }
}

pub open spec fn is_value_kind(k: Kind) -> bool {
    k is String || k is Number || k is Bool || k is Nil
}

pub open spec fn is_unary_op(k: Kind) -> bool {
    k is Bang || k is Minus
}

pub open spec fn is_binary_op(k: Kind) -> bool {
    ||| k is BangEqual || k is EqualEqual
    ||| k is Greater || k is GreaterEqual || k is Less || k is LessEqual
    ||| k is Minus || k is Plus
    ||| k is Slash || k is Star
}

/// The grammar level of a binary operator, loosest first: equality,
/// comparison, term, factor.
pub open spec fn op_level(k: Kind) -> nat {
    if k is BangEqual || k is EqualEqual {
        0
    } else if k is Greater || k is GreaterEqual || k is Less || k is LessEqual {
        1
    } else if k is Minus || k is Plus {
        2
    } else {
        3
    }
}

/// How tightly a node binds: its operator's level for a binary node, 4 for a
/// unary node, 5 for a literal or a group.
pub open spec fn tier(e: Expr) -> nat {
    match e {
        Expr::Binary(b) => op_level(b.op.ty@),
        Expr::Unary(_) => 4,
        _ => 5,
    }
}

/// Every literal holds a value, every operator is one its node can have, and
/// precedence is in the tree's shape: a binary node's left operand binds at
/// least as tightly as it does and its right operand more tightly, and a
/// unary operand is unary or tighter.
pub open spec fn well_formed(e: Expr) -> bool
    decreases e,
{
    match e {
        Expr::Literal(l) => is_value_kind(l.expr@),
        Expr::Grouping(g) => well_formed(*g.expr),
        Expr::Unary(u) => is_unary_op(u.op.ty@) && tier(*u.rhs) >= 4 && well_formed(*u.rhs),
        Expr::Binary(b) => {
            &&& is_binary_op(b.op.ty@)
            &&& tier(*b.lhs) >= op_level(b.op.ty@)
            &&& tier(*b.rhs) > op_level(b.op.ty@)
            &&& well_formed(*b.lhs)
            &&& well_formed(*b.rhs)
        },
    }
}

} // verus!
