use vstd::prelude::*;

use crate::error::{ErrorKind, ErrorView, LoxError};
use crate::expr::Expr;
use crate::number::Number;
use crate::token::{Kind, Token, TokenType};

verus! {

// Evaluation rules, over runtime values whose numbers are of any type `N`.
// What the rules decide without looking at numbers is decided here; where the
// answer depends on the numbers themselves, the result says which arithmetic
// or comparison to apply to them.

/// A runtime value.
#[derive(Debug, PartialEq)]
pub enum Value<N> {
    Number(N),
    String(String),
    Bool(bool),
    Nil,
}

pub ghost enum ValueView<N> {
    Number(N),
    String(Seq<char>),
    Bool(bool),
    Nil,
}

impl<N> View for Value<N> {
    type V = ValueView<N>;

    open spec fn view(&self) -> ValueView<N> {
        match self {
            Value::Number(n) => ValueView::Number(*n),
            Value::String(s) => ValueView::String(s@),
            Value::Bool(b) => ValueView::Bool(*b),
            Value::Nil => ValueView::Nil,
        }
    }
}

/// Arithmetic on two numbers, giving a number.
#[derive(Clone, Copy, Debug, PartialEq, Eq, Structural)]
pub enum Arith {
    Add,
    Subtract,
    Multiply,
    Divide,
}

/// A comparison of two numbers, giving a boolean.
#[derive(Clone, Copy, Debug, PartialEq, Eq, Structural)]
pub enum Comparison {
    Greater,
    GreaterEqual,
    Less,
    LessEqual,
    Equal,
    NotEqual,
}

/// What an operator comes to once its operands are known.
#[derive(Debug, PartialEq)]
pub enum Step<N> {
    /// The result, decided by the types and non-numeric values alone.
    Done(Value<N>),
    /// `Number(a op b)`.
    Arithmetic(Arith, N, N),
    /// `Bool(a op b)`.
    Compare(Comparison, N, N),
    /// `Number(-a)`.
    Negate(N),
}

pub ghost enum StepView<N> {
    Done(ValueView<N>),
    Arithmetic(Arith, N, N),
    Compare(Comparison, N, N),
    Negate(N),
}

impl<N> View for Step<N> {
    type V = StepView<N>;

    open spec fn view(&self) -> StepView<N> {
        match self {
            Step::Done(v) => StepView::Done(v@),
            Step::Arithmetic(op, a, b) => StepView::Arithmetic(*op, *a, *b),
            Step::Compare(op, a, b) => StepView::Compare(*op, *a, *b),
            Step::Negate(a) => StepView::Negate(*a),
        }
    }
}

/// Only `nil` and `false` are falsy.
pub open spec fn truthy<N>(v: ValueView<N>) -> bool {
    match v {
        ValueView::Bool(b) => b,
        ValueView::Nil => false,
        _ => true,
    }
}

/// Equality of two values that are not both numbers: `nil` equals only
/// `nil`, values of different types are unequal, and strings and booleans
/// compare by value.
pub open spec fn equal_non_numbers<N>(a: ValueView<N>, b: ValueView<N>) -> bool {
    match (a, b) {
        (ValueView::Nil, ValueView::Nil) => true,
        (ValueView::String(s), ValueView::String(t)) => s == t,
        (ValueView::Bool(p), ValueView::Bool(q)) => p == q,
        _ => false,
    }
}

pub open spec fn type_error(line: nat, message: Seq<char>) -> ErrorView {
    ErrorView { kind: ErrorKind::TypeError, line, location: Seq::empty(), message }
}

pub open spec fn comparison_of(k: Kind) -> Option<Comparison> {
    match k {
        Kind::Greater => Some(Comparison::Greater),
        Kind::GreaterEqual => Some(Comparison::GreaterEqual),
        Kind::Less => Some(Comparison::Less),
        Kind::LessEqual => Some(Comparison::LessEqual),
        Kind::EqualEqual => Some(Comparison::Equal),
        Kind::BangEqual => Some(Comparison::NotEqual),
        _ => None,
    }
}

pub open spec fn arith_of(k: Kind) -> Option<Arith> {
    match k {
        Kind::Plus => Some(Arith::Add),
        Kind::Minus => Some(Arith::Subtract),
        Kind::Star => Some(Arith::Multiply),
        Kind::Slash => Some(Arith::Divide),
        _ => None,
    }
}

/// What a unary operator of kind `k` on line `line` does to `v`.
pub open spec fn unary_spec<N>(k: Kind, v: ValueView<N>, line: nat) -> Result<StepView<N>, ErrorView> {
    match k {
        Kind::Bang => Ok(StepView::Done(ValueView::Bool(!truthy(v)))),
        Kind::Minus => match v {
            ValueView::Number(n) => Ok(StepView::Negate(n)),
            _ => Err(type_error(line, "Operand must be a number."@)),
        },
        _ => Err(type_error(line, "Unknown operator."@)),
    }
}

/// What a binary operator of kind `k` on line `line` does to `l` and `r`.
pub open spec fn binary_spec<N>(l: ValueView<N>, k: Kind, r: ValueView<N>, line: nat) -> Result<
    StepView<N>,
    ErrorView,
> {
    if k is EqualEqual || k is BangEqual {
        match (l, r) {
            (ValueView::Number(a), ValueView::Number(b)) => Ok(
                StepView::Compare(comparison_of(k)->Some_0, a, b),
            ),
            _ => Ok(StepView::Done(ValueView::Bool(equal_non_numbers(l, r) == k is EqualEqual))),
        }
    } else if comparison_of(k) is Some {
        match (l, r) {
            (ValueView::Number(a), ValueView::Number(b)) => Ok(
                StepView::Compare(comparison_of(k)->Some_0, a, b),
            ),
            _ => Err(type_error(line, "Operands must be numbers."@)),
        }
    } else if k is Plus {
        match (l, r) {
            (ValueView::Number(a), ValueView::Number(b)) => Ok(StepView::Arithmetic(Arith::Add, a, b)),
            (ValueView::String(s), ValueView::String(t)) => Ok(StepView::Done(ValueView::String(s + t))),
            _ => Err(type_error(line, "Operands must be two numbers or two strings."@)),
        }
    } else if arith_of(k) is Some {
        match (l, r) {
            (ValueView::Number(a), ValueView::Number(b)) => Ok(
                StepView::Arithmetic(arith_of(k)->Some_0, a, b),
            ),
            _ => Err(type_error(line, "Operands must be numbers."@)),
        }
    } else {
        Err(type_error(line, "Unknown operator."@))
    }
}

pub open spec fn step_result_view<N>(r: Result<Step<N>, LoxError>) -> Result<StepView<N>, ErrorView> {
    match r {
        Ok(s) => Ok(s@),
        Err(e) => Err(e@),
    }
}

pub open spec fn same_type<N>(a: ValueView<N>, b: ValueView<N>) -> bool {
    ||| a is Number && b is Number
    ||| a is String && b is String
    ||| a is Bool && b is Bool
    ||| a is Nil && b is Nil
}

/// Equality never fails and tells types apart: values of two different types
/// are unequal, `nil` equals `nil`, strings and booleans compare by value, and
/// two numbers are compared as numbers; `!=` is its negation.
pub proof fn lemma_equality_discriminates_types<N>(a: ValueView<N>, b: ValueView<N>, line: nat)
    ensures
        binary_spec(a, Kind::EqualEqual, b, line) is Ok,
        binary_spec(a, Kind::BangEqual, b, line) is Ok,
        !same_type(a, b) ==> binary_spec(a, Kind::EqualEqual, b, line) == Ok::<
            StepView<N>,
            ErrorView,
        >(StepView::Done(ValueView::Bool(false))),
        !same_type(a, b) ==> binary_spec(a, Kind::BangEqual, b, line) == Ok::<
            StepView<N>,
            ErrorView,
        >(StepView::Done(ValueView::Bool(true))),
        a is Nil && b is Nil ==> binary_spec(a, Kind::EqualEqual, b, line) == Ok::<
            StepView<N>,
            ErrorView,
        >(StepView::Done(ValueView::Bool(true))),
        (a is String && b is String) || (a is Bool && b is Bool) ==> binary_spec(
            a,
            Kind::EqualEqual,
            b,
            line,
        ) == Ok::<StepView<N>, ErrorView>(StepView::Done(ValueView::Bool(a == b))),
        a is Number && b is Number ==> binary_spec(a, Kind::EqualEqual, b, line) == Ok::<
            StepView<N>,
            ErrorView,
        >(StepView::Compare(Comparison::Equal, a->Number_0, b->Number_0)),
{
}

impl<N> Value<N> {
    pub fn is_truthy(&self) -> (r: bool)
        ensures
            r == truthy(self@),
    {
        match self {
            Value::Bool(b) => *b,
            Value::Nil => false,
            _ => true,
        }
    }
}

/// Applies a unary operator to its operand's value.
pub fn unary<N>(op: &Token, right: Value<N>) -> (r: Result<Step<N>, LoxError>)
    ensures
        step_result_view(r) == unary_spec(op.ty@, right@, op.line as nat),
{
    match op.ty {
        TokenType::Bang => Ok(Step::Done(Value::Bool(!right.is_truthy()))),
        TokenType::Minus => match right {
            Value::Number(n) => Ok(Step::Negate(n)),
            _ => Err(LoxError::new(ErrorKind::TypeError, op.line, "Operand must be a number.")),
        },
        _ => Err(LoxError::new(ErrorKind::TypeError, op.line, "Unknown operator.")),
    }
}

/// Equality of two values that are not both numbers.
fn equal_non_numbers_exec<N>(a: &Value<N>, b: &Value<N>) -> (r: bool)
    ensures
        r == equal_non_numbers(a@, b@),
{
    match (a, b) {
        (Value::Nil, Value::Nil) => true,
        (Value::String(s), Value::String(t)) => s.eq(t),
        (Value::Bool(p), Value::Bool(q)) => *p == *q,
        _ => false,
    }
}

/// Applies a binary operator to its operands' values.
pub fn binary<N>(left: Value<N>, op: &Token, right: Value<N>) -> (r: Result<Step<N>, LoxError>)
    ensures
        step_result_view(r) == binary_spec(left@, op.ty@, right@, op.line as nat),
{
    let comparison = match op.ty {
        TokenType::Greater => Some(Comparison::Greater),
        TokenType::GreaterEqual => Some(Comparison::GreaterEqual),
        TokenType::Less => Some(Comparison::Less),
        TokenType::LessEqual => Some(Comparison::LessEqual),
        TokenType::EqualEqual => Some(Comparison::Equal),
        TokenType::BangEqual => Some(Comparison::NotEqual),
        _ => None,
    };
    let arith = match op.ty {
        TokenType::Plus => Some(Arith::Add),
        TokenType::Minus => Some(Arith::Subtract),
        TokenType::Star => Some(Arith::Multiply),
        TokenType::Slash => Some(Arith::Divide),
        _ => None,
    };
    if let Some(c) = comparison {
        let equality = match c {
            Comparison::Equal | Comparison::NotEqual => true,
            _ => false,
        };
        if equality {
            let same = equal_non_numbers_exec(&left, &right);
            match (left, right) {
                (Value::Number(a), Value::Number(b)) => Ok(Step::Compare(c, a, b)),
                _ => Ok(
                    Step::Done(
                        Value::Bool(
                            match c {
                                Comparison::Equal => same,
                                _ => !same,
                            },
                        ),
                    ),
                ),
            }
        } else {
            match (left, right) {
                (Value::Number(a), Value::Number(b)) => Ok(Step::Compare(c, a, b)),
                _ => Err(LoxError::new(ErrorKind::TypeError, op.line, "Operands must be numbers.")),
            }
        }
    } else if let Some(a_op) = arith {
        match (left, right) {
            (Value::Number(a), Value::Number(b)) => Ok(Step::Arithmetic(a_op, a, b)),
            (Value::String(s), Value::String(t)) => {
                match a_op {
                    Arith::Add => {
                        let mut joined = s;
                        joined.append(t.as_str());
                        Ok(Step::Done(Value::String(joined)))
                    },
                    _ => Err(LoxError::new(ErrorKind::TypeError, op.line, "Operands must be numbers.")),
                }
            },
            _ => match a_op {
                Arith::Add => Err(
                    LoxError::new(
                        ErrorKind::TypeError,
                        op.line,
                        "Operands must be two numbers or two strings.",
                    ),
                ),
                _ => Err(LoxError::new(ErrorKind::TypeError, op.line, "Operands must be numbers.")),
            },
        }
    } else {
        Err(LoxError::new(ErrorKind::TypeError, op.line, "Unknown operator."))
    }
}


pub open spec fn value_result_view<N>(r: Result<Value<N>, LoxError>) -> Result<ValueView<N>, ErrorView> {
    match r {
        Ok(v) => Ok(v@),
        Err(e) => Err(e@),
    }
}

/// `number` gives one value for each literal, and `perform` gives results
/// that agree for steps that agree.
pub open spec fn deterministic<N, L: Fn(Number) -> N, A: Fn(Step<N>) -> Value<N>>(
    number: L,
    perform: A,
) -> bool {
    &&& forall|n: Number, v1: N, v2: N|
        #![trigger call_ensures(number, (n,), v1), call_ensures(number, (n,), v2)]
        call_ensures(number, (n,), v1) && call_ensures(number, (n,), v2) ==> v1 == v2
    &&& forall|s1: Step<N>, s2: Step<N>, o1: Value<N>, o2: Value<N>|
        #![trigger call_ensures(perform, (s1,), o1), call_ensures(perform, (s2,), o2)]
        s1@ == s2@ && call_ensures(perform, (s1,), o1) && call_ensures(perform, (s2,), o2)
            ==> o1@ == o2@
}

/// The value `number` gives a literal.
pub open spec fn number_of<N, L: Fn(Number) -> N>(number: L, n: Number) -> N {
    choose|v: N| call_ensures(number, (n,), v)
}

/// The value `perform` gives for a numeric step.
pub open spec fn performed<N, A: Fn(Step<N>) -> Value<N>>(perform: A, sv: StepView<N>) -> ValueView<N> {
    (choose|o: Value<N>, s: Step<N>| #[trigger] call_ensures(perform, (s,), o) && s@ == sv).0@
}

/// What comes of an operator's step: its error, the value it decided, or
/// what `perform` gives for its numeric work.
pub open spec fn after_step<N, A: Fn(Step<N>) -> Value<N>>(
    step: Result<StepView<N>, ErrorView>,
    perform: A,
) -> Result<ValueView<N>, ErrorView> {
    match step {
        Err(e) => Err(e),
        Ok(StepView::Done(v)) => Ok(v),
        Ok(sv) => Ok(performed(perform, sv)),
    }
}

/// The value of `e`, evaluated bottom-up with the left operand first, where
/// `number` gives number literals their values and `perform` does the numeric
/// work of each operator. The first error ends the evaluation.
/// A literal of a kind that carries no value (the parser builds none) counts
/// as `nil`.
pub open spec fn eval_spec<N, L: Fn(Number) -> N, A: Fn(Step<N>) -> Value<N>>(
    e: Expr,
    number: L,
    perform: A,
) -> Result<ValueView<N>, ErrorView>
    decreases e,
{
    match e {
        Expr::Literal(l) => match l.expr {
            TokenType::Number(n) => Ok(ValueView::Number(number_of(number, n))),
            TokenType::String(s) => Ok(ValueView::String(s@)),
            TokenType::Bool(b) => Ok(ValueView::Bool(b)),
            _ => Ok(ValueView::Nil),
        },
        Expr::Grouping(g) => eval_spec(*g.expr, number, perform),
        Expr::Unary(u) => match eval_spec(*u.rhs, number, perform) {
            Err(err) => Err(err),
            Ok(v) => after_step(unary_spec(u.op.ty@, v, u.op.line as nat), perform),
        },
        Expr::Binary(b) => match eval_spec(*b.lhs, number, perform) {
            Err(err) => Err(err),
            Ok(lv) => match eval_spec(*b.rhs, number, perform) {
                Err(err) => Err(err),
                Ok(rv) => after_step(binary_spec(lv, b.op.ty@, rv, b.op.line as nat), perform),
            },
        },
    }
}

fn apply<N, L: Fn(Number) -> N, A: Fn(Step<N>) -> Value<N>>(
    step: Result<Step<N>, LoxError>,
    number: &L,
    perform: &A,
) -> (r: Result<Value<N>, LoxError>)
    requires
        forall|s: Step<N>| call_requires(*perform, (s,)),
        deterministic(*number, *perform),
    ensures
        value_result_view(r) == after_step(step_result_view(step), *perform),
{
    match step {
        Err(e) => Err(e),
        Ok(Step::Done(v)) => Ok(v),
        Ok(s) => {
            let ghost sv = s@;
            let ghost s0 = s;
            let out = perform(s);
            proof {
                assert(call_ensures(*perform, (s0,), out) && s0@ == sv);
                let (o, s2) = choose|o: Value<N>, s2: Step<N>|
                    #[trigger] call_ensures(*perform, (s2,), o) && s2@ == sv;
                assert(out@ == o@);
            }
            Ok(out)
        },
    }
}

/// Evaluates a tree. Numbers are of type `N`: `number` gives a
/// number literal its value and `perform` carries out the numeric steps that
/// the rules call for.
pub fn evaluate<N, L: Fn(Number) -> N, A: Fn(Step<N>) -> Value<N>>(
    e: &Expr,
    number: &L,
    perform: &A,
) -> (r: Result<Value<N>, LoxError>)
    requires
        forall|n: Number| call_requires(*number, (n,)),
        forall|s: Step<N>| call_requires(*perform, (s,)),
        deterministic(*number, *perform),
    ensures
        value_result_view(r) == eval_spec(*e, *number, *perform),
    decreases e,
{
    match e {
        Expr::Literal(l) => match &l.expr {
            TokenType::Number(n) => {
                let c = n.clone();
                let v = number(c);
                proof {
                    let w = choose|w: N| call_ensures(*number, (*n,), w);
                    assert(v == w);
                }
                Ok(Value::Number(v))
            },
            TokenType::String(s) => Ok(Value::String(s.clone())),
            TokenType::Bool(b) => Ok(Value::Bool(*b)),
            _ => Ok(Value::Nil),
        },
        Expr::Grouping(g) => evaluate(&g.expr, number, perform),
        Expr::Unary(u) => match evaluate(&u.rhs, number, perform) {
            Err(err) => Err(err),
            Ok(v) => apply(unary(&u.op, v), number, perform),
        },
        Expr::Binary(b) => match evaluate(&b.lhs, number, perform) {
            Err(err) => Err(err),
            Ok(lv) => match evaluate(&b.rhs, number, perform) {
                Err(err) => Err(err),
                Ok(rv) => apply(binary(lv, &b.op, rv), number, perform),
            },
        },
    }
}

} // verus!
