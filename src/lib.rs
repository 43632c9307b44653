pub mod error;
pub mod expr;
pub mod interpreter;
pub mod number;
pub mod parser;
pub mod print;
pub mod scanner;
pub mod token;

use vstd::prelude::*;

use crate::error::{ErrorView, LoxError};
use crate::expr::Expr;
use crate::interpreter::{deterministic, eval_spec, evaluate, value_result_view, Step, Value, ValueView};
use crate::number::Number;
use crate::parser::{parse, parse_result_view, parse_spec};
use crate::scanner::{scan, scan_spec, tokens_view};
use crate::token::Token;

verus! {

/// Scans a source text and parses the expression it starts with.
pub fn run(source: &str) -> (r: Result<Expr, LoxError>)
    requires
        source@.len() < usize::MAX,
    ensures
        match scan_spec(source@) {
            Err(e) => r is Err && r->Err_0@ == e,
            Ok(tv) => exists|ts: Seq<Token>| tokens_view(ts) == tv && parse_result_view(r) == parse_spec(ts),
        },
{
    match scan(source) {
        Ok(tokens) => parse(&tokens),
        Err(e) => Err(e),
    }
}

/// Scans, parses and evaluates a source text. Numbers are of type `N`:
/// `number` gives a number literal its value and `perform` carries out the
/// numeric steps of evaluation.
pub fn interpret<N, L: Fn(Number) -> N, A: Fn(Step<N>) -> Value<N>>(
    source: &str,
    number: &L,
    perform: &A,
) -> (r: Result<Value<N>, LoxError>)
    requires
        source@.len() < usize::MAX,
        forall|n: Number| call_requires(*number, (n,)),
        forall|s: Step<N>| call_requires(*perform, (s,)),
        deterministic(*number, *perform),
    ensures
        match scan_spec(source@) {
            Err(e) => value_result_view(r) == Err::<ValueView<N>, ErrorView>(e),
            Ok(tv) => exists|ts: Seq<Token>|
                tokens_view(ts) == tv && match parse_spec(ts) {
                    Err(e) => value_result_view(r) == Err::<ValueView<N>, ErrorView>(e),
                    Ok(tree) => value_result_view(r) == eval_spec(tree, *number, *perform),
                },
        },
{
    match scan(source) {
        Err(e) => Err(e),
        Ok(tokens) => match parse(&tokens) {
            Err(e) => Err(e),
            Ok(tree) => evaluate(&tree, number, perform),
        },
    }
}

} // verus!
