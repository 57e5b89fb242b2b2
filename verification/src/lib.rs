//! A small rule-expression language: a textual grammar for literals,
//! boolean combinators and lists, together with an evaluator that reduces
//! a parsed expression to a typed value.
//!
//! Text flows through two pure, stateless stages:
//! parsing (`parse_expr`) turns a string into a [`RuleExpression`] tree,
//! and evaluation (`eval_expr`) reduces that tree to an [`ExpressionValue`].
//! Both stages return typed errors and never panic.

use vstd::prelude::*;

pub mod ast;
pub mod error;
pub mod eval;
pub mod grammar;
pub mod laws;
pub mod parser;

pub use ast::{LiteralExpression, OperatorExpression, OperatorType, RuleExpression};
pub use ast::{SpecExpr, SpecPrim};
pub use error::{ExpectedToken, RuleError, SpecError, ValueShape};
pub use eval::{eval_expr, eval_literal, eval_operator, ExpressionValue, PrimitiveValue, SpecVal};
pub use parser::{parse_expr, parse_func_name};

verus! {

/// Greatest expression nesting depth that the parser and the evaluator
/// accept before reporting `RuleError::RecursionLimitExceeded`.
pub const MAX_DEPTH: usize = 64;

/// What parsing and then evaluating an input yields: the value of the
/// expression the text denotes, or the first typed error on the way.
pub open spec fn spec_parse_and_eval(s: Seq<char>) -> Result<SpecVal, SpecError> {
    match grammar::spec_parse(s) {
        Ok(e) => eval::spec_eval(e, MAX_DEPTH as nat),
        Err(err) => Err(err),
    }
}

/// Parses `text` and evaluates the resulting expression tree.  The result
/// is exactly what [`spec_parse_and_eval`] defines for the input.
pub fn parse_and_eval(text: &str) -> (r: Result<ExpressionValue, RuleError>)
    ensures
        match r {
            Ok(v) => spec_parse_and_eval(text@) == Ok::<SpecVal, SpecError>(v@),
            Err(err) => spec_parse_and_eval(text@) == Err::<SpecVal, SpecError>(err@),
        },
{
    match parse_expr(text) {
        Ok(e) => eval_expr(&e),
        Err(err) => Err(err),
    }
}

} // verus!
