//! The abstract syntax tree produced by the parser, and its
//! mathematical model used in contracts.

use vstd::prelude::*;

verus! {

/// A node of the abstract syntax tree: either a terminal literal or the
/// application of an operator to an ordered list of argument expressions.
#[derive(Debug)]
pub enum RuleExpression {
    Literal(Box<LiteralExpression>),
    Operator(Box<OperatorExpression>),
}

/// A terminal value written directly in the source text.
#[derive(Debug)]
pub enum LiteralExpression {
    Num(i32),
    Str(String),
    Bool(bool),
}

/// An operator applied to zero or more argument expressions.
/// The order of `args` is significant: it fixes evaluation order and the
/// order of the elements of a list value.
#[derive(Debug)]
pub struct OperatorExpression {
    pub operator_type: OperatorType,
    pub args: Vec<RuleExpression>,
}

/// The closed set of operators of the language.
#[derive(Clone, Copy, Debug, PartialEq, Eq, Structural)]
pub enum OperatorType {
    And,
    Or,
    List,
}

/// Model of a literal or of an evaluated primitive value: a mathematical
/// integer, a sequence of characters, or a boolean.
pub ghost enum SpecPrim {
    Num(int),
    Str(Seq<char>),
    Bool(bool),
}

/// Model of an expression tree.
pub ghost enum SpecExpr {
    Lit(SpecPrim),
    Op(OperatorType, Seq<SpecExpr>),
}

impl View for LiteralExpression {
    type V = SpecPrim;

    open spec fn view(&self) -> SpecPrim {
        match self {
            LiteralExpression::Num(n) => SpecPrim::Num(*n as int),
            LiteralExpression::Str(s) => SpecPrim::Str(s@),
            LiteralExpression::Bool(b) => SpecPrim::Bool(*b),
        }
    }
}

/// The model of an expression tree: literals become their model values and
/// an operator node becomes the model of each argument, in order.
pub open spec fn expr_model(e: RuleExpression) -> SpecExpr
    decreases e,
{
    match e {
        RuleExpression::Literal(lit) => SpecExpr::Lit(lit@),
        RuleExpression::Operator(op) => SpecExpr::Op(op.operator_type, exprs_model(op.args@)),
    }
}

/// The models of a sequence of argument expressions, in order.
pub open spec fn exprs_model(es: Seq<RuleExpression>) -> Seq<SpecExpr>
    decreases es,
{
    Seq::new(
        es.len(),
        |j: int|
            if 0 <= j < es.len() {
                expr_model(es[j])
            } else {
                SpecExpr::Lit(SpecPrim::Bool(false))
            },
    )
}

impl View for RuleExpression {
    type V = SpecExpr;

    open spec fn view(&self) -> SpecExpr {
        expr_model(*self)
    }
}

/// Appending an expression to a sequence of arguments appends its model.
pub proof fn lemma_exprs_model_push(es: Seq<RuleExpression>, e: RuleExpression)
    ensures
        exprs_model(es.push(e)) == exprs_model(es).push(expr_model(e)),
{
    assert(exprs_model(es.push(e)) =~= exprs_model(es).push(expr_model(e)));
}

} // verus!
