//! Evaluation: reducing an expression tree to a typed value.
//!
//! `spec_eval` is the mathematical definition of evaluation; `eval_expr`
//! is the executable evaluator, verified against it.  Evaluation walks the
//! tree left to right, type-checks every argument of an operator, and
//! stops at the first error.

use vstd::pervasive::unreached;
use vstd::prelude::*;

use crate::ast::{
    expr_model, exprs_model, LiteralExpression, OperatorExpression, OperatorType, RuleExpression,
    SpecExpr, SpecPrim,
};
use crate::error::{RuleError, SpecError, ValueShape};
use crate::MAX_DEPTH;

verus! {

/// A primitive value produced by evaluation: the evaluated form of a
/// literal.
#[derive(Debug, PartialEq)]
pub enum PrimitiveValue {
    Num(i32),
    Str(String),
    Bool(bool),
}

/// The result of evaluating an expression: one primitive value (from a
/// literal, `and` or `or`), or an ordered, possibly heterogeneous sequence
/// of primitive values (from a list).
#[derive(Debug, PartialEq)]
pub enum ExpressionValue {
    Single(PrimitiveValue),
    Repeated(Vec<PrimitiveValue>),
}

/// Model of an evaluation result.
pub ghost enum SpecVal {
    Single(SpecPrim),
    Repeated(Seq<SpecPrim>),
}

impl View for PrimitiveValue {
    type V = SpecPrim;

    open spec fn view(&self) -> SpecPrim {
        match self {
            PrimitiveValue::Num(n) => SpecPrim::Num(*n as int),
            PrimitiveValue::Str(s) => SpecPrim::Str(s@),
            PrimitiveValue::Bool(b) => SpecPrim::Bool(*b),
        }
    }
}

/// The models of a sequence of primitive values, in order.
pub open spec fn prims_model(ps: Seq<PrimitiveValue>) -> Seq<SpecPrim> {
    ps.map_values(|p: PrimitiveValue| p@)
}

impl View for ExpressionValue {
    type V = SpecVal;

    open spec fn view(&self) -> SpecVal {
        match self {
            ExpressionValue::Single(p) => SpecVal::Single(p@),
            ExpressionValue::Repeated(ps) => SpecVal::Repeated(prims_model(ps@)),
        }
    }
}

impl Clone for PrimitiveValue {
    /// Cloning keeps the value.
    fn clone(&self) -> (r: Self)
        ensures
            r@ == self@,
    {
        match self {
            PrimitiveValue::Num(n) => PrimitiveValue::Num(*n),
            PrimitiveValue::Str(s) => PrimitiveValue::Str(s.clone()),
            PrimitiveValue::Bool(b) => PrimitiveValue::Bool(*b),
        }
    }
}

/// The shape of an evaluation result, as type errors report it.
pub open spec fn shape_of(v: SpecVal) -> ValueShape {
    match v {
        SpecVal::Single(SpecPrim::Num(_)) => ValueShape::Num,
        SpecVal::Single(SpecPrim::Str(_)) => ValueShape::Str,
        SpecVal::Single(SpecPrim::Bool(_)) => ValueShape::Bool,
        SpecVal::Repeated(_) => ValueShape::Repeated,
    }
}

impl ExpressionValue {
    /// The shape of this value, as type errors report it.
    pub fn shape(&self) -> (s: ValueShape)
        ensures
            s == shape_of(self@),
    {
        match self {
            ExpressionValue::Single(PrimitiveValue::Num(_)) => ValueShape::Num,
            ExpressionValue::Single(PrimitiveValue::Str(_)) => ValueShape::Str,
            ExpressionValue::Single(PrimitiveValue::Bool(_)) => ValueShape::Bool,
            ExpressionValue::Repeated(_) => ValueShape::Repeated,
        }
    }

    /// The boolean under a single boolean value.
    pub fn to_bool(&self) -> (b: bool)
        requires
            self@ matches SpecVal::Single(SpecPrim::Bool(_)),
        ensures
            self@ == SpecVal::Single(SpecPrim::Bool(b)),
    {
        match self {
            ExpressionValue::Single(PrimitiveValue::Bool(b)) => *b,
            _ => unreached(),
        }
    }

    /// The primitive under a single value.
    pub fn to_single(&self) -> (p: PrimitiveValue)
        requires
            self@ matches SpecVal::Single(_),
        ensures
            self@ == SpecVal::Single(p@),
    {
        match self {
            ExpressionValue::Single(p) => p.clone(),
            _ => unreached(),
        }
    }
}

/// What evaluating `e` yields, with `d` levels of nesting allowance: the
/// value of a literal; for an operator, its arguments evaluated left to
/// right at one level less, each type-checked, combined according to the
/// operator.  A `d` of zero yields the depth error.
pub open spec fn spec_eval(e: SpecExpr, d: nat) -> Result<SpecVal, SpecError>
    decreases d, 0int,
{
    if d == 0 {
        Err(SpecError::Depth)
    } else {
        match e {
            SpecExpr::Lit(p) => Ok(SpecVal::Single(p)),
            SpecExpr::Op(op, args) => match op {
                OperatorType::And => match spec_eval_and_from(args, (d - 1) as nat, 0) {
                    Ok(b) => Ok(SpecVal::Single(SpecPrim::Bool(b))),
                    Err(err) => Err(err),
                },
                OperatorType::Or => match spec_eval_or_from(args, (d - 1) as nat, 0) {
                    Ok(b) => Ok(SpecVal::Single(SpecPrim::Bool(b))),
                    Err(err) => Err(err),
                },
                OperatorType::List => match spec_eval_list_from(args, (d - 1) as nat, 0) {
                    Ok(ps) => Ok(SpecVal::Repeated(ps)),
                    Err(err) => Err(err),
                },
            },
        }
    }
}

/// The conjunction of the arguments `args[k..]` of an `and`: every
/// argument must evaluate to a single boolean; empty arguments are
/// vacuously true.
pub open spec fn spec_eval_and_from(args: Seq<SpecExpr>, d: nat, k: nat) -> Result<
    bool,
    SpecError,
>
    decreases d, args.len() - k + 1,
{
    if k >= args.len() {
        Ok(true)
    } else {
        match spec_eval(args[k as int], d) {
            Ok(SpecVal::Single(SpecPrim::Bool(b))) => match spec_eval_and_from(
                args,
                d,
                k + 1,
            ) {
                Ok(rest) => Ok(b && rest),
                Err(err) => Err(err),
            },
            Ok(v) => Err(
                SpecError::TypeMismatch {
                    expected: ValueShape::Bool,
                    found: shape_of(v),
                    at: k,
                },
            ),
            Err(err) => Err(err),
        }
    }
}

/// The disjunction of the arguments `args[k..]` of an `or`: every
/// argument must evaluate to a single boolean; empty arguments are
/// vacuously false.
pub open spec fn spec_eval_or_from(args: Seq<SpecExpr>, d: nat, k: nat) -> Result<
    bool,
    SpecError,
>
    decreases d, args.len() - k + 1,
{
    if k >= args.len() {
        Ok(false)
    } else {
        match spec_eval(args[k as int], d) {
            Ok(SpecVal::Single(SpecPrim::Bool(b))) => match spec_eval_or_from(
                args,
                d,
                k + 1,
            ) {
                Ok(rest) => Ok(b || rest),
                Err(err) => Err(err),
            },
            Ok(v) => Err(
                SpecError::TypeMismatch {
                    expected: ValueShape::Bool,
                    found: shape_of(v),
                    at: k,
                },
            ),
            Err(err) => Err(err),
        }
    }
}

/// The elements of the list built from the arguments `args[k..]`: every
/// argument must evaluate to a single primitive (a nested repeated value
/// is a type error; lists do not flatten), collected in order.
pub open spec fn spec_eval_list_from(args: Seq<SpecExpr>, d: nat, k: nat) -> Result<
    Seq<SpecPrim>,
    SpecError,
>
    decreases d, args.len() - k + 1,
{
    if k >= args.len() {
        Ok(Seq::empty())
    } else {
        match spec_eval(args[k as int], d) {
            Ok(SpecVal::Single(p)) => match spec_eval_list_from(args, d, k + 1) {
                Ok(rest) => Ok(seq![p] + rest),
                Err(err) => Err(err),
            },
            Ok(v) => Err(
                SpecError::TypeMismatch {
                    expected: ValueShape::AnySingle,
                    found: shape_of(v),
                    at: k,
                },
            ),
            Err(err) => Err(err),
        }
    }
}

/// Evaluates a literal to the primitive value it denotes.
pub fn eval_literal(literal_expr: &LiteralExpression) -> (r: PrimitiveValue)
    ensures
        r@ == literal_expr@,
{
    match literal_expr {
        LiteralExpression::Num(num) => PrimitiveValue::Num(*num),
        LiteralExpression::Str(s) => PrimitiveValue::Str(s.clone()),
        LiteralExpression::Bool(b) => PrimitiveValue::Bool(*b),
    }
}

/// Evaluates an operator node with `depth` levels of nesting allowance.
pub fn eval_operator(operator_expr: &OperatorExpression, depth: usize) -> (r: Result<
    ExpressionValue,
    RuleError,
>)
    requires
        depth >= 1,
    ensures
        match r {
            Ok(v) => spec_eval(
                SpecExpr::Op(operator_expr.operator_type, exprs_model(operator_expr.args@)),
                depth as nat,
            ) == Ok::<SpecVal, SpecError>(v@),
            Err(err) => spec_eval(
                SpecExpr::Op(operator_expr.operator_type, exprs_model(operator_expr.args@)),
                depth as nat,
            ) == Err::<SpecVal, SpecError>(err@),
        },
    decreases depth, 0int,
{
    let ghost argsm = exprs_model(operator_expr.args@);
    let ghost d2 = (depth - 1) as nat;
    let n = operator_expr.args.len();
    let op_type = operator_expr.operator_type;
    let ghost opm = SpecExpr::Op(op_type, argsm);
    match op_type {
        OperatorType::And => {
            let mut acc = true;
            let mut k: usize = 0;
            while k < n
                invariant
                    k <= n,
                    n == operator_expr.args.len(),
                    depth >= 1,
                    op_type == operator_expr.operator_type,
                    op_type == OperatorType::And,
                    d2 == (depth - 1) as nat,
                    argsm == exprs_model(operator_expr.args@),
                    argsm.len() == n,
                    opm == SpecExpr::Op(op_type, argsm),
                    match spec_eval_and_from(argsm, d2, k as nat) {
                        Ok(rest) => spec_eval(opm, depth as nat) == Ok::<SpecVal, SpecError>(
                            SpecVal::Single(SpecPrim::Bool(acc && rest)),
                        ),
                        Err(err) => spec_eval(opm, depth as nat) == Err::<SpecVal, SpecError>(
                            err,
                        ),
                    },
                decreases n - k,
            {
                proof {
                    assert(argsm[k as int] == expr_model(operator_expr.args@[k as int]));
                }
                let v = match eval_expr_depth(&operator_expr.args[k], depth - 1) {
                    Ok(v) => v,
                    Err(err) => {
                        return Err(err);
                    },
                };
                match &v {
                    ExpressionValue::Single(PrimitiveValue::Bool(b)) => {
                        acc = acc && *b;
                    },
                    _ => {
                        return Err(
                            RuleError::TypeError {
                                expected: ValueShape::Bool,
                                found: v.shape(),
                                at: k,
                            },
                        );
                    },
                }
                k = k + 1;
            }
            Ok(ExpressionValue::Single(PrimitiveValue::Bool(acc)))
        },
        OperatorType::Or => {
            let mut acc = false;
            let mut k: usize = 0;
            while k < n
                invariant
                    k <= n,
                    n == operator_expr.args.len(),
                    depth >= 1,
                    op_type == operator_expr.operator_type,
                    op_type == OperatorType::Or,
                    d2 == (depth - 1) as nat,
                    argsm == exprs_model(operator_expr.args@),
                    argsm.len() == n,
                    opm == SpecExpr::Op(op_type, argsm),
                    match spec_eval_or_from(argsm, d2, k as nat) {
                        Ok(rest) => spec_eval(opm, depth as nat) == Ok::<SpecVal, SpecError>(
                            SpecVal::Single(SpecPrim::Bool(acc || rest)),
                        ),
                        Err(err) => spec_eval(opm, depth as nat) == Err::<SpecVal, SpecError>(
                            err,
                        ),
                    },
                decreases n - k,
            {
                proof {
                    assert(argsm[k as int] == expr_model(operator_expr.args@[k as int]));
                }
                let v = match eval_expr_depth(&operator_expr.args[k], depth - 1) {
                    Ok(v) => v,
                    Err(err) => {
                        return Err(err);
                    },
                };
                match &v {
                    ExpressionValue::Single(PrimitiveValue::Bool(b)) => {
                        acc = acc || *b;
                    },
                    _ => {
                        return Err(
                            RuleError::TypeError {
                                expected: ValueShape::Bool,
                                found: v.shape(),
                                at: k,
                            },
                        );
                    },
                }
                k = k + 1;
            }
            Ok(ExpressionValue::Single(PrimitiveValue::Bool(acc)))
        },
        OperatorType::List => {
            let mut acc: Vec<PrimitiveValue> = Vec::new();
            let mut k: usize = 0;
            while k < n
                invariant
                    k <= n,
                    n == operator_expr.args.len(),
                    depth >= 1,
                    op_type == operator_expr.operator_type,
                    op_type == OperatorType::List,
                    d2 == (depth - 1) as nat,
                    argsm == exprs_model(operator_expr.args@),
                    argsm.len() == n,
                    opm == SpecExpr::Op(op_type, argsm),
                    match spec_eval_list_from(argsm, d2, k as nat) {
                        Ok(rest) => spec_eval(opm, depth as nat) == Ok::<SpecVal, SpecError>(
                            SpecVal::Repeated(prims_model(acc@) + rest),
                        ),
                        Err(err) => spec_eval(opm, depth as nat) == Err::<SpecVal, SpecError>(
                            err,
                        ),
                    },
                decreases n - k,
            {
                proof {
                    assert(argsm[k as int] == expr_model(operator_expr.args@[k as int]));
                }
                let v = match eval_expr_depth(&operator_expr.args[k], depth - 1) {
                    Ok(v) => v,
                    Err(err) => {
                        return Err(err);
                    },
                };
                match v {
                    ExpressionValue::Single(p) => {
                        proof {
                            assert(prims_model(acc@.push(p)) =~= prims_model(acc@) + seq![p@]);
                            assert(forall|rest: Seq<SpecPrim>|
                                (prims_model(acc@) + seq![p@]) + rest =~= prims_model(acc@) + (
                                seq![p@] + rest));
                        }
                        acc.push(p);
                    },
                    _ => {
                        return Err(
                            RuleError::TypeError {
                                expected: ValueShape::AnySingle,
                                found: v.shape(),
                                at: k,
                            },
                        );
                    },
                }
                k = k + 1;
            }
            proof {
                assert(prims_model(acc@) + Seq::<SpecPrim>::empty() =~= prims_model(acc@));
            }
            Ok(ExpressionValue::Repeated(acc))
        },
    }
}

/// Evaluates an expression with `depth` levels of nesting allowance.
fn eval_expr_depth(rule_expr: &RuleExpression, depth: usize) -> (r: Result<
    ExpressionValue,
    RuleError,
>)
    ensures
        match r {
            Ok(v) => spec_eval(rule_expr@, depth as nat) == Ok::<SpecVal, SpecError>(v@),
            Err(err) => spec_eval(rule_expr@, depth as nat) == Err::<SpecVal, SpecError>(err@),
        },
    decreases depth, 1int,
{
    if depth == 0 {
        return Err(RuleError::RecursionLimitExceeded);
    }
    match rule_expr {
        RuleExpression::Literal(lit) => Ok(ExpressionValue::Single(eval_literal(lit))),
        RuleExpression::Operator(op) => eval_operator(op, depth),
    }
}

/// Evaluates an expression tree to a typed value, or to the typed error
/// evaluation stops at.  The result is the mathematical evaluation of the
/// tree with the nesting allowance `MAX_DEPTH`.
pub fn eval_expr(rule_expr: &RuleExpression) -> (r: Result<ExpressionValue, RuleError>)
    ensures
        match r {
            Ok(v) => spec_eval(rule_expr@, MAX_DEPTH as nat) == Ok::<SpecVal, SpecError>(v@),
            Err(err) => spec_eval(rule_expr@, MAX_DEPTH as nat) == Err::<SpecVal, SpecError>(
                err@,
            ),
        },
{
    eval_expr_depth(rule_expr, MAX_DEPTH)
}

} // verus!
