//! Laws of the language, proved from the grammar and evaluation models.

use vstd::prelude::*;

use crate::ast::{OperatorType, SpecExpr, SpecPrim};
use crate::error::SpecError;
use crate::eval::{
    spec_eval, spec_eval_and_from, spec_eval_list_from, spec_eval_or_from, SpecVal,
};
use crate::grammar::{dec_val, digit_count, is_digit_char, is_ws_char, ws_count};
use crate::spec_parse_and_eval;

verus! {

/// The conjunction of a sequence of booleans; vacuously true when empty.
pub open spec fn all_true(bs: Seq<bool>) -> bool
    decreases bs.len(),
{
    if bs.len() == 0 {
        true
    } else {
        bs[0] && all_true(bs.drop_first())
    }
}

/// The disjunction of a sequence of booleans; vacuously false when empty.
pub open spec fn any_true(bs: Seq<bool>) -> bool
    decreases bs.len(),
{
    if bs.len() == 0 {
        false
    } else {
        bs[0] || any_true(bs.drop_first())
    }
}

/// The boolean literal expressions denoting the given booleans, in order.
pub open spec fn bool_lits(bs: Seq<bool>) -> Seq<SpecExpr> {
    bs.map_values(|b: bool| SpecExpr::Lit(SpecPrim::Bool(b)))
}

/// The literal expressions denoting the given primitives, in order.
pub open spec fn prim_lits(ps: Seq<SpecPrim>) -> Seq<SpecExpr> {
    ps.map_values(|p: SpecPrim| SpecExpr::Lit(p))
}

/// A run of digits is counted in full.
proof fn lemma_digit_count_all(s: Seq<char>, i: nat)
    requires
        i <= s.len(),
        forall|j: int| i <= j < s.len() ==> is_digit_char(s[j]),
    ensures
        digit_count(s, i) == s.len() - i,
    decreases s.len() - i,
{
    if i < s.len() {
        lemma_digit_count_all(s, i + 1);
    }
}

/// Law: for every integer literal text within the 32-bit signed range,
/// parsing and then evaluating yields the single numeric value the digits
/// denote in base 10.
pub proof fn lemma_parse_eval_int_literal(s: Seq<char>)
    requires
        s.len() >= 1,
        forall|j: int| 0 <= j < s.len() ==> is_digit_char(s[j]),
        dec_val(s) <= i32::MAX as int,
    ensures
        spec_parse_and_eval(s) == Ok::<SpecVal, SpecError>(
            SpecVal::Single(SpecPrim::Num(dec_val(s))),
        ),
{
    assert(is_digit_char(s[0]));
    assert(!is_ws_char(s[0]));
    assert(ws_count(s, 0) == 0);
    lemma_digit_count_all(s, 0);
    assert(s.subrange(0, s.len() as int) =~= s);
    assert(ws_count(s, s.len() as nat) == 0);
}

/// Evaluating the arguments of an `and` that are all boolean literals
/// conjoins the booleans from `k` on.
proof fn lemma_and_from_bools(bs: Seq<bool>, d: nat, k: nat)
    requires
        d >= 1,
        k <= bs.len(),
    ensures
        spec_eval_and_from(bool_lits(bs), d, k) == Ok::<bool, SpecError>(
            all_true(bs.subrange(k as int, bs.len() as int)),
        ),
    decreases bs.len() - k,
{
    if k == bs.len() {
        assert(bs.subrange(k as int, bs.len() as int) =~= Seq::<bool>::empty());
    } else {
        lemma_and_from_bools(bs, d, k + 1);
        let suffix = bs.subrange(k as int, bs.len() as int);
        assert(suffix[0] == bs[k as int]);
        assert(suffix.drop_first() =~= bs.subrange(k as int + 1, bs.len() as int));
        assert(bool_lits(bs)[k as int] == SpecExpr::Lit(SpecPrim::Bool(bs[k as int])));
        assert(spec_eval(bool_lits(bs)[k as int], d) == Ok::<SpecVal, SpecError>(
            SpecVal::Single(SpecPrim::Bool(bs[k as int])),
        ));
    }
}

/// Evaluating the arguments of an `or` that are all boolean literals
/// disjoins the booleans from `k` on.
proof fn lemma_or_from_bools(bs: Seq<bool>, d: nat, k: nat)
    requires
        d >= 1,
        k <= bs.len(),
    ensures
        spec_eval_or_from(bool_lits(bs), d, k) == Ok::<bool, SpecError>(
            any_true(bs.subrange(k as int, bs.len() as int)),
        ),
    decreases bs.len() - k,
{
    if k == bs.len() {
        assert(bs.subrange(k as int, bs.len() as int) =~= Seq::<bool>::empty());
    } else {
        lemma_or_from_bools(bs, d, k + 1);
        let suffix = bs.subrange(k as int, bs.len() as int);
        assert(suffix[0] == bs[k as int]);
        assert(suffix.drop_first() =~= bs.subrange(k as int + 1, bs.len() as int));
        assert(bool_lits(bs)[k as int] == SpecExpr::Lit(SpecPrim::Bool(bs[k as int])));
        assert(spec_eval(bool_lits(bs)[k as int], d) == Ok::<SpecVal, SpecError>(
            SpecVal::Single(SpecPrim::Bool(bs[k as int])),
        ));
    }
}

/// Law: an `and` of boolean literals evaluates to the logical conjunction
/// of its arguments, and an `or` to their disjunction; with no arguments,
/// `and` is true and `or` is false.
pub proof fn lemma_eval_and_or_bools(op: OperatorType, bs: Seq<bool>, d: nat)
    requires
        d >= 2,
        op == OperatorType::And || op == OperatorType::Or,
    ensures
        spec_eval(SpecExpr::Op(op, bool_lits(bs)), d) == Ok::<SpecVal, SpecError>(
            SpecVal::Single(
                SpecPrim::Bool(
                    if op == OperatorType::And {
                        all_true(bs)
                    } else {
                        any_true(bs)
                    },
                ),
            ),
        ),
{
    assert(bs.subrange(0, bs.len() as int) =~= bs);
    if op == OperatorType::And {
        lemma_and_from_bools(bs, (d - 1) as nat, 0);
    } else {
        lemma_or_from_bools(bs, (d - 1) as nat, 0);
    }
}

/// Evaluating the arguments of a list that are all literals collects the
/// primitives from `k` on, in order.
proof fn lemma_list_from_lits(ps: Seq<SpecPrim>, d: nat, k: nat)
    requires
        d >= 1,
        k <= ps.len(),
    ensures
        spec_eval_list_from(prim_lits(ps), d, k) == Ok::<Seq<SpecPrim>, SpecError>(
            ps.subrange(k as int, ps.len() as int),
        ),
    decreases ps.len() - k,
{
    if k == ps.len() {
        assert(ps.subrange(k as int, ps.len() as int) =~= Seq::<SpecPrim>::empty());
    } else {
        lemma_list_from_lits(ps, d, k + 1);
        assert(seq![ps[k as int]] + ps.subrange(k as int + 1, ps.len() as int) =~= ps.subrange(
            k as int,
            ps.len() as int,
        ));
        assert(prim_lits(ps)[k as int] == SpecExpr::Lit(ps[k as int]));
        assert(spec_eval(prim_lits(ps)[k as int], d) == Ok::<SpecVal, SpecError>(
            SpecVal::Single(ps[k as int]),
        ));
    }
}

/// Law: evaluation is deterministic and idempotent.  `eval_expr`
/// promises that the model of its result equals `spec_eval` of the tree,
/// a function of the tree alone; so any two results that evaluation may
/// return for the same tree are equal.
pub proof fn lemma_eval_deterministic(
    e: SpecExpr,
    d: nat,
    r1: Result<SpecVal, SpecError>,
    r2: Result<SpecVal, SpecError>,
)
    requires
        r1 == spec_eval(e, d),
        r2 == spec_eval(e, d),
    ensures
        r1 == r2,
{
}

/// Law: a list of literals evaluates to the repeated value holding
/// exactly the literals' primitives: same length, same order, each
/// element of the same kind and value as its literal.
pub proof fn lemma_eval_list_literals(ps: Seq<SpecPrim>, d: nat)
    requires
        d >= 2,
    ensures
        spec_eval(SpecExpr::Op(OperatorType::List, prim_lits(ps)), d) == Ok::<
            SpecVal,
            SpecError,
        >(SpecVal::Repeated(ps)),
{
    assert(ps.subrange(0, ps.len() as int) =~= ps);
    lemma_list_from_lits(ps, (d - 1) as nat, 0);
}

} // verus!
