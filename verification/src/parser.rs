//! The executable parser, verified against the grammar model.
//!
//! `parse_expr` turns source text into a [`RuleExpression`] tree or a
//! typed [`RuleError`]; its result is exactly what [`spec_parse`] defines
//! for the input.

use vstd::prelude::*;
use vstd::string::StrSliceExecFns;

use crate::ast::{
    expr_model, exprs_model, LiteralExpression, OperatorExpression, OperatorType, RuleExpression,
    SpecExpr,
};
use crate::error::{ExpectedToken, RuleError, SpecError};
use crate::grammar::{
    comma_or_close, dec_val, digit_count, digit_val, ident_count, is_digit_char, is_ident_char,
    is_ident_start_char, is_ws_char, op_for_name, scan_string, spec_parse, spec_parse_args,
    spec_parse_expr, ws_count,
};
use crate::MAX_DEPTH;

verus! {

/// Relies on `String::push`: appends the given character to the end of
/// the string.
#[verifier::external_body]
fn push_char(s: &mut String, c: char)
    ensures
        final(s)@ == old(s)@.push(c),
{
    s.push(c);
}

/// The characters of `text`, in order, as a vector.
fn str_chars(text: &str) -> (r: Vec<char>)
    ensures
        r@ == text@,
{
    let n = text.unicode_len();
    let mut r: Vec<char> = Vec::new();
    let mut j: usize = 0;
    while j < n
        invariant
            j <= n,
            n == text@.len(),
            r@ == text@.subrange(0, j as int),
        decreases n - j,
    {
        r.push(text.get_char(j));
        proof {
            assert(text@.subrange(0, (j + 1) as int) =~= text@.subrange(0, j as int).push(
                text@[j as int],
            ));
        }
        j = j + 1;
    }
    proof {
        assert(text@.subrange(0, n as int) =~= text@);
    }
    r
}

/// The characters `cs[from..to]`, in order, as a string.
fn chars_to_string(cs: &Vec<char>, from: usize, to: usize) -> (r: String)
    requires
        from <= to && to <= cs.len(),
    ensures
        r@ == cs@.subrange(from as int, to as int),
{
    let mut r = String::new();
    let mut j = from;
    while j < to
        invariant
            from <= j <= to <= cs.len(),
            r@ == cs@.subrange(from as int, j as int),
        decreases to - j,
    {
        push_char(&mut r, cs[j]);
        proof {
            assert(cs@.subrange(from as int, (j + 1) as int) =~= cs@.subrange(
                from as int,
                j as int,
            ).push(cs@[j as int]));
        }
        j = j + 1;
    }
    r
}

/// Whether two string slices hold the same characters.
fn str_eq_str(a: &str, b: &str) -> (r: bool)
    ensures
        r == (a@ == b@),
{
    let na = a.unicode_len();
    let nb = b.unicode_len();
    if na != nb {
        return false;
    }
    let mut j: usize = 0;
    while j < na
        invariant
            j <= na,
            na == a@.len(),
            na == b@.len(),
            forall|t: int| 0 <= t < j ==> a@[t] == b@[t],
        decreases na - j,
    {
        if a.get_char(j) != b.get_char(j) {
            return false;
        }
        j = j + 1;
    }
    proof {
        assert(a@ =~= b@);
    }
    true
}

/// Whether `c` is whitespace.
fn ws_char(c: char) -> (r: bool)
    ensures
        r == is_ws_char(c),
{
    c == ' ' || c == '\t' || c == '\n' || c == '\r'
}

/// Whether `c` is a decimal digit.
fn digit_char(c: char) -> (r: bool)
    ensures
        r == is_digit_char(c),
{
    '0' <= c && c <= '9'
}

/// Whether `c` may start an identifier.
fn ident_start_char(c: char) -> (r: bool)
    ensures
        r == is_ident_start_char(c),
{
    ('a' <= c && c <= 'z') || ('A' <= c && c <= 'Z') || c == '_'
}

/// Whether `c` may appear in an identifier.
fn ident_char(c: char) -> (r: bool)
    ensures
        r == is_ident_char(c),
{
    ('a' <= c && c <= 'z') || ('A' <= c && c <= 'Z') || ('0' <= c && c <= '9') || c == '_'
}

/// Number of whitespace characters of `cs` starting at `i`.
fn skip_ws(cs: &Vec<char>, i: usize) -> (w: usize)
    requires
        i <= cs.len(),
    ensures
        w == ws_count(cs@, i as nat),
        i + w <= cs.len(),
{
    let mut p = i;
    while p < cs.len() && ws_char(cs[p])
        invariant
            i <= p <= cs.len(),
            ws_count(cs@, i as nat) == (p - i) + ws_count(cs@, p as nat),
        decreases cs.len() - p,
    {
        p = p + 1;
    }
    p - i
}

/// Number of decimal digits of `cs` starting at `i`.
fn scan_digits(cs: &Vec<char>, i: usize) -> (n: usize)
    requires
        i <= cs.len(),
    ensures
        n == digit_count(cs@, i as nat),
        i + n <= cs.len(),
        forall|t: int| i <= t < i + n ==> is_digit_char(cs@[t]),
{
    let mut p = i;
    while p < cs.len() && digit_char(cs[p])
        invariant
            i <= p <= cs.len(),
            digit_count(cs@, i as nat) == (p - i) + digit_count(cs@, p as nat),
            forall|t: int| i <= t < p ==> is_digit_char(cs@[t]),
        decreases cs.len() - p,
    {
        p = p + 1;
    }
    p - i
}

/// Number of identifier characters of `cs` starting at `i`.
fn scan_ident(cs: &Vec<char>, i: usize) -> (n: usize)
    requires
        i <= cs.len(),
    ensures
        n == ident_count(cs@, i as nat),
        i + n <= cs.len(),
{
    let mut p = i;
    while p < cs.len() && ident_char(cs[p])
        invariant
            i <= p <= cs.len(),
            ident_count(cs@, i as nat) == (p - i) + ident_count(cs@, p as nat),
        decreases cs.len() - p,
    {
        p = p + 1;
    }
    p - i
}

/// The value of a digit sequence is at least the value of any of its
/// prefixes.
proof fn lemma_dec_val_prefix(s: Seq<char>, k: int)
    requires
        0 <= k <= s.len(),
        forall|j: int| 0 <= j < s.len() ==> is_digit_char(s[j]),
    ensures
        dec_val(s.subrange(0, k)) <= dec_val(s),
        dec_val(s.subrange(0, k)) >= 0,
    decreases s.len() - k,
{
    if k == s.len() {
        assert(s.subrange(0, k) =~= s);
        lemma_dec_val_nonneg(s);
    } else {
        lemma_dec_val_prefix(s, k + 1);
        assert(s.subrange(0, k + 1).drop_last() =~= s.subrange(0, k));
        assert(dec_val(s.subrange(0, k + 1)) == dec_val(s.subrange(0, k)) * 10 + digit_val(
            s[k],
        ));
        lemma_dec_val_nonneg(s.subrange(0, k));
    }
}

/// A digit sequence has a non-negative value.
proof fn lemma_dec_val_nonneg(s: Seq<char>)
    requires
        forall|j: int| 0 <= j < s.len() ==> is_digit_char(s[j]),
    ensures
        dec_val(s) >= 0,
    decreases s.len(),
{
    if s.len() > 0 {
        lemma_dec_val_nonneg(s.drop_last());
    }
}

/// The numeric value of the `n` digits of `cs` starting at `from`, or the
/// overflow error naming the digit run if the value does not fit a
/// 32-bit signed integer.
fn digits_value(cs: &Vec<char>, from: usize, n: usize) -> (r: Result<i32, RuleError>)
    requires
        from + n <= cs.len(),
        forall|t: int| from <= t < from + n ==> is_digit_char(cs@[t]),
    ensures
        ({
            let lit = cs@.subrange(from as int, (from + n) as int);
            match r {
                Ok(v) => dec_val(lit) <= i32::MAX as int && v as int == dec_val(lit),
                Err(err) => dec_val(lit) > i32::MAX as int && err@ == (SpecError::Overflow {
                    literal: lit,
                }),
            }
        }),
{
    let ghost lit = cs@.subrange(from as int, (from + n) as int);
    proof {
        assert(forall|j: int| 0 <= j < lit.len() ==> is_digit_char(lit[j]));
    }
    let mut acc: u64 = 0;
    let mut k: usize = 0;
    while k < n
        invariant
            k <= n,
            from + n <= cs.len(),
            lit == cs@.subrange(from as int, (from + n) as int),
            forall|t: int| from <= t < from + n ==> is_digit_char(cs@[t]),
            acc as int == dec_val(lit.subrange(0, k as int)),
            acc <= i32::MAX as u64,
        decreases n - k,
    {
        let c = cs[from + k];
        let d: u64 = (c as u32 as u64) - 48;
        proof {
            assert(is_digit_char(c));
            assert(lit.subrange(0, (k + 1) as int).drop_last() =~= lit.subrange(0, k as int));
            assert(lit.subrange(0, (k + 1) as int).last() == c);
            assert(dec_val(lit.subrange(0, (k + 1) as int)) == dec_val(
                lit.subrange(0, k as int),
            ) * 10 + digit_val(c));
        }
        let next: u64 = acc * 10 + d;
        if next > 2147483647 {
            proof {
                lemma_dec_val_prefix(lit, k + 1);
            }
            let literal_text = chars_to_string(cs, from, from + n);
            return Err(RuleError::NumericOverflowError { literal_text });
        }
        acc = next;
        k = k + 1;
    }
    proof {
        assert(lit.subrange(0, n as int) =~= lit);
    }
    Ok(acc as i32)
}

/// Reads the body of a string literal of `cs` starting at `i`, the
/// position right after the opening quote, resolving the escape
/// sequences `\"` and `\\`.
fn scan_string_chars(cs: &Vec<char>, i: usize) -> (r: Result<(String, usize), RuleError>)
    requires
        i <= cs.len(),
    ensures
        match r {
            Ok(sm) => scan_string(cs@, i as nat) == Ok::<(Seq<char>, nat), SpecError>(
                (sm.0@, sm.1 as nat),
            ) && i + sm.1 <= cs.len() && sm.1 >= 1,
            Err(err) => scan_string(cs@, i as nat) == Err::<(Seq<char>, nat), SpecError>(err@),
        },
{
    let mut buf = String::new();
    let mut pos = i;
    loop
        invariant
            i <= pos <= cs.len(),
            match scan_string(cs@, pos as nat) {
                Ok(rm) => scan_string(cs@, i as nat) == Ok::<(Seq<char>, nat), SpecError>(
                    (buf@ + rm.0, ((pos - i) + rm.1) as nat),
                ),
                Err(err) => scan_string(cs@, i as nat) == Err::<(Seq<char>, nat), SpecError>(
                    err,
                ),
            },
        decreases cs.len() - pos,
    {
        if pos >= cs.len() {
            return Err(
                RuleError::SyntaxError { position: pos, expected: ExpectedToken::CloseQuote },
            );
        }
        let c = cs[pos];
        if c == '"' {
            proof {
                assert(buf@ + Seq::<char>::empty() =~= buf@);
            }
            return Ok((buf, pos + 1 - i));
        }
        if c == '\\' {
            if pos + 1 < cs.len() && (cs[pos + 1] == '"' || cs[pos + 1] == '\\') {
                let e = cs[pos + 1];
                proof {
                    assert(buf@.push(e) =~= buf@ + seq![e]);
                    assert(forall|rest: Seq<char>|
                        (buf@ + seq![e]) + rest =~= buf@ + (seq![e] + rest));
                }
                push_char(&mut buf, e);
                pos = pos + 2;
            } else {
                return Err(
                    RuleError::SyntaxError {
                        position: pos + 1,
                        expected: ExpectedToken::EscapeChar,
                    },
                );
            }
        } else {
            proof {
                assert(buf@.push(c) =~= buf@ + seq![c]);
                assert(forall|rest: Seq<char>|
                    (buf@ + seq![c]) + rest =~= buf@ + (seq![c] + rest));
            }
            push_char(&mut buf, c);
            pos = pos + 1;
        }
    }
}

/// Maps a call identifier to the operator it names; an identifier outside
/// the known set is the unknown-operator error carrying the identifier.
pub fn parse_func_name(name: &str) -> (r: Result<OperatorType, RuleError>)
    ensures
        match r {
            Ok(op) => op_for_name(name@) == Some(op),
            Err(err) => op_for_name(name@) is None && err@ == (SpecError::UnknownOperator {
                name: name@,
            }),
        },
{
    if str_eq_str(name, "and") {
        Ok(OperatorType::And)
    } else if str_eq_str(name, "or") {
        Ok(OperatorType::Or)
    } else {
        Err(RuleError::UnknownOperatorError { name: name.to_owned() })
    }
}

/// The executable form of [`comma_or_close`].
fn comma_or_close_token(close: char) -> (r: ExpectedToken)
    ensures
        r == comma_or_close(close),
{
    if close == ')' {
        ExpectedToken::CommaOrCloseParen
    } else {
        ExpectedToken::CommaOrCloseBracket
    }
}

/// Reads one expression of `cs` starting at `i`, with `d` levels of
/// nesting allowance, exactly as [`spec_parse_expr`] defines it.
fn parse_expr_at(cs: &Vec<char>, i: usize, d: usize) -> (r: Result<
    (RuleExpression, usize),
    RuleError,
>)
    requires
        i <= cs.len(),
    ensures
        match r {
            Ok(en) => spec_parse_expr(cs@, i as nat, d as nat) == Ok::<
                (SpecExpr, nat),
                SpecError,
            >((en.0@, en.1 as nat)) && i + en.1 <= cs.len(),
            Err(err) => spec_parse_expr(cs@, i as nat, d as nat) == Err::<
                (SpecExpr, nat),
                SpecError,
            >(err@),
        },
    decreases d, cs.len() - i, 0int,
{
    if d == 0 {
        return Err(RuleError::RecursionLimitExceeded);
    }
    let w = skip_ws(cs, i);
    let p = i + w;
    if p >= cs.len() {
        return Err(RuleError::SyntaxError { position: p, expected: ExpectedToken::Expression });
    }
    let c = cs[p];
    if digit_char(c) {
        let n = scan_digits(cs, p);
        proof {
            assert(digit_count(cs@, p as nat) >= 1);
        }
        match digits_value(cs, p, n) {
            Ok(v) => {
                let w2 = skip_ws(cs, p + n);
                let e = RuleExpression::Literal(Box::new(LiteralExpression::Num(v)));
                Ok((e, w + n + w2))
            },
            Err(err) => Err(err),
        }
    } else if c == '"' {
        match scan_string_chars(cs, p + 1) {
            Ok((sv, m)) => {
                let w2 = skip_ws(cs, p + 1 + m);
                let e = RuleExpression::Literal(Box::new(LiteralExpression::Str(sv)));
                Ok((e, w + 1 + m + w2))
            },
            Err(err) => Err(err),
        }
    } else if c == '[' {
        match parse_args_at(cs, p + 1, ']', d - 1) {
            Ok((args, m)) => {
                let w2 = skip_ws(cs, p + 1 + m);
                let e = RuleExpression::Operator(
                    Box::new(OperatorExpression { operator_type: OperatorType::List, args }),
                );
                Ok((e, w + 1 + m + w2))
            },
            Err(err) => Err(err),
        }
    } else if ident_start_char(c) {
        let n = scan_ident(cs, p);
        proof {
            assert(ident_count(cs@, p as nat) >= 1);
        }
        let id = chars_to_string(cs, p, p + n);
        if str_eq_str(id.as_str(), "true") {
            let w2 = skip_ws(cs, p + n);
            Ok((RuleExpression::Literal(Box::new(LiteralExpression::Bool(true))), w + n + w2))
        } else if str_eq_str(id.as_str(), "false") {
            let w2 = skip_ws(cs, p + n);
            Ok((RuleExpression::Literal(Box::new(LiteralExpression::Bool(false))), w + n + w2))
        } else {
            match parse_func_name(id.as_str()) {
                Ok(op) => {
                    let w2 = skip_ws(cs, p + n);
                    let r = p + n + w2;
                    if r < cs.len() && cs[r] == '(' {
                        match parse_args_at(cs, r + 1, ')', d - 1) {
                            Ok((args, m)) => {
                                let w3 = skip_ws(cs, r + 1 + m);
                                let e = RuleExpression::Operator(
                                    Box::new(OperatorExpression { operator_type: op, args }),
                                );
                                Ok((e, r + 1 + m + w3 - i))
                            },
                            Err(err) => Err(err),
                        }
                    } else {
                        Err(
                            RuleError::SyntaxError {
                                position: r,
                                expected: ExpectedToken::OpenParen,
                            },
                        )
                    }
                },
                Err(err) => Err(err),
            }
        }
    } else {
        Err(RuleError::SyntaxError { position: p, expected: ExpectedToken::Expression })
    }
}

/// Reads the arguments of an operator of `cs` starting at `i` (right
/// after `(` or `[`), up to and including the closing character `close`,
/// exactly as [`spec_parse_args`] defines it.
fn parse_args_at(cs: &Vec<char>, i: usize, close: char, d: usize) -> (r: Result<
    (Vec<RuleExpression>, usize),
    RuleError,
>)
    requires
        i <= cs.len(),
    ensures
        match r {
            Ok(em) => spec_parse_args(cs@, i as nat, close, true, d as nat) == Ok::<
                (Seq<SpecExpr>, nat),
                SpecError,
            >((exprs_model(em.0@), em.1 as nat)) && i + em.1 <= cs.len(),
            Err(err) => spec_parse_args(cs@, i as nat, close, true, d as nat) == Err::<
                (Seq<SpecExpr>, nat),
                SpecError,
            >(err@),
        },
    decreases d, cs.len() - i, 1int,
{
    let w = skip_ws(cs, i);
    let p = i + w;
    if p < cs.len() && cs[p] == close {
        let es: Vec<RuleExpression> = Vec::new();
        proof {
            assert(exprs_model(es@) =~= Seq::<SpecExpr>::empty());
        }
        return Ok((es, w + 1));
    }
    let mut acc: Vec<RuleExpression> = Vec::new();
    let mut pos = i;
    loop
        invariant
            i <= pos <= cs.len(),
            match spec_parse_args(cs@, pos as nat, close, false, d as nat) {
                Ok(rm) => spec_parse_args(cs@, i as nat, close, true, d as nat) == Ok::<
                    (Seq<SpecExpr>, nat),
                    SpecError,
                >((exprs_model(acc@) + rm.0, ((pos - i) + rm.1) as nat)),
                Err(err) => spec_parse_args(cs@, i as nat, close, true, d as nat) == Err::<
                    (Seq<SpecExpr>, nat),
                    SpecError,
                >(err),
            },
        decreases cs.len() - pos,
    {
        let (e, n) = match parse_expr_at(cs, pos, d) {
            Ok(en) => en,
            Err(err) => {
                return Err(err);
            },
        };
        let q = pos + n;
        proof {
            assert(exprs_model(acc@.push(e)) =~= exprs_model(acc@) + seq![expr_model(e)]);
            assert(forall|rest: Seq<SpecExpr>|
                (exprs_model(acc@) + seq![expr_model(e)]) + rest =~= exprs_model(acc@) + (
                seq![expr_model(e)] + rest));
        }
        if q < cs.len() && cs[q] == ',' {
            acc.push(e);
            pos = q + 1;
        } else if q < cs.len() && cs[q] == close {
            acc.push(e);
            return Ok((acc, q + 1 - i));
        } else {
            return Err(
                RuleError::SyntaxError { position: q, expected: comma_or_close_token(close) },
            );
        }
    }
}

/// Parses a whole input: one expression, surrounded by optional
/// whitespace, consuming every character.  The result is exactly what
/// [`spec_parse`] defines for the input: the expression tree the text
/// denotes, or the typed error the grammar assigns to it.
pub fn parse_expr(text: &str) -> (r: Result<RuleExpression, RuleError>)
    ensures
        match r {
            Ok(e) => spec_parse(text@) == Ok::<SpecExpr, SpecError>(e@),
            Err(err) => spec_parse(text@) == Err::<SpecExpr, SpecError>(err@),
        },
{
    let cs = str_chars(text);
    match parse_expr_at(&cs, 0, MAX_DEPTH) {
        Ok((e, n)) => {
            if n == cs.len() {
                Ok(e)
            } else {
                Err(
                    RuleError::SyntaxError {
                        position: n,
                        expected: ExpectedToken::EndOfInput,
                    },
                )
            }
        },
        Err(err) => Err(err),
    }
}

} // verus!
