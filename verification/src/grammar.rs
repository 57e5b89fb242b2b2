//! The grammar of the language as a mathematical model.
//!
//! Every function here is specification-only.  `spec_parse` defines, for
//! every input, either the expression tree the text denotes or the typed
//! error the parser must report; the executable parser is verified
//! against it.
//!
//! The grammar:
//! an expression is a literal (integer, string or boolean) or an operator
//! (a call `and(...)`/`or(...)`, or a list literal `[...]`); arguments are
//! separated by commas, a trailing comma is not permitted, and whitespace
//! is allowed between any two tokens.

use vstd::prelude::*;

use crate::ast::{OperatorType, SpecExpr, SpecPrim};
use crate::error::{ExpectedToken, SpecError};

verus! {

/// Whitespace that may appear between any two tokens.
pub open spec fn is_ws_char(c: char) -> bool {
    c == ' ' || c == '\t' || c == '\n' || c == '\r'
}

/// A decimal digit.
pub open spec fn is_digit_char(c: char) -> bool {
    '0' <= c && c <= '9'
}

/// A character that may appear in an operator identifier: ASCII
/// alphanumeric or underscore.
pub open spec fn is_ident_char(c: char) -> bool {
    ('a' <= c && c <= 'z') || ('A' <= c && c <= 'Z') || is_digit_char(c) || c == '_'
}

/// A character that may start an identifier (and hence a boolean literal
/// or an operator call).
pub open spec fn is_ident_start_char(c: char) -> bool {
    ('a' <= c && c <= 'z') || ('A' <= c && c <= 'Z') || c == '_'
}

/// Number of consecutive whitespace characters of `s` starting at `i`.
pub open spec fn ws_count(s: Seq<char>, i: nat) -> nat
    decreases s.len() - i,
{
    if i >= s.len() || !is_ws_char(s[i as int]) {
        0
    } else {
        1 + ws_count(s, i + 1)
    }
}

/// Number of consecutive decimal digits of `s` starting at `i`.
pub open spec fn digit_count(s: Seq<char>, i: nat) -> nat
    decreases s.len() - i,
{
    if i >= s.len() || !is_digit_char(s[i as int]) {
        0
    } else {
        1 + digit_count(s, i + 1)
    }
}

/// Number of consecutive identifier characters of `s` starting at `i`.
pub open spec fn ident_count(s: Seq<char>, i: nat) -> nat
    decreases s.len() - i,
{
    if i >= s.len() || !is_ident_char(s[i as int]) {
        0
    } else {
        1 + ident_count(s, i + 1)
    }
}

/// Numeric value of a decimal digit character.
pub open spec fn digit_val(c: char) -> int {
    c as u32 - '0' as u32
}

/// Value of a sequence of decimal digits read as a base-10 numeral.
pub open spec fn dec_val(s: Seq<char>) -> int
    decreases s.len(),
{
    if s.len() == 0 {
        0
    } else {
        dec_val(s.drop_last()) * 10 + digit_val(s.last())
    }
}

/// The operator a call identifier names, if any.
pub open spec fn op_for_name(name: Seq<char>) -> Option<OperatorType> {
    if name == "and"@ {
        Some(OperatorType::And)
    } else if name == "or"@ {
        Some(OperatorType::Or)
    } else {
        None
    }
}

/// Reads the body of a string literal of `s` starting at `i`, the position
/// right after the opening quote.  On success, yields the decoded value
/// (escape sequences `\"` and `\\` resolved) and the number of characters
/// consumed, the closing quote included.
pub open spec fn scan_string(s: Seq<char>, i: nat) -> Result<(Seq<char>, nat), SpecError>
    decreases s.len() - i,
{
    if i >= s.len() {
        Err(SpecError::Syntax { position: i, expected: ExpectedToken::CloseQuote })
    } else if s[i as int] == '"' {
        Ok((Seq::empty(), 1))
    } else if s[i as int] == '\\' {
        if i + 1 < s.len() && (s[i + 1 as int] == '"' || s[i + 1 as int] == '\\') {
            match scan_string(s, i + 2) {
                Ok((rest, n)) => Ok((seq![s[i + 1 as int]] + rest, n + 2)),
                Err(e) => Err(e),
            }
        } else {
            Err(SpecError::Syntax { position: i + 1, expected: ExpectedToken::EscapeChar })
        }
    } else {
        match scan_string(s, i + 1) {
            Ok((rest, n)) => Ok((seq![s[i as int]] + rest, n + 1)),
            Err(e) => Err(e),
        }
    }
}

/// What the argument separator of an operator may be followed by.
pub open spec fn comma_or_close(close: char) -> ExpectedToken {
    if close == ')' {
        ExpectedToken::CommaOrCloseParen
    } else {
        ExpectedToken::CommaOrCloseBracket
    }
}

/// Reads one expression of `s` starting at `i`, leading and trailing
/// whitespace included.  `d` is the nesting allowance left: a `d` of zero
/// reports the depth error.  On success, yields the expression and the
/// number of characters consumed.
pub open spec fn spec_parse_expr(s: Seq<char>, i: nat, d: nat) -> Result<
    (SpecExpr, nat),
    SpecError,
>
    decreases d, s.len() - i, 0int,
{
    if d == 0 {
        Err(SpecError::Depth)
    } else {
        let w = ws_count(s, i);
        let p = i + w;
        if p >= s.len() {
            Err(SpecError::Syntax { position: p, expected: ExpectedToken::Expression })
        } else if is_digit_char(s[p as int]) {
            let n = digit_count(s, p);
            let lit = s.subrange(p as int, (p + n) as int);
            if dec_val(lit) > i32::MAX as int {
                Err(SpecError::Overflow { literal: lit })
            } else {
                Ok(
                    (
                        SpecExpr::Lit(SpecPrim::Num(dec_val(lit))),
                        w + n + ws_count(s, p + n),
                    ),
                )
            }
        } else if s[p as int] == '"' {
            match scan_string(s, p + 1) {
                Ok((decoded, m)) => Ok(
                    (
                        SpecExpr::Lit(SpecPrim::Str(decoded)),
                        w + 1 + m + ws_count(s, p + 1 + m),
                    ),
                ),
                Err(e) => Err(e),
            }
        } else if s[p as int] == '[' {
            match spec_parse_args(s, p + 1, ']', true, (d - 1) as nat) {
                Ok((elems, m)) => Ok(
                    (
                        SpecExpr::Op(OperatorType::List, elems),
                        w + 1 + m + ws_count(s, p + 1 + m),
                    ),
                ),
                Err(e) => Err(e),
            }
        } else if is_ident_start_char(s[p as int]) {
            let n = ident_count(s, p);
            let id = s.subrange(p as int, (p + n) as int);
            if id == "true"@ {
                Ok((SpecExpr::Lit(SpecPrim::Bool(true)), w + n + ws_count(s, p + n)))
            } else if id == "false"@ {
                Ok((SpecExpr::Lit(SpecPrim::Bool(false)), w + n + ws_count(s, p + n)))
            } else {
                match op_for_name(id) {
                    Some(op) => {
                        let r = p + n + ws_count(s, p + n);
                        if r < s.len() && s[r as int] == '(' {
                            match spec_parse_args(s, r + 1, ')', true, (d - 1) as nat) {
                                Ok((args, m)) => Ok(
                                    (
                                        SpecExpr::Op(op, args),
                                        ((r - i) + 1 + m + ws_count(s, r + 1 + m)) as nat,
                                    ),
                                ),
                                Err(e) => Err(e),
                            }
                        } else {
                            Err(
                                SpecError::Syntax {
                                    position: r,
                                    expected: ExpectedToken::OpenParen,
                                },
                            )
                        }
                    },
                    None => Err(SpecError::UnknownOperator { name: id }),
                }
            }
        } else {
            Err(SpecError::Syntax { position: p, expected: ExpectedToken::Expression })
        }
    }
}

/// Reads the arguments of an operator of `s` starting at `i`, the position
/// right after `(` or `[`, up to and including the closing character
/// `close`.  `first` is false after a comma, where at least one further
/// argument is required (a trailing comma is not permitted).  On success,
/// yields the argument expressions and the number of characters consumed,
/// the closing character included.
pub open spec fn spec_parse_args(
    s: Seq<char>,
    i: nat,
    close: char,
    first: bool,
    d: nat,
) -> Result<(Seq<SpecExpr>, nat), SpecError>
    decreases d, s.len() - i, 1int,
{
    let w = ws_count(s, i);
    let p = i + w;
    if first && p < s.len() && s[p as int] == close {
        Ok((Seq::empty(), w + 1))
    } else {
        match spec_parse_expr(s, i, d) {
            Ok((e, n)) => {
                let q = i + n;
                if q < s.len() && s[q as int] == ',' {
                    match spec_parse_args(s, q + 1, close, false, d) {
                        Ok((rest, m)) => Ok((seq![e] + rest, n + 1 + m)),
                        Err(err) => Err(err),
                    }
                } else if q < s.len() && s[q as int] == close {
                    Ok((seq![e], n + 1))
                } else {
                    Err(SpecError::Syntax { position: q, expected: comma_or_close(close) })
                }
            },
            Err(err) => Err(err),
        }
    }
}

/// The expression a whole input denotes, or the error the parser reports:
/// one expression, surrounded by optional whitespace, consuming the whole
/// input, with nesting bounded by `crate::MAX_DEPTH`.
pub open spec fn spec_parse(s: Seq<char>) -> Result<SpecExpr, SpecError> {
    match spec_parse_expr(s, 0, crate::MAX_DEPTH as nat) {
        Ok((e, n)) => {
            if n == s.len() {
                Ok(e)
            } else {
                Err(SpecError::Syntax { position: n, expected: ExpectedToken::EndOfInput })
            }
        },
        Err(err) => Err(err),
    }
}

} // verus!
