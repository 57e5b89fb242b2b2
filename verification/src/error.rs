//! Typed errors of the parser and the evaluator, and their models.

use vstd::prelude::*;

verus! {

/// What the parser was looking for at the position of a syntax error.
#[derive(Clone, Copy, Debug, PartialEq, Eq, Structural)]
pub enum ExpectedToken {
    /// The start of a literal or of an operator expression.
    Expression,
    /// `(` after the name of an operator.
    OpenParen,
    /// `,` or `)` after an argument of an operator call.
    CommaOrCloseParen,
    /// `,` or `]` after an element of a list literal.
    CommaOrCloseBracket,
    /// The closing `"` of a string literal.
    CloseQuote,
    /// `"` or `\` after a backslash inside a string literal.
    EscapeChar,
    /// The end of the input, after a complete expression.
    EndOfInput,
}

/// The shape of an evaluated value, as reported by a type error.
#[derive(Clone, Copy, Debug, PartialEq, Eq, Structural)]
pub enum ValueShape {
    /// A single numeric value.
    Num,
    /// A single string value.
    Str,
    /// A single boolean value.
    Bool,
    /// A single value of any primitive kind.
    AnySingle,
    /// A repeated (list) value.
    Repeated,
}

/// Everything that can go wrong while parsing or evaluating an expression.
#[derive(Debug, PartialEq)]
pub enum RuleError {
    /// The input does not match the grammar at `position` (an index into
    /// the sequence of characters of the input).
    SyntaxError { position: usize, expected: ExpectedToken },
    /// A well-formed call identifier is not one of the known operators.
    UnknownOperatorError { name: String },
    /// An integer literal whose decimal value exceeds the 32-bit
    /// signed range.
    NumericOverflowError { literal_text: String },
    /// An operator received an argument whose evaluated shape violates its
    /// contract; `at` is the index of the argument within the operator.
    TypeError { expected: ValueShape, found: ValueShape, at: usize },
    /// The nesting depth guard tripped during parsing or evaluation.
    RecursionLimitExceeded,
}

/// Model of a [`RuleError`].
pub ghost enum SpecError {
    Syntax { position: nat, expected: ExpectedToken },
    UnknownOperator { name: Seq<char> },
    Overflow { literal: Seq<char> },
    TypeMismatch { expected: ValueShape, found: ValueShape, at: nat },
    Depth,
}

impl View for RuleError {
    type V = SpecError;

    open spec fn view(&self) -> SpecError {
        match self {
            RuleError::SyntaxError { position, expected } => SpecError::Syntax {
                position: *position as nat,
                expected: *expected,
            },
            RuleError::UnknownOperatorError { name } => SpecError::UnknownOperator {
                name: name@,
            },
            RuleError::NumericOverflowError { literal_text } => SpecError::Overflow {
                literal: literal_text@,
            },
            RuleError::TypeError { expected, found, at } => SpecError::TypeMismatch {
                expected: *expected,
                found: *found,
                at: *at as nat,
            },
            RuleError::RecursionLimitExceeded => SpecError::Depth,
        }
    }
}

} // verus!
