use rule_expr::{parse_and_eval, parse_expr, ExpectedToken, RuleError, ValueShape};

#[test]
fn unknown_operator() {
    match parse_and_eval("unknown(1,2)") {
        Err(RuleError::UnknownOperatorError { name }) => assert_eq!(name, "unknown"),
        other => panic!("expected unknown-operator error, got {:?}", other),
    }
}

#[test]
fn and_of_num_is_type_error() {
    match parse_and_eval("and(1, true)") {
        Err(RuleError::TypeError { expected, found, at }) => {
            assert_eq!(expected, ValueShape::Bool);
            assert_eq!(found, ValueShape::Num);
            assert_eq!(at, 0);
        },
        other => panic!("expected type error, got {:?}", other),
    }
}

#[test]
fn and_checks_every_argument() {
    match parse_and_eval("and(false, 1)") {
        Err(RuleError::TypeError { expected, found, at }) => {
            assert_eq!(expected, ValueShape::Bool);
            assert_eq!(found, ValueShape::Num);
            assert_eq!(at, 1);
        },
        other => panic!("expected type error, got {:?}", other),
    }
}

#[test]
fn or_of_str_is_type_error() {
    match parse_and_eval("or(\"s\")") {
        Err(RuleError::TypeError { expected, found, at }) => {
            assert_eq!(expected, ValueShape::Bool);
            assert_eq!(found, ValueShape::Str);
            assert_eq!(at, 0);
        },
        other => panic!("expected type error, got {:?}", other),
    }
}

#[test]
fn lists_do_not_flatten() {
    match parse_and_eval("[[1]]") {
        Err(RuleError::TypeError { expected, found, at }) => {
            assert_eq!(expected, ValueShape::AnySingle);
            assert_eq!(found, ValueShape::Repeated);
            assert_eq!(at, 0);
        },
        other => panic!("expected type error, got {:?}", other),
    }
}

#[test]
fn repeated_under_and_is_type_error() {
    match parse_and_eval("and([1])") {
        Err(RuleError::TypeError { expected, found, at }) => {
            assert_eq!(expected, ValueShape::Bool);
            assert_eq!(found, ValueShape::Repeated);
            assert_eq!(at, 0);
        },
        other => panic!("expected type error, got {:?}", other),
    }
}

#[test]
fn integer_overflow() {
    match parse_and_eval("2147483648") {
        Err(RuleError::NumericOverflowError { literal_text }) => {
            assert_eq!(literal_text, "2147483648");
        },
        other => panic!("expected overflow error, got {:?}", other),
    }
}

#[test]
fn empty_input_is_syntax_error() {
    match parse_expr("") {
        Err(RuleError::SyntaxError { position, expected }) => {
            assert_eq!(position, 0);
            assert_eq!(expected, ExpectedToken::Expression);
        },
        other => panic!("expected syntax error, got {:?}", other),
    }
}

#[test]
fn trailing_comma_rejected() {
    match parse_expr("[1,]") {
        Err(RuleError::SyntaxError { position, expected }) => {
            assert_eq!(position, 3);
            assert_eq!(expected, ExpectedToken::Expression);
        },
        other => panic!("expected syntax error, got {:?}", other),
    }
}

#[test]
fn operator_name_without_paren() {
    match parse_expr("and true") {
        Err(RuleError::SyntaxError { position, expected }) => {
            assert_eq!(position, 4);
            assert_eq!(expected, ExpectedToken::OpenParen);
        },
        other => panic!("expected syntax error, got {:?}", other),
    }
}

#[test]
fn unterminated_string() {
    match parse_expr("\"abc") {
        Err(RuleError::SyntaxError { position, expected }) => {
            assert_eq!(position, 4);
            assert_eq!(expected, ExpectedToken::CloseQuote);
        },
        other => panic!("expected syntax error, got {:?}", other),
    }
}

#[test]
fn unknown_escape_sequence() {
    match parse_expr("\"a\\x\"") {
        Err(RuleError::SyntaxError { position, expected }) => {
            assert_eq!(position, 3);
            assert_eq!(expected, ExpectedToken::EscapeChar);
        },
        other => panic!("expected syntax error, got {:?}", other),
    }
}

#[test]
fn trailing_characters_rejected() {
    match parse_expr("228abc") {
        Err(RuleError::SyntaxError { position, expected }) => {
            assert_eq!(position, 3);
            assert_eq!(expected, ExpectedToken::EndOfInput);
        },
        other => panic!("expected syntax error, got {:?}", other),
    }
}

#[test]
fn missing_argument_separator() {
    match parse_expr("[1 2]") {
        Err(RuleError::SyntaxError { position, expected }) => {
            assert_eq!(position, 3);
            assert_eq!(expected, ExpectedToken::CommaOrCloseBracket);
        },
        other => panic!("expected syntax error, got {:?}", other),
    }
}

#[test]
fn list_is_not_a_call_name() {
    match parse_and_eval("list(1,2)") {
        Err(RuleError::UnknownOperatorError { name }) => assert_eq!(name, "list"),
        other => panic!("expected unknown-operator error, got {:?}", other),
    }
}

#[test]
fn deep_nesting_hits_recursion_limit() {
    let mut text = String::new();
    for _ in 0..70 {
        text.push('[');
    }
    text.push('1');
    for _ in 0..70 {
        text.push(']');
    }
    match parse_expr(&text) {
        Err(RuleError::RecursionLimitExceeded) => {},
        other => panic!("expected recursion limit error, got {:?}", other),
    }
}

#[test]
fn nesting_within_limit_parses() {
    let mut text = String::new();
    for _ in 0..20 {
        text.push('[');
    }
    text.push('1');
    for _ in 0..20 {
        text.push(']');
    }
    assert!(parse_expr(&text).is_ok());
}
