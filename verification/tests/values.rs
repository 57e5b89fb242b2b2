use rule_expr::{
    eval_expr, eval_literal, eval_operator, parse_expr, parse_func_name, ExpressionValue,
    LiteralExpression, OperatorExpression, OperatorType, PrimitiveValue, RuleError,
    RuleExpression,
};

#[test]
fn func_name_and() {
    assert_eq!(parse_func_name("and").unwrap(), OperatorType::And);
}

#[test]
fn func_name_or() {
    assert_eq!(parse_func_name("or").unwrap(), OperatorType::Or);
}

#[test]
fn func_name_unknown() {
    match parse_func_name("andy") {
        Err(RuleError::UnknownOperatorError { name }) => assert_eq!(name, "andy"),
        other => panic!("expected unknown-operator error, got {:?}", other),
    }
}

#[test]
fn literal_evaluation() {
    assert_eq!(
        eval_literal(&LiteralExpression::Num(7)),
        PrimitiveValue::Num(7)
    );
    assert_eq!(
        eval_literal(&LiteralExpression::Str(String::from("x"))),
        PrimitiveValue::Str(String::from("x"))
    );
    assert_eq!(
        eval_literal(&LiteralExpression::Bool(true)),
        PrimitiveValue::Bool(true)
    );
}

#[test]
fn operator_evaluation_on_built_tree() {
    let op = OperatorExpression {
        operator_type: OperatorType::Or,
        args: vec![
            RuleExpression::Literal(Box::new(LiteralExpression::Bool(false))),
            RuleExpression::Literal(Box::new(LiteralExpression::Bool(true))),
        ],
    };
    let r = eval_operator(&op, 2).unwrap();
    assert_eq!(r, ExpressionValue::Single(PrimitiveValue::Bool(true)));
}

#[test]
fn empty_operator_vacuous_values() {
    let and = OperatorExpression { operator_type: OperatorType::And, args: vec![] };
    let or = OperatorExpression { operator_type: OperatorType::Or, args: vec![] };
    let list = OperatorExpression { operator_type: OperatorType::List, args: vec![] };
    assert_eq!(
        eval_operator(&and, 2).unwrap(),
        ExpressionValue::Single(PrimitiveValue::Bool(true))
    );
    assert_eq!(
        eval_operator(&or, 2).unwrap(),
        ExpressionValue::Single(PrimitiveValue::Bool(false))
    );
    assert_eq!(eval_operator(&list, 2).unwrap(), ExpressionValue::Repeated(vec![]));
}

#[test]
fn single_value_accessors() {
    let expr = parse_expr("true").unwrap();
    let v = eval_expr(&expr).unwrap();
    assert_eq!(v.to_bool(), true);
    assert_eq!(v.to_single(), PrimitiveValue::Bool(true));
}

#[test]
fn num_value_accessor() {
    let expr = parse_expr("41").unwrap();
    let v = eval_expr(&expr).unwrap();
    assert_eq!(v.to_single(), PrimitiveValue::Num(41));
}

#[test]
fn underscore_identifier_is_unknown_operator() {
    match parse_expr("_x(1)") {
        Err(RuleError::UnknownOperatorError { name }) => assert_eq!(name, "_x"),
        other => panic!("expected unknown-operator error, got {:?}", other),
    }
}

#[test]
fn boolean_is_matched_in_full() {
    match parse_expr("truex") {
        Err(RuleError::UnknownOperatorError { name }) => assert_eq!(name, "truex"),
        other => panic!("expected unknown-operator error, got {:?}", other),
    }
}
