use rule_expr::{eval_expr, parse_expr, ExpressionValue, PrimitiveValue};

#[test]
fn num_literal() {
    let expr = parse_expr("228").unwrap();
    if let Ok(ExpressionValue::Single(PrimitiveValue::Num(val))) = eval_expr(&expr) {
        assert_eq!(val, 228);
    } else {
        panic!("Expected single number");
    }
}

#[test]
fn str_literal() {
    let expr = parse_expr("\"str 123!\"").unwrap();
    if let Ok(ExpressionValue::Single(PrimitiveValue::Str(s))) = eval_expr(&expr) {
        assert_eq!(s, "str 123!");
    } else {
        panic!("Expected single string");
    }
}

#[test]
fn bool_literal() {
    let expr = parse_expr("false").unwrap();
    if let Ok(ExpressionValue::Single(PrimitiveValue::Bool(b))) = eval_expr(&expr) {
        assert_eq!(b, false);
    } else {
        panic!("Expected single bool");
    }
}

#[test]
fn list_operator() {
    let expr = parse_expr("[1, 2]").unwrap();
    if let Ok(ExpressionValue::Repeated(lst)) = eval_expr(&expr) {
        let v: Vec<_> = lst
            .iter()
            .map(|x| if let &PrimitiveValue::Num(ref v) = x { *v } else { 0 })
            .collect();
        assert_eq!(v, vec![1, 2]);
    } else {
        panic!("Expected repeated");
    }
}

#[test]
fn nested_operators() {
    let expr = parse_expr("and(true, or(true, false), and(true, true))").unwrap();
    if let Ok(ExpressionValue::Single(PrimitiveValue::Bool(b))) = eval_expr(&expr) {
        assert_eq!(b, true);
    } else {
        panic!("Expected single bool");
    }
}

#[test]
fn parse_and_eval_num() {
    let r = rule_expr::parse_and_eval("228").unwrap();
    assert_eq!(r, ExpressionValue::Single(PrimitiveValue::Num(228)));
}

#[test]
fn parse_and_eval_str() {
    let r = rule_expr::parse_and_eval("\"str 123!\"").unwrap();
    assert_eq!(
        r,
        ExpressionValue::Single(PrimitiveValue::Str(String::from("str 123!")))
    );
}

#[test]
fn parse_and_eval_bool() {
    let r = rule_expr::parse_and_eval("false").unwrap();
    assert_eq!(r, ExpressionValue::Single(PrimitiveValue::Bool(false)));
}

#[test]
fn parse_and_eval_list() {
    let r = rule_expr::parse_and_eval("[1, 2]").unwrap();
    assert_eq!(
        r,
        ExpressionValue::Repeated(vec![PrimitiveValue::Num(1), PrimitiveValue::Num(2)])
    );
}

#[test]
fn parse_and_eval_nested() {
    let r = rule_expr::parse_and_eval("and(true, or(true, false), and(true, true))").unwrap();
    assert_eq!(r, ExpressionValue::Single(PrimitiveValue::Bool(true)));
}

#[test]
fn heterogeneous_list() {
    let r = rule_expr::parse_and_eval("[1, \"a\", true]").unwrap();
    assert_eq!(
        r,
        ExpressionValue::Repeated(vec![
            PrimitiveValue::Num(1),
            PrimitiveValue::Str(String::from("a")),
            PrimitiveValue::Bool(true),
        ])
    );
}

#[test]
fn whitespace_everywhere() {
    let r = rule_expr::parse_and_eval("  and ( true , false )  ").unwrap();
    assert_eq!(r, ExpressionValue::Single(PrimitiveValue::Bool(false)));
}

#[test]
fn empty_and_is_true() {
    let r = rule_expr::parse_and_eval("and()").unwrap();
    assert_eq!(r, ExpressionValue::Single(PrimitiveValue::Bool(true)));
}

#[test]
fn empty_or_is_false() {
    let r = rule_expr::parse_and_eval("or( )").unwrap();
    assert_eq!(r, ExpressionValue::Single(PrimitiveValue::Bool(false)));
}

#[test]
fn empty_list() {
    let r = rule_expr::parse_and_eval("[]").unwrap();
    assert_eq!(r, ExpressionValue::Repeated(vec![]));
}

#[test]
fn string_escapes_resolved() {
    let r = rule_expr::parse_and_eval("\"a\\\"b\\\\c\"").unwrap();
    assert_eq!(
        r,
        ExpressionValue::Single(PrimitiveValue::Str(String::from("a\"b\\c")))
    );
}

#[test]
fn empty_string_literal() {
    let r = rule_expr::parse_and_eval("\"\"").unwrap();
    assert_eq!(r, ExpressionValue::Single(PrimitiveValue::Str(String::new())));
}

#[test]
fn max_in_range_literal() {
    let r = rule_expr::parse_and_eval("2147483647").unwrap();
    assert_eq!(r, ExpressionValue::Single(PrimitiveValue::Num(2147483647)));
}

#[test]
fn leading_zeros_stay_in_range() {
    let r = rule_expr::parse_and_eval("0000000000000").unwrap();
    assert_eq!(r, ExpressionValue::Single(PrimitiveValue::Num(0)));
}

#[test]
fn evaluation_is_deterministic() {
    let expr = parse_expr("[1, \"a\", and(true, false)]").unwrap();
    let first = eval_expr(&expr).unwrap();
    let second = eval_expr(&expr).unwrap();
    assert_eq!(first, second);
}
