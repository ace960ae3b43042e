use html_lang::ops::{apply_stack_op, saturating_div, saturating_mul, StackOp, Stop};
use html_lang::text::{int_to_decimal, parse_i64};
use html_lang::value::values_equal;
use html_lang::vars::VarContext;
use html_lang::HtmlValueType;
use std::collections::VecDeque;

fn arr(items: Vec<HtmlValueType>) -> HtmlValueType {
    HtmlValueType::Array(items)
}

fn s(t: &str) -> HtmlValueType {
    HtmlValueType::Str(t.to_string())
}

#[test]
fn display_of_each_kind() {
    assert_eq!(HtmlValueType::Int(-12).to_display_string(), "-12");
    assert_eq!(HtmlValueType::Bool(true).to_display_string(), "true");
    assert_eq!(HtmlValueType::Null.to_display_string(), "null");
    assert_eq!(s("hi").to_display_string(), "hi");
    assert_eq!(
        arr(vec![HtmlValueType::Int(1), arr(vec![s("a"), HtmlValueType::Null]), arr(vec![])])
            .to_display_string(),
        "[1, [a, null], []]"
    );
}

#[test]
fn equality_is_structural() {
    let a = arr(vec![HtmlValueType::Int(1), s("x")]);
    let b = arr(vec![HtmlValueType::Int(1), s("x")]);
    let c = arr(vec![HtmlValueType::Int(1), s("y")]);
    assert!(values_equal(&a, &b));
    assert!(!values_equal(&a, &c));
    assert!(a == b);
    assert!(HtmlValueType::Null != HtmlValueType::Bool(false));
    assert!(a.clone() == a);
}

#[test]
fn decimal_rendering() {
    assert_eq!(int_to_decimal(0), "0");
    assert_eq!(int_to_decimal(i64::MIN), "-9223372036854775808");
    assert_eq!(int_to_decimal(i64::MAX), "9223372036854775807");
}

#[test]
fn integer_parsing() {
    assert_eq!(parse_i64("+5"), Some(5));
    assert_eq!(parse_i64("-0"), Some(0));
    assert_eq!(parse_i64("007"), Some(7));
    assert_eq!(parse_i64(""), None);
    assert_eq!(parse_i64("-"), None);
    assert_eq!(parse_i64(" 1"), None);
    assert_eq!(parse_i64("9223372036854775808"), None);
    assert_eq!(parse_i64("-9223372036854775808"), Some(i64::MIN));
    assert_eq!(parse_i64("99999999999999999999999"), None);
    for n in [0i64, 1, -1, 123456789, i64::MIN, i64::MAX] {
        assert_eq!(parse_i64(&int_to_decimal(n)), Some(n));
    }
}

#[test]
fn saturating_arithmetic() {
    assert_eq!(saturating_div(i64::MIN, -1), i64::MAX);
    assert_eq!(saturating_div(7, -2), -3);
    assert_eq!(saturating_mul(i64::MAX, 2), i64::MAX);
    assert_eq!(saturating_mul(i64::MIN, 2), i64::MIN);
}

#[test]
fn stack_ops_take_their_operands() {
    let mut st: VecDeque<HtmlValueType> = VecDeque::new();
    st.push_front(HtmlValueType::Int(1));
    st.push_front(s("a"));
    let r = apply_stack_op(StackOp::Dd, &mut st);
    assert!(matches!(r, Err(Stop::Error(_))));
    assert!(st.is_empty());

    let mut st: VecDeque<HtmlValueType> = VecDeque::new();
    st.push_front(arr(vec![HtmlValueType::Int(1)]));
    st.push_front(arr(vec![HtmlValueType::Int(2)]));
    apply_stack_op(StackOp::Dd, &mut st).unwrap();
    assert_eq!(st.len(), 1);
    assert_eq!(st[0].to_display_string(), "[1, 2]");

    apply_stack_op(StackOp::Dt, &mut st).unwrap();
    assert_eq!(st.len(), 2);
    apply_stack_op(StackOp::Del, &mut st).unwrap();
    apply_stack_op(StackOp::Del, &mut st).unwrap();
    apply_stack_op(StackOp::Del, &mut st).unwrap();
    assert!(st.is_empty());
}

#[test]
fn variables_are_replaced() {
    let mut vars = VarContext::new();
    vars.insert("x".to_string(), HtmlValueType::Int(1));
    vars.insert("x".to_string(), HtmlValueType::Int(2));
    let copy = vars.duplicate();
    vars.insert("y".to_string(), HtmlValueType::Null);
    assert!(vars.lookup(&"x".to_string()) == Some(HtmlValueType::Int(2)));
    assert!(copy.lookup(&"y".to_string()).is_none());
}

#[test]
fn copy_then_drop_restores_the_stack() {
    let mut st: VecDeque<HtmlValueType> = VecDeque::new();
    st.push_front(HtmlValueType::Int(3));
    st.push_front(s("top"));
    apply_stack_op(StackOp::Dt, &mut st).unwrap();
    apply_stack_op(StackOp::Del, &mut st).unwrap();
    assert_eq!(st.len(), 2);
    assert!(st[0] == s("top"));
    assert!(st[1] == HtmlValueType::Int(3));
}

#[test]
fn copy_is_equal_to_itself() {
    let mut st: VecDeque<HtmlValueType> = VecDeque::new();
    st.push_front(arr(vec![HtmlValueType::Null]));
    apply_stack_op(StackOp::Dt, &mut st).unwrap();
    apply_stack_op(StackOp::Em, &mut st).unwrap();
    assert_eq!(st.len(), 1);
    assert!(st[0] == HtmlValueType::Bool(true));
}
