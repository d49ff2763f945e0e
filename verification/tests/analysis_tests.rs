use rustmodlica::analysis::{
    clock_derived_op,
    collect_states_from_eq, collect_states_from_expr, expr_contains_array_comprehension,
    expr_contains_array_literal, is_record_constructor_call_name, is_store_target_expr, normalize_der,
    symbolic_safe_expr,
};
use rustmodlica::ast::{Equation, Expression, Operator};
use rustmodlica::names::{
    import_call_abi_tag, jit_scalar_name_bound, pre_scalar_name_bound, stream_flow_name_for,
    stream_flow_name_heuristic, stream_peer_names, value_name_exists, TranslationNames,
};

fn var(n: &str) -> Expression {
    Expression::Variable(n.to_string())
}

fn num(t: &str) -> Expression {
    Expression::Number(t.to_string())
}

fn der(e: Expression) -> Expression {
    Expression::Der(Box::new(e))
}

fn names() -> TranslationNames {
    TranslationNames {
        states: vec!["x".to_string()],
        discretes: vec!["d".to_string()],
        outputs: vec!["y".to_string()],
        params: vec!["k".to_string()],
        stack_slots: vec!["tmp".to_string()],
        vars: vec!["v".to_string()],
        arrays: vec!["arr".to_string()],
        array_storage: vec!["buf".to_string()],
        stream_flow_map: vec![("port_h_outflow".to_string(), "port_flow".to_string())],
        stream_connection_set: vec![("a_h_outflow".to_string(), vec!["b_h_outflow".to_string()])],
    }
}

#[test]
fn states_are_the_variables_under_der() {
    let eq = Equation::Simple(der(var("x")), Expression::BinaryOp(Box::new(der(var("y"))), Operator::Add, Box::new(var("z"))));
    let mut states = Vec::new();
    collect_states_from_eq(&eq, &mut states);
    states.sort();
    assert_eq!(states, vec!["x".to_string(), "y".to_string()]);
    collect_states_from_expr(&der(var("x")), &mut states);
    assert_eq!(states.len(), 2);
}

#[test]
fn der_of_a_variable_becomes_a_name() {
    let e = Expression::BinaryOp(Box::new(der(var("x"))), Operator::Mul, Box::new(num("2")));
    match normalize_der(&e) {
        Expression::BinaryOp(l, Operator::Mul, _) => assert!(matches!(*l, Expression::Variable(ref n) if n == "der_x")),
        _ => panic!("expected a product"),
    }
    assert!(matches!(normalize_der(&der(der(var("x")))), Expression::Der(inner) if matches!(*inner, Expression::Variable(ref n) if n == "der_x")));
}

#[test]
fn array_literal_and_comprehension_are_found() {
    let lit = Expression::Call("f".to_string(), vec![num("1"), Expression::ArrayLiteral(vec![num("2")])]);
    assert!(expr_contains_array_literal(&lit));
    assert!(!expr_contains_array_literal(&var("x")));
    let comp = Expression::ArrayComprehension { expr: Box::new(var("i")), iter_var: "i".to_string(), iter_range: Box::new(num("3")) };
    assert!(expr_contains_array_comprehension(&Expression::ArrayLiteral(vec![comp])));
    assert!(!expr_contains_array_comprehension(&lit));
}

#[test]
fn store_targets() {
    assert!(is_store_target_expr(&var("x")));
    assert!(is_store_target_expr(&Expression::BinaryOp(Box::new(num("0.0")), Operator::Sub, Box::new(var("x")))));
    assert!(!is_store_target_expr(&Expression::BinaryOp(Box::new(num("1")), Operator::Sub, Box::new(var("x")))));
    assert!(!is_store_target_expr(&num("3")));
}

#[test]
fn record_constructor_names() {
    assert!(is_record_constructor_call_name("Complex"));
    assert!(!is_record_constructor_call_name("sin"));
    assert!(!is_record_constructor_call_name("Modelica.Complex"));
    assert!(!is_record_constructor_call_name(""));
}

#[test]
fn symbolic_safety() {
    let ok = Expression::Call("sin".to_string(), vec![var("x")]);
    assert!(symbolic_safe_expr(&ok));
    assert!(symbolic_safe_expr(&Expression::Call("atan2".to_string(), vec![var("y"), var("x")])));
    assert!(!symbolic_safe_expr(&Expression::Call("foo".to_string(), vec![var("x")])));
    assert!(!symbolic_safe_expr(&der(var("x"))));
}

#[test]
fn bound_names() {
    let t = names();
    assert!(value_name_exists(&t, "x"));
    assert!(!value_name_exists(&t, "nope"));
    assert!(jit_scalar_name_bound(&t, "der_x"));
    assert!(jit_scalar_name_bound(&t, "buf_3"));
    assert!(!jit_scalar_name_bound(&t, "buf_x"));
    assert!(pre_scalar_name_bound(&t, "d"));
    assert!(!pre_scalar_name_bound(&t, "y"));
}

#[test]
fn stream_names() {
    let t = names();
    assert_eq!(stream_flow_name_heuristic("pipe_h_outflow"), Some("pipe_m_flow".to_string()));
    assert_eq!(stream_flow_name_heuristic("pipe"), None);
    assert_eq!(stream_flow_name_for(&t, "port_h_outflow"), Some("port_flow".to_string()));
    assert_eq!(stream_flow_name_for(&t, "q_h_outflow"), Some("q_m_flow".to_string()));
    assert_eq!(stream_peer_names(&t, "a_h_outflow"), vec!["b_h_outflow".to_string()]);
    assert!(stream_peer_names(&t, "zzz").is_empty());
}

#[test]
fn abi_tags() {
    let t = names();
    let args = vec![
        Expression::ArrayLiteral(vec![num("1"), num("2")]),
        Expression::ArrayLiteral(vec![var("x")]),
        Expression::StringLiteral("s".to_string()),
        var("arr"),
        var("x"),
        num("1"),
    ];
    assert_eq!(import_call_abi_tag(&args, &t), "afsaff");
}

#[test]
fn clock_operators() {
    assert_eq!(clock_derived_op("backSample"), "backSample");
    assert_eq!(clock_derived_op("Modelica.Clocked.subSample"), "subSample");
    assert_eq!(clock_derived_op("x.superSample"), "superSample");
    assert_eq!(clock_derived_op("shiftSample"), "shiftSample");
    assert_eq!(clock_derived_op("mysubSample"), "shiftSample");
}
