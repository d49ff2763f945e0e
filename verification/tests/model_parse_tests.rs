use rustmodlica::ast::{Equation, Expression};
use rustmodlica::model::ClassItem;
use rustmodlica::parse_class::make_alias_model;
use rustmodlica::parser::{
    normalize_identifier, parse, parse_all, parse_expression_from_str, parse_model,
    try_parse_connector_alias_file, ModelicaParser, ParseError, Rule,
};

#[test]
fn test_parse_partial_model() {
    let input = "partial model Foo Real x; end Foo;";
    let mut pairs = ModelicaParser::parse(Rule::model_definition, input).ok().expect("parse failed");
    let item = parse_model(pairs.next().unwrap()).ok().expect("parse_model failed");
    match item {
        ClassItem::Model(m) => {
            assert!(m.is_partial, "Expected is_partial=true for 'partial model Foo'");
            assert_eq!(m.name, "Foo");
        }
        _ => panic!("Expected Model"),
    }
}

#[test]
fn test_parse_non_partial_model() {
    let input = "model Foo Real x; end Foo;";
    let mut pairs = ModelicaParser::parse(Rule::model_definition, input).ok().expect("parse failed");
    let item = parse_model(pairs.next().unwrap()).ok().expect("parse_model failed");
    match item {
        ClassItem::Model(m) => {
            assert!(!m.is_partial, "Expected is_partial=false for non-partial model");
        }
        _ => panic!("Expected Model"),
    }
}

#[test]
fn model_with_declarations_and_equations() {
    let src = "model A parameter Real k = 2; Real x(start = 1); equation der(x) = -k * x; end A;";
    match parse(src) {
        Ok(ClassItem::Model(m)) => {
            assert_eq!(m.name, "A");
            assert_eq!(m.declarations.len(), 2);
            assert!(m.declarations[0].is_parameter);
            assert_eq!(m.declarations[0].name, "k");
            assert_eq!(m.declarations[1].name, "x");
            assert_eq!(m.equations.len(), 1);
            assert!(matches!(&m.equations[0], Equation::Simple(Expression::Der(_), _)));
        }
        _ => panic!("expected a model"),
    }
}

#[test]
fn function_becomes_function_item() {
    let src = "function f input Real x; output Real y; algorithm y := x; end f;";
    match parse(src) {
        Ok(ClassItem::Function(f)) => {
            assert_eq!(f.name, "f");
            assert_eq!(f.declarations.len(), 2);
            assert_eq!(f.algorithms.len(), 1);
        }
        _ => panic!("expected a function"),
    }
}

#[test]
fn every_class_of_a_file_is_returned_in_order() {
    let items = parse_all("model A Real x; end A; model B Real y; end B;").ok().unwrap();
    assert_eq!(items.len(), 2);
    match (&items[0], &items[1]) {
        (ClassItem::Model(a), ClassItem::Model(b)) => {
            assert_eq!(a.name, "A");
            assert_eq!(b.name, "B");
        }
        _ => panic!("expected two models"),
    }
}

#[test]
fn unclosed_model_is_a_syntax_error() {
    assert!(matches!(parse("model A Real x;"), Err(ParseError::Syntax)));
}

#[test]
fn empty_file_has_no_class() {
    assert!(matches!(parse("   \n "), Err(ParseError::Empty)));
}

#[test]
fn stray_character_is_a_lexical_error() {
    assert!(matches!(parse_all("model A $ end A;"), Err(ParseError::Lex(8))));
}

#[test]
fn nested_class_is_an_inner_class() {
    match parse("model A model B Real x; end B; B b; end A;") {
        Ok(ClassItem::Model(m)) => {
            assert_eq!(m.inner_classes.len(), 1);
            assert_eq!(m.inner_classes[0].name, "B");
            assert!(m.find_inner_class("B").is_some());
            assert!(m.find_inner_class("C").is_none());
        }
        _ => panic!("expected a model"),
    }
}

#[test]
fn expression_precedence() {
    match parse_expression_from_str("1 + 2 * x") {
        Ok(Expression::BinaryOp(l, _, r)) => {
            assert!(matches!(*l, Expression::Number(ref s) if s == "1"));
            assert!(matches!(*r, Expression::BinaryOp(..)));
        }
        _ => panic!("expected a sum"),
    }
}

#[test]
fn normalize_identifier_trims_and_unquotes() {
    assert_eq!(normalize_identifier("  'my var'  "), "my var");
    assert_eq!(normalize_identifier("x"), "x");
}

#[test]
fn connector_alias_file() {
    let r = try_parse_connector_alias_file("connector RealInput = input Real;");
    assert_eq!(r, Some(("RealInput".to_string(), "Real".to_string())));
    assert_eq!(try_parse_connector_alias_file("model A end A;"), None);
}

#[test]
fn alias_model_records_its_base() {
    match make_alias_model("RealInput".to_string(), "Real".to_string()) {
        ClassItem::Model(m) => {
            assert_eq!(m.name, "RealInput");
            assert_eq!(m.type_aliases, vec![("RealInput".to_string(), "Real".to_string())]);
            assert!(m.extends.is_empty());
        }
        _ => panic!("expected a model"),
    }
}
