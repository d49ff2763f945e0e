use rustmodlica::ast::{Equation, Expression, Operator};
use rustmodlica::vectorize::{
    cluster_equations, extract_array_index, substitute_loop_index, CompileUnit, VectorOp, DEFAULT_FOR_EXPAND_MAX,
};

fn var(name: &str) -> Expression {
    Expression::Variable(name.to_string())
}

fn bin(a: Expression, op: Operator, b: Expression) -> Expression {
    Expression::BinaryOp(Box::new(a), op, Box::new(b))
}

fn cluster(eqs: &[Equation]) -> Vec<CompileUnit> {
    cluster_equations(eqs, &[], 1024)
}

fn indexed(range: std::ops::RangeInclusive<usize>, op: Operator) -> Vec<Equation> {
    range
        .map(|i| {
            Equation::Simple(
                var(&format!("y_{i}")),
                bin(var(&format!("a_{i}")), op, var(&format!("b_{i}"))),
            )
        })
        .collect()
}

#[test]
fn test_extract_array_index_simple() {
    let expr = var("x_3");
    let (base, idx) = extract_array_index(&expr).unwrap();
    assert_eq!(base, "x");
    assert_eq!(idx, 3);
}

#[test]
fn test_extract_array_index_no_suffix() {
    let expr = var("plain");
    assert!(extract_array_index(&expr).is_none());
}

#[test]
fn test_extract_array_index_multi_underscore() {
    let expr = var("my_var_7");
    let (base, idx) = extract_array_index(&expr).unwrap();
    assert_eq!(base, "my_var");
    assert_eq!(idx, 7);
}

#[test]
fn test_cluster_empty() {
    let units = cluster(&[]);
    assert!(units.is_empty());
}

#[test]
fn test_cluster_insufficient_for_vector() {
    let eqs = indexed(1..=3, Operator::Add);
    let units = cluster(&eqs);
    assert_eq!(units.len(), 1);
    assert!(matches!(&units[0], CompileUnit::Vector(g) if g.lo == 1 && g.hi == 3));
}

#[test]
fn test_cluster_minimal_vector_group() {
    let eqs = indexed(1..=2, Operator::Add);
    let units = cluster(&eqs);
    assert_eq!(units.len(), 1);
    match &units[0] {
        CompileUnit::Vector(g) => {
            assert_eq!(g.dst_base, "y");
            assert_eq!(g.lo, 1);
            assert_eq!(g.hi, 2);
            assert_eq!(g.op, VectorOp::Add);
        }
        _ => panic!("expected Vector unit"),
    }
}

#[test]
fn test_cluster_mixed_scalar_and_vector() {
    let mut eqs = vec![Equation::Simple(var("z"), Expression::Number("42.0".to_string()))];
    for i in 1..=4 {
        eqs.push(Equation::Simple(
            var(&format!("x_{i}")),
            bin(var(&format!("p_{i}")), Operator::Mul, var(&format!("q_{i}"))),
        ));
    }
    eqs.push(Equation::Simple(var("w"), Expression::Number("1.0".to_string())));
    let units = cluster(&eqs);
    assert_eq!(units.len(), 3);
    assert!(matches!(units[0], CompileUnit::Scalar(_)));
    assert!(matches!(units[1], CompileUnit::Vector(_)));
    assert!(matches!(units[2], CompileUnit::Scalar(_)));
}

#[test]
fn test_cluster_different_ops_split_groups() {
    let mut eqs = indexed(1..=2, Operator::Add);
    eqs.extend(indexed(3..=4, Operator::Sub));
    let units = cluster(&eqs);
    assert_eq!(units.len(), 2);
    assert!(matches!(&units[0], CompileUnit::Vector(g) if g.op == VectorOp::Add && g.hi - g.lo + 1 == 2));
    assert!(matches!(&units[1], CompileUnit::Vector(g) if g.op == VectorOp::Sub && g.hi - g.lo + 1 == 2));
}

#[test]
fn test_cluster_index_skip_breaks_group() {
    let mut eqs = indexed(1..=2, Operator::Add);
    eqs.extend(indexed(4..=4, Operator::Add));
    let units = cluster(&eqs);
    assert_eq!(units.len(), 2);
    assert!(matches!(&units[0], CompileUnit::Vector(g) if g.lo == 1 && g.hi == 2));
    assert!(matches!(&units[1], CompileUnit::Scalar(_)));
}

#[test]
fn test_cluster_div_vector_group() {
    let eqs = indexed(1..=4, Operator::Div);
    let units = cluster(&eqs);
    assert_eq!(units.len(), 1);
    match &units[0] {
        CompileUnit::Vector(g) => {
            assert_eq!(g.op, VectorOp::Div);
            assert_eq!(g.lo, 1);
            assert_eq!(g.hi, 4);
        }
        _ => panic!("expected Vector unit for Div"),
    }
}

#[test]
fn test_cluster_fma_vector_group() {
    let eqs: Vec<Equation> = (1..=5)
        .map(|i| {
            Equation::Simple(
                var(&format!("y_{i}")),
                bin(
                    bin(var(&format!("a_{i}")), Operator::Mul, var(&format!("b_{i}"))),
                    Operator::Add,
                    var(&format!("c_{i}")),
                ),
            )
        })
        .collect();
    let units = cluster(&eqs);
    assert_eq!(units.len(), 1);
    match &units[0] {
        CompileUnit::Vector(g) => {
            assert_eq!(g.op, VectorOp::Fma);
            assert_eq!(g.src_bases.len(), 3);
            assert_eq!(g.src_bases[0], "a");
            assert_eq!(g.src_bases[1], "b");
            assert_eq!(g.src_bases[2], "c");
        }
        _ => panic!("expected Vector unit for Fma"),
    }
}

#[test]
fn test_cluster_fma_reversed_order() {
    let eqs: Vec<Equation> = (1..=4)
        .map(|i| {
            Equation::Simple(
                var(&format!("y_{i}")),
                bin(
                    var(&format!("c_{i}")),
                    Operator::Add,
                    bin(var(&format!("a_{i}")), Operator::Mul, var(&format!("b_{i}"))),
                ),
            )
        })
        .collect();
    let units = cluster(&eqs);
    assert_eq!(units.len(), 1);
    match &units[0] {
        CompileUnit::Vector(g) => {
            assert_eq!(g.op, VectorOp::Fma);
            assert_eq!(g.src_bases[0], "a");
            assert_eq!(g.src_bases[1], "b");
            assert_eq!(g.src_bases[2], "c");
        }
        _ => panic!("expected Vector unit for Fma (reversed)"),
    }
}

#[test]
fn small_for_loop_is_expanded_before_clustering() {
    let body = vec![Equation::Simple(
        Expression::ArrayAccess(Box::new(var("y")), Box::new(var("i"))),
        bin(
            Expression::ArrayAccess(Box::new(var("a")), Box::new(var("i"))),
            Operator::Add,
            Expression::ArrayAccess(Box::new(var("b")), Box::new(var("i"))),
        ),
    )];
    let eqs = vec![Equation::For(
        "i".to_string(),
        Box::new(Expression::Number("1".to_string())),
        Box::new(Expression::Number("3".to_string())),
        body,
    )];
    let units = cluster_equations(&eqs, &[Some((1, 3))], 1024);
    assert_eq!(units.len(), 1);
    assert!(matches!(&units[0], CompileUnit::Vector(g) if g.lo == 1 && g.hi == 3 && g.dst_base == "y"));
}

#[test]
fn for_loop_longer_than_the_limit_stays_whole() {
    let eqs = vec![Equation::For(
        "i".to_string(),
        Box::new(Expression::Number("1".to_string())),
        Box::new(Expression::Number("3".to_string())),
        vec![Equation::Simple(var("x"), var("i"))],
    )];
    let units = cluster_equations(&eqs, &[Some((1, 3))], 2);
    assert_eq!(units.len(), 1);
    assert!(matches!(&units[0], CompileUnit::Scalar(Equation::For(..))));
}

fn indexed_loop(end: i64) -> Vec<Equation> {
    let body = vec![Equation::Simple(
        Expression::ArrayAccess(Box::new(var("y")), Box::new(var("i"))),
        bin(
            Expression::ArrayAccess(Box::new(var("a")), Box::new(var("i"))),
            Operator::Add,
            Expression::ArrayAccess(Box::new(var("b")), Box::new(var("i"))),
        ),
    )];
    vec![Equation::For(
        "i".to_string(),
        Box::new(Expression::Number("1".to_string())),
        Box::new(Expression::Number(end.to_string())),
        body,
    )]
}

#[test]
fn default_limit_keeps_a_loop_of_300_whole() {
    assert_eq!(DEFAULT_FOR_EXPAND_MAX, 256);
    let eqs = indexed_loop(300);
    let units = cluster_equations(&eqs, &[Some((1, 300))], DEFAULT_FOR_EXPAND_MAX);
    assert_eq!(units.len(), 1);
    assert!(matches!(&units[0], CompileUnit::Scalar(Equation::For(..))));
}

#[test]
fn default_limit_expands_a_loop_of_256() {
    let eqs = indexed_loop(256);
    let units = cluster_equations(&eqs, &[Some((1, 256))], DEFAULT_FOR_EXPAND_MAX);
    assert_eq!(units.len(), 1);
    assert!(matches!(&units[0], CompileUnit::Vector(g) if g.lo == 1 && g.hi == 256));
}

#[test]
fn loop_index_suffix_is_read_as_a_truncated_number() {
    let eq = Equation::Simple(
        Expression::ArrayAccess(Box::new(var("y")), Box::new(var("i"))),
        Expression::ArrayAccess(Box::new(var("a")), Box::new(var("i"))),
    );
    for (suffix, want) in [("i_3", "_3"), ("i_2.5", "_2"), ("i_-1.75", "_-1"), ("i_x", "_0")] {
        match substitute_loop_index(&eq, "i", suffix) {
            Equation::Simple(Expression::Variable(l), Expression::Variable(r)) => {
                assert_eq!(l, format!("y{}", want));
                assert_eq!(r, format!("a{}", want));
            }
            _ => panic!("expected a substituted equation for {}", suffix),
        }
    }
}
