use rustmodlica::mos::{parse_mos_script, MosExpr, MosParser, MosSpan, MosStmt};

#[test]
fn call_with_named_arguments() {
    let stmts = parse_mos_script("simulate(Foo, stopTime = 10.0, method = \"dassl\");").ok().unwrap();
    assert_eq!(stmts.len(), 1);
    match &stmts[0] {
        MosStmt::Expr { expr: MosExpr::Call { name, args }, span } => {
            assert_eq!(name, "simulate");
            assert_eq!(args.len(), 3);
            assert!(args[0].name.is_none());
            assert!(matches!(&args[0].value, MosExpr::Ident(n) if n == "Foo"));
            assert_eq!(args[1].name.as_deref(), Some("stopTime"));
            assert!(matches!(&args[1].value, MosExpr::Number(n) if n == "10.0"));
            assert!(matches!(&args[2].value, MosExpr::String(s) if s == "dassl"));
            assert_eq!(*span, MosSpan { line: 1, col: 1 });
        }
        _ => panic!("expected a call statement"),
    }
}

#[test]
fn assignment_and_spans_on_later_lines() {
    let src = "x := 1;\n  y := x + 2 * 3;";
    let stmts = parse_mos_script(src).ok().unwrap();
    assert_eq!(stmts.len(), 2);
    match &stmts[1] {
        MosStmt::Assign { name, value, span } => {
            assert_eq!(name, "y");
            assert_eq!(*span, MosSpan { line: 2, col: 3 });
            match value {
                MosExpr::Binary { op, left, right } => {
                    assert_eq!(op, "+");
                    assert!(matches!(&**left, MosExpr::Ident(n) if n == "x"));
                    assert!(matches!(&**right, MosExpr::Binary { op, .. } if op == "*"));
                }
                _ => panic!("expected a sum"),
            }
        }
        _ => panic!("expected an assignment"),
    }
}

#[test]
fn if_elseif_else() {
    let src = "if a > 1 then b := 1; elseif a == 0 then b := 2; else b := 3; c := 4; end if;";
    let stmts = parse_mos_script(src).ok().unwrap();
    assert_eq!(stmts.len(), 1);
    match &stmts[0] {
        MosStmt::If { cond, then_body, elseif, else_body, .. } => {
            assert!(matches!(cond, MosExpr::Binary { op, .. } if op == ">"));
            assert_eq!(then_body.len(), 1);
            assert_eq!(elseif.len(), 1);
            assert_eq!(elseif[0].1.len(), 1);
            assert_eq!(else_body.len(), 2);
        }
        _ => panic!("expected an if"),
    }
}

#[test]
fn for_over_a_range_with_step() {
    let stmts = parse_mos_script("for i in 1:2:9 loop print(i); end for;").ok().unwrap();
    match &stmts[0] {
        MosStmt::For { var, iter, body, .. } => {
            assert_eq!(var, "i");
            assert!(matches!(iter, MosExpr::Range { step: Some(_), .. }));
            assert_eq!(body.len(), 1);
        }
        _ => panic!("expected a for"),
    }
}

#[test]
fn for_over_an_array() {
    let stmts = parse_mos_script("for m in {\"A\", \"B\"} loop checkModel(m); end for;").ok().unwrap();
    match &stmts[0] {
        MosStmt::For { iter: MosExpr::Array(items), .. } => assert_eq!(items.len(), 2),
        _ => panic!("expected a for over an array"),
    }
}

#[test]
fn records_booleans_and_unary() {
    let stmts = parse_mos_script("r := {a = 1, b = TRUE}; n := -not false;").ok().unwrap();
    match &stmts[0] {
        MosStmt::Assign { value: MosExpr::Record(fields), .. } => {
            assert_eq!(fields.len(), 2);
            assert_eq!(fields[0].0, "a");
            assert!(matches!(fields[1].1, MosExpr::Bool(true)));
        }
        _ => panic!("expected a record"),
    }
    match &stmts[1] {
        MosStmt::Assign { value: MosExpr::Unary { op, expr }, .. } => {
            assert_eq!(op, "-");
            assert!(matches!(&**expr, MosExpr::Unary { op, expr } if op == "not" && matches!(**expr, MosExpr::Bool(false))));
        }
        _ => panic!("expected a negation"),
    }
}

#[test]
fn comments_are_skipped_and_last_semicolon_is_optional() {
    let stmts = MosParser::parse_script("// load\nloadModel(Modelica) /* then */\ngetErrorString()").ok().unwrap();
    assert_eq!(stmts.len(), 2);
    assert!(matches!(&stmts[1], MosStmt::Expr { span, .. } if *span == MosSpan { line: 3, col: 1 }));
}

#[test]
fn escaped_quotes_in_strings() {
    let stmts = parse_mos_script("s := \"say \\\"hi\\\" now\";").ok().unwrap();
    assert!(matches!(&stmts[0], MosStmt::Assign { value: MosExpr::String(s), .. } if s == "say \"hi\" now"));
}

#[test]
fn error_gives_the_offset() {
    assert_eq!(parse_mos_script("x := ;").err(), Some("mos parse error at offset 0".to_string()));
    assert_eq!(parse_mos_script("a := 1; $").err(), Some("mos parse error at offset 8".to_string()));
}

#[test]
fn empty_script_has_no_statements() {
    assert!(parse_mos_script("  \n").ok().unwrap().is_empty());
}
