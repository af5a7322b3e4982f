use simple_interp::{evaluate, parse, run, InterpreterError, RuntimeError, Val};

fn store_of(src: &str) -> simple_interp::Store {
    let tree = parse(src).expect("program should parse");
    evaluate(&tree).expect("program should evaluate")
}

fn runtime_err_of(src: &str) -> RuntimeError {
    let tree = parse(src).expect("program should parse");
    evaluate(&tree).err().expect("program should fail at runtime")
}

#[test]
fn assignment_of_literal() {
    let st = store_of("x = 5");
    assert_eq!(st.get(b"x"), Some(Val::Integer(5)));
    assert_eq!(st.len(), 1);
}

#[test]
fn sequence_with_arithmetic_and_division() {
    let st = store_of("x = 5; y = x + 3; z = y / 2");
    assert_eq!(st.get(b"x"), Some(Val::Integer(5)));
    assert_eq!(st.get(b"y"), Some(Val::Integer(8)));
    assert_eq!(st.get(b"z"), Some(Val::Integer(4)));
    assert_eq!(st.len(), 3);
}

#[test]
fn while_loop_counts_down_to_zero() {
    let st = store_of("x = 10; while x > 0 { x = x - 1 }");
    assert_eq!(st.get(b"x"), Some(Val::Integer(0)));
    assert_eq!(st.len(), 1);
}

#[test]
fn undefined_variable_is_reported_with_its_name() {
    match runtime_err_of("y = z + 1") {
        RuntimeError::UndefinedVariable { name, span } => {
            assert_eq!(name, b"z".to_vec());
            assert_eq!(span.line, 1);
            assert_eq!(span.col, 5);
        }
        other => panic!("expected UndefinedVariable, got {:?}", other),
    }
}

#[test]
fn boolean_operand_to_arithmetic_is_a_type_mismatch() {
    match runtime_err_of("x = true + 1") {
        RuntimeError::TypeMismatch { .. } => {}
        other => panic!("expected TypeMismatch, got {:?}", other),
    }
}

#[test]
fn division_by_zero_is_its_own_error() {
    match runtime_err_of("x = 5 / 0") {
        RuntimeError::DivisionByZero { span } => {
            assert_eq!(span.line, 1);
            assert_eq!(span.col, 9);
        }
        other => panic!("expected DivisionByZero, got {:?}", other),
    }
}

#[test]
fn reassignment_keeps_only_the_last_value() {
    let st = store_of("x = 1; x = 2");
    assert_eq!(st.get(b"x"), Some(Val::Integer(2)));
    assert_eq!(st.len(), 1);
}

#[test]
fn subtraction_chains_group_to_the_right() {
    // right associativity: 10 - (3 - 2) = 9, not (10 - 3) - 2 = 5
    let st = store_of("x = 10 - 3 - 2");
    assert_eq!(st.get(b"x"), Some(Val::Integer(9)));
}

#[test]
fn division_chains_group_to_the_right() {
    // right associativity: 100 / (10 / 2) = 20, not (100 / 10) / 2 = 5
    let st = store_of("x = 100 / 10 / 2");
    assert_eq!(st.get(b"x"), Some(Val::Integer(20)));
}

#[test]
fn unterminated_while_block_is_a_syntax_error() {
    assert!(parse("x = 10; while x > 0 { x = x - 1").is_err());
    match run("x = 10; while x > 0 { x = x - 1") {
        Err(InterpreterError::Syntax(_)) => {}
        other => panic!("expected a syntax error, got {:?}", other),
    }
}

#[test]
fn evaluation_is_deterministic_for_a_fixed_tree() {
    let tree = parse("a = 2; b = a * a; c = b - a").expect("should parse");
    let st1 = evaluate(&tree).expect("should evaluate");
    let st2 = evaluate(&tree).expect("should evaluate");
    assert_eq!(st1.len(), st2.len());
    for name in [&b"a"[..], &b"b"[..], &b"c"[..]] {
        assert_eq!(st1.get(name), st2.get(name));
    }
    assert_eq!(st1.get(b"b"), Some(Val::Integer(4)));
    assert_eq!(st1.get(b"c"), Some(Val::Integer(2)));
}

#[test]
fn multiplication_binds_tighter_than_addition() {
    let st = store_of("x = 2 + 3 * 4");
    assert_eq!(st.get(b"x"), Some(Val::Integer(14)));
}

#[test]
fn parentheses_override_precedence() {
    let st = store_of("x = (2 + 3) * 4");
    assert_eq!(st.get(b"x"), Some(Val::Integer(20)));
}

#[test]
fn comparisons_yield_booleans() {
    let st = store_of("a = 1 < 2; b = 2 <= 1; c = 3 == 3; d = 4 >= 5; e = 5 > 4");
    assert_eq!(st.get(b"a"), Some(Val::Boolean(true)));
    assert_eq!(st.get(b"b"), Some(Val::Boolean(false)));
    assert_eq!(st.get(b"c"), Some(Val::Boolean(true)));
    assert_eq!(st.get(b"d"), Some(Val::Boolean(false)));
    assert_eq!(st.get(b"e"), Some(Val::Boolean(true)));
}

#[test]
fn comparing_booleans_is_a_type_mismatch() {
    match runtime_err_of("x = true == true") {
        RuntimeError::TypeMismatch { .. } => {}
        other => panic!("expected TypeMismatch, got {:?}", other),
    }
}

#[test]
fn non_boolean_while_condition_is_a_type_mismatch() {
    match runtime_err_of("while 1 { x = 1 }") {
        RuntimeError::TypeMismatch { span } => {
            assert_eq!(span.col, 7);
        }
        other => panic!("expected TypeMismatch, got {:?}", other),
    }
}

#[test]
fn boolean_literals_are_values_not_variables() {
    let st = store_of("x = true; y = false");
    assert_eq!(st.get(b"x"), Some(Val::Boolean(true)));
    assert_eq!(st.get(b"y"), Some(Val::Boolean(false)));
}

#[test]
fn addition_wraps_around_at_the_64_bit_boundary() {
    let st = store_of("x = 9223372036854775807 + 1");
    assert_eq!(st.get(b"x"), Some(Val::Integer(i64::MIN)));
}

#[test]
fn division_truncates_toward_zero() {
    let st = store_of("x = 7 / 2; y = (0 - 7) / 2");
    assert_eq!(st.get(b"x"), Some(Val::Integer(3)));
    assert_eq!(st.get(b"y"), Some(Val::Integer(-3)));
}

#[test]
fn oversized_numeric_literal_is_a_syntax_error() {
    assert!(parse("x = 9223372036854775808").is_err());
}

#[test]
fn empty_program_yields_an_empty_store() {
    let st = store_of("");
    assert_eq!(st.len(), 0);
    assert_eq!(st.get(b"x"), None);
}

#[test]
fn statements_need_no_semicolon_between_them() {
    let st = store_of("x = 1 y = 2");
    assert_eq!(st.get(b"x"), Some(Val::Integer(1)));
    assert_eq!(st.get(b"y"), Some(Val::Integer(2)));
}

#[test]
fn identifiers_may_hold_dots_and_underscores() {
    let st = store_of("a.b_c = 1");
    assert_eq!(st.get(b"a.b_c"), Some(Val::Integer(1)));
}

#[test]
fn nested_while_loops_terminate() {
    let st = store_of("x = 3; y = 0; while x > 0 { x = x - 1; z = 2; while z > 0 { z = z - 1; y = y + 1 } }");
    assert_eq!(st.get(b"y"), Some(Val::Integer(6)));
    assert_eq!(st.get(b"x"), Some(Val::Integer(0)));
    assert_eq!(st.get(b"z"), Some(Val::Integer(0)));
}

#[test]
fn run_keeps_syntax_and_runtime_failures_apart() {
    match run("x = ") {
        Err(InterpreterError::Syntax(_)) => {}
        other => panic!("expected a syntax error, got {:?}", other),
    }
    match run("x = 1 / 0") {
        Err(InterpreterError::Runtime(RuntimeError::DivisionByZero { .. })) => {}
        other => panic!("expected DivisionByZero, got {:?}", other),
    }
    let st = run("x = 1 + 1").expect("should run");
    assert_eq!(st.get(b"x"), Some(Val::Integer(2)));
}

#[test]
fn syntax_error_reports_position_and_expected_tokens() {
    let e = parse("x = )").err().expect("should fail");
    assert_eq!(e.line, 1);
    assert_eq!(e.col, 5);
    assert_eq!(
        e.expected,
        vec![
            simple_interp::TokKind::LParen,
            simple_interp::TokKind::Number,
            simple_interp::TokKind::BooleanLit,
            simple_interp::TokKind::Identifier,
        ]
    );
}

#[test]
fn errors_render_with_kind_line_and_column() {
    let e = runtime_err_of("x = 5 / 0");
    assert_eq!(e.render(), b"division by zero at line 1, column 9".to_vec());
    let e = runtime_err_of("y = z + 1");
    assert_eq!(e.render(), b"undefined variable z at line 1, column 5".to_vec());
    let e = parse("x = )").err().expect("should fail");
    assert_eq!(e.render(), b"syntax error at line 1, column 5".to_vec());
}

#[test]
fn errors_carry_multi_line_positions() {
    let e = runtime_err_of("x = 1\ny = 2\nz = q");
    match e {
        RuntimeError::UndefinedVariable { ref name, span } => {
            assert_eq!(name, &b"q".to_vec());
            assert_eq!(span.line, 3);
            assert_eq!(span.col, 5);
        }
        other => panic!("expected UndefinedVariable, got {:?}", other),
    }
}

#[test]
fn values_project_safely() {
    assert_eq!(Val::Integer(5).as_integer(), Some(5));
    assert_eq!(Val::Integer(5).as_bool(), None);
    assert_eq!(Val::Boolean(true).as_bool(), Some(true));
    assert_eq!(Val::Boolean(true).as_integer(), None);
}

#[test]
fn values_render_for_diagnostics() {
    assert_eq!(simple_interp::render_val(&Val::Integer(42)), b"42".to_vec());
    assert_eq!(simple_interp::render_val(&Val::Integer(-5)), b"-5".to_vec());
    assert_eq!(simple_interp::render_val(&Val::Integer(0)), b"0".to_vec());
    assert_eq!(simple_interp::render_val(&Val::Boolean(true)), b"true".to_vec());
    assert_eq!(simple_interp::render_val(&Val::Boolean(false)), b"false".to_vec());
}

#[test]
fn loop_body_failure_keeps_earlier_mutations_out_of_the_result() {
    // the failing statement aborts evaluation; the error is reported, not a store
    match runtime_err_of("x = 2; while x > 0 { x = x - 1; y = x / (x - x) }") {
        RuntimeError::DivisionByZero { .. } => {}
        other => panic!("expected DivisionByZero, got {:?}", other),
    }
}

#[test]
fn store_items_lists_every_binding() {
    let st = store_of("x = 1; y = true");
    let items = st.items();
    assert_eq!(items.len(), 2);
    assert!(items.contains(&(b"x".to_vec(), Val::Integer(1))));
    assert!(items.contains(&(b"y".to_vec(), Val::Boolean(true))));
}
