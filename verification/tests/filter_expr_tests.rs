use s3_turbo_list::filter_expr::FilterExpr;
use s3_turbo_list::objects::ObjectProps;

fn props(size: u64, last_modified: u64) -> ObjectProps {
    let mut p = ObjectProps::default();
    p.size = size;
    p.last_modified = last_modified;
    p
}

fn eval_list(expr: &str, source: &ObjectProps) -> Option<bool> {
    FilterExpr::compile(expr, false)
        .unwrap()
        .evaluate(source, None)
}

#[test]
fn test_simple_comparisons() {
    let p = props(2048, 1715700001);
    assert_eq!(eval_list("SOURCE.size > 1000", &p), Some(true));
    assert_eq!(eval_list("SOURCE.size < 1000", &p), Some(false));
    assert_eq!(eval_list("SOURCE.size == 2048", &p), Some(true));
    assert_eq!(eval_list("SOURCE.size != 2048", &p), Some(false));
    assert_eq!(eval_list("SOURCE.last_modified >= 1715700000", &p), Some(true));
    assert_eq!(eval_list("SOURCE.last_modified <= 1715700000", &p), Some(false));
}

#[test]
fn test_boolean_logic_and_grouping() {
    let p = props(2048, 100);
    assert_eq!(
        eval_list("SOURCE.size > 1000 && SOURCE.last_modified >= 100", &p),
        Some(true)
    );
    assert_eq!(
        eval_list("SOURCE.size > 9999 || SOURCE.last_modified == 100", &p),
        Some(true)
    );
    assert_eq!(eval_list("!(SOURCE.size > 1000)", &p), Some(false));
    assert_eq!(
        eval_list("(SOURCE.size > 1000 || false) && true", &p),
        Some(true)
    );
}

#[test]
fn test_arithmetic() {
    let p = props(1024, 0);
    assert_eq!(eval_list("SOURCE.size * 2 == 2048", &p), Some(true));
    assert_eq!(eval_list("SOURCE.size + 1 > 1024", &p), Some(true));
    assert_eq!(eval_list("SOURCE.size - 24 == 1000", &p), Some(true));
    assert_eq!(eval_list("SOURCE.size / 2 == 512", &p), Some(true));
    assert_eq!(eval_list("SOURCE.size % 1000 == 24", &p), Some(true));
    assert_eq!(eval_list("-SOURCE.size < 0", &p), Some(true));
    // Float literals are evaluated by the application; the library
    // compiles them and marks the expression.
    assert!(FilterExpr::compile("SOURCE.size > 1.5e3", false).unwrap().has_float_literal());
    assert!(FilterExpr::compile("SOURCE.size > 0.5", false).unwrap().has_float_literal());
}

#[test]
fn test_runtime_errors_return_none() {
    // Compile-time probe uses size=0, so these pass compilation but can
    // fail at runtime for other objects.
    let f = FilterExpr::compile("1000 / (1 - SOURCE.size) > 0", false).unwrap();
    assert_eq!(f.evaluate(&props(0, 0), None), Some(true));
    assert_eq!(f.evaluate(&props(1, 0), None), None); // division by zero

    let f = FilterExpr::compile("SOURCE.size + 1 > 0", false).unwrap();
    assert_eq!(f.evaluate(&props(u64::MAX, 0), None), None); // i64 overflow
}

#[test]
fn test_target_in_diff_mode() {
    let f = FilterExpr::compile("SOURCE.size > TARGET.size", true).unwrap();
    assert_eq!(f.evaluate(&props(2000, 0), Some(&props(1000, 0))), Some(true));
    assert_eq!(f.evaluate(&props(500, 0), Some(&props(1000, 0))), Some(false));
    // No target at runtime → error, not a panic.
    assert_eq!(f.evaluate(&props(2000, 0), None), None);
}

#[test]
fn test_target_rejected_in_list_mode() {
    let err = FilterExpr::compile("SOURCE.size > TARGET.size", false).unwrap_err();
    assert!(err.contains("TARGET"), "{}", err);
}

#[test]
fn test_rejects_unknown_identifiers() {
    assert!(FilterExpr::compile("OTHER > 5", false)
        .unwrap_err()
        .contains("not allowed"));
    assert!(FilterExpr::compile("SOURCE.etag == 1", false)
        .unwrap_err()
        .contains("not allowed"));
    assert!(FilterExpr::compile("max(SOURCE.size, 1) > 0", false)
        .unwrap_err()
        .contains("not allowed"));
    assert!(FilterExpr::compile("SOURCE.trim() == 1", true)
        .unwrap_err()
        .contains("not allowed"));
}

#[test]
fn test_rejects_non_boolean_expressions() {
    assert!(FilterExpr::compile("SOURCE.size + 1", false).is_err());
    assert!(FilterExpr::compile("42", false).is_err());
    assert!(FilterExpr::compile("!SOURCE.size", false).is_err());
    assert!(FilterExpr::compile("true && 1", false).is_err());
}

#[test]
fn test_rejects_malformed_input() {
    assert!(FilterExpr::compile("", false).is_err());
    assert!(FilterExpr::compile("SOURCE.size >", false).is_err());
    assert!(FilterExpr::compile("(SOURCE.size > 1", false).is_err());
    assert!(FilterExpr::compile("SOURCE.size > 1)", false).is_err());
    assert!(FilterExpr::compile("SOURCE.size > 1; true", false).is_err());
    assert!(FilterExpr::compile("SOURCE size > 1", false).is_err());
    assert!(FilterExpr::compile("SOURCE.size & 1", false).is_err());
    assert!(FilterExpr::compile("SOURCE.size = 1", false).is_err());
}

#[test]
fn test_depth_limit() {
    let expr = format!("{}true{}", "(".repeat(60), ")".repeat(60));
    let err = FilterExpr::compile(&expr, false).unwrap_err();
    assert!(err.contains("depth"), "{}", err);
}

#[test]
fn test_mismatched_equality_kinds_compare_false() {
    let p = props(1, 0);
    assert_eq!(eval_list("(SOURCE.size == 1) == true", &p), Some(true));
    assert_eq!(eval_list("true != false", &p), Some(true));
    assert!(FilterExpr::compile("SOURCE.size == 1.0", false).unwrap().has_float_literal());
}

#[test]
fn integer_expressions_have_no_float_literal() {
    let f = FilterExpr::compile("SOURCE.size > 10 && SOURCE.last_modified < 5", false).unwrap();
    assert!(!f.has_float_literal());
    assert!(!f.reads_target());
    let g = FilterExpr::compile("SOURCE.size > TARGET.size", true).unwrap();
    assert!(g.reads_target());
}

#[test]
fn precedence_of_operators() {
    let p = props(10, 0);
    assert_eq!(eval_list("SOURCE.size + 2 * 3 == 16", &p), Some(true));
    assert_eq!(eval_list("(SOURCE.size + 2) * 3 == 36", &p), Some(true));
    assert_eq!(eval_list("false || true && false", &p), Some(false));
    assert_eq!(eval_list("1 < 2 == true", &p), Some(true));
}

#[test]
fn remainder_by_zero_is_a_runtime_error() {
    let f = FilterExpr::compile("SOURCE.size % (SOURCE.size - 1) >= 0", false).unwrap();
    assert_eq!(f.evaluate(&props(1, 0), None), None);
    assert_eq!(f.evaluate(&props(3, 0), None), Some(true));
}
