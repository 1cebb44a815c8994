use json_test::FailureKind;
use json_test::JsonPathError;
use json_test::JsonValue;
use json_test::render::render_value;
use json_test::value::deep_eq;

fn js(s: &str) -> JsonValue {
    JsonValue::Str(s.to_string())
}

fn ji(i: i64) -> JsonValue {
    JsonValue::Int(i)
}

fn jobj(members: Vec<(&str, JsonValue)>) -> JsonValue {
    JsonValue::Obj(members.into_iter().map(|(k, v)| (k.to_string(), v)).collect())
}

#[test]
fn render_values_exactly() {
    assert_eq!(render_value(&JsonValue::Null), "null");
    assert_eq!(render_value(&JsonValue::Bool(true)), "true");
    assert_eq!(render_value(&JsonValue::Bool(false)), "false");
    assert_eq!(render_value(&ji(0)), "0");
    assert_eq!(render_value(&ji(42)), "42");
    assert_eq!(render_value(&ji(-7)), "-7");
    assert_eq!(render_value(&ji(i64::MAX)), "9223372036854775807");
    assert_eq!(render_value(&ji(i64::MIN)), "-9223372036854775808");
    assert_eq!(render_value(&js("hello")), "\"hello\"");
    assert_eq!(
        render_value(&JsonValue::Arr(vec![ji(1), js("a"), JsonValue::Null])),
        "[1, \"a\", null]"
    );
    assert_eq!(
        render_value(&jobj(vec![("a", ji(1)), ("b", JsonValue::Arr(vec![]))])),
        "{\"a\": 1, \"b\": []}"
    );
}

#[test]
fn value_mismatch_renders_in_fixed_order() {
    let e = JsonPathError::value_mismatch("$.x".to_string(), ji(30), ji(25));
    assert_eq!(
        e.render(),
        "Value mismatch\nPath: $.x\nActual Value: 30\nExpected Value: 25\nOperation: Equality"
    );
}

#[test]
fn comparison_failed_names_operation_and_operand() {
    let e = JsonPathError::comparison_failed(
        "$.n".to_string(),
        ji(5),
        "GreaterThan",
        ji(10),
    );
    let text = e.render();
    assert!(text.starts_with("Value comparison failed for operation: GreaterThan"));
    assert!(text.contains("Operation: GreaterThan"));
    assert!(text.contains("Comparison Value: 10"));
}

#[test]
fn type_mismatch_populates_kind_context() {
    let e = JsonPathError::type_mismatch("$.x".to_string(), js("hi"), "number");
    assert_eq!(
        e.render(),
        "Expected value of type number\nPath: $.x\nActual Value: \"hi\"\nExpected Type: number\nActual Type: string"
    );
}

#[test]
fn with_context_appends_new_key() {
    let e = JsonPathError::value_mismatch("$.x".to_string(), ji(1), ji(2));
    let e = e.with_context("Case", "first run");
    let text = e.render();
    assert!(text.ends_with("Operation: Equality\nCase: first run"));
}

#[test]
fn with_context_overwrites_existing_key() {
    let e = JsonPathError::value_mismatch("$.x".to_string(), ji(1), ji(2));
    let e = e.with_context("Operation", "Identity");
    let text = e.render();
    assert!(text.contains("Operation: Identity"));
    assert!(!text.contains("Operation: Equality"));
}

#[test]
fn with_contexts_merges_in_order() {
    let e = JsonPathError::value_mismatch("$.x".to_string(), ji(1), ji(2));
    let extra: Vec<(String, String)> = vec![
        ("Operation".to_string(), "Replaced".to_string()),
        ("Suite".to_string(), "smoke".to_string()),
    ];
    let e = e.with_contexts(&extra);
    let text = e.render();
    assert!(text.contains("Operation: Replaced"));
    assert!(text.ends_with("Suite: smoke"));
}

#[test]
fn with_context_leaves_invalid_path_unchanged() {
    let e = JsonPathError::InvalidPath("bad".to_string());
    let e = e.with_context("Key", "value");
    assert_eq!(e.render(), "Invalid JSONPath expression: bad");
}

#[test]
fn not_found_has_its_own_kind() {
    let e = JsonPathError::not_found("$.y".to_string());
    match &e {
        JsonPathError::AssertionFailed { kind, .. } => {
            assert_eq!(*kind, FailureKind::NotFound)
        }
        _ => panic!("expected an assertion failure"),
    }
    assert_eq!(e.render(), "No value found\nPath: $.y\nActual Value: null");
}

#[test]
fn deep_equality_is_structural() {
    let a = jobj(vec![("k", JsonValue::Arr(vec![ji(1), js("x")]))]);
    let b = jobj(vec![("k", JsonValue::Arr(vec![ji(1), js("x")]))]);
    let c = jobj(vec![("k", JsonValue::Arr(vec![js("x"), ji(1)]))]);
    assert!(deep_eq(&a, &b));
    assert!(!deep_eq(&a, &c));
    assert!(!deep_eq(&a, &JsonValue::Null));
}
