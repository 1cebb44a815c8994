use json_test::FailureKind;
use json_test::JsonPathError;
use json_test::JsonTest;
use json_test::JsonValue;
use json_test::eval::normalize;
use json_test::value::deep_eq;

fn js(s: &str) -> JsonValue {
    JsonValue::Str(s.to_string())
}

fn ji(i: i64) -> JsonValue {
    JsonValue::Int(i)
}

fn jobj(members: Vec<(&str, JsonValue)>) -> JsonValue {
    JsonValue::Obj(members.into_iter().map(|(k, v)| (k.to_string(), v)).collect())
}

fn user_doc() -> JsonValue {
    jobj(vec![(
        "user",
        jobj(vec![
            ("name", js("John")),
            ("age", ji(30)),
            ("roles", JsonValue::Arr(vec![js("admin"), js("user")])),
        ]),
    )])
}

fn kind_of(e: &JsonPathError) -> FailureKind {
    match e {
        JsonPathError::AssertionFailed { kind, .. } => *kind,
        JsonPathError::InvalidPath(_) => panic!("expected an assertion failure"),
    }
}

#[test]
fn scenario_name_equality() {
    let test = JsonTest::new(user_doc());
    test.assert_path("$.user.name")
        .unwrap()
        .equals(js("John"))
        .unwrap();

    let err = test
        .assert_path("$.user.name")
        .unwrap()
        .equals(js("Jane"))
        .unwrap_err();
    assert_eq!(kind_of(&err), FailureKind::ValueMismatch);
    let text = err.render();
    assert!(text.contains("Value mismatch"));
    assert!(text.contains("John"));
    assert!(text.contains("Jane"));
}

#[test]
fn scenario_age_comparisons() {
    let test = JsonTest::new(user_doc());
    test.assert_path("$.user.age")
        .unwrap()
        .is_number()
        .unwrap()
        .is_greater_than(18)
        .unwrap();

    let err = test
        .assert_path("$.user.age")
        .unwrap()
        .is_less_than(18)
        .unwrap_err();
    assert_eq!(kind_of(&err), FailureKind::ComparisonFailed);
    let text = err.render();
    assert!(text.contains("Value comparison failed for operation: LessThan"));
    assert!(text.contains("Comparison Value: 18"));
    assert!(text.contains("Actual Value: 30"));
}

#[test]
fn scenario_roles_array() {
    let test = JsonTest::new(user_doc());
    test.assert_path("$.user.roles")
        .unwrap()
        .is_array()
        .unwrap()
        .has_length(2)
        .unwrap()
        .contains(&js("admin"))
        .unwrap();

    let err = test
        .assert_path("$.user.roles")
        .unwrap()
        .contains(&js("owner"))
        .unwrap_err();
    assert_eq!(kind_of(&err), FailureKind::ValueMismatch);
    assert!(err.render().contains("Array does not contain expected value"));
}

#[test]
fn scenario_missing_property_lists_available() {
    let test = JsonTest::new(user_doc());
    let err = test
        .assert_path("$.user")
        .unwrap()
        .has_property("email")
        .unwrap_err();
    let text = err.render();
    assert!(text.contains("Property 'email' not found"));
    assert!(text.contains("Available properties: name, age, roles"));
}

#[test]
fn scenario_filtered_count_then_value() {
    let test = JsonTest::new(user_doc());
    test.assert_path("$.user")
        .unwrap()
        .properties_matching(|k: &str| k.starts_with("r"))
        .unwrap()
        .count(1)
        .unwrap()
        .and()
        .has_property_value("name", js("John"))
        .unwrap();
}

#[test]
fn scenario_missing_path() {
    let test = JsonTest::new(user_doc());
    let err = test
        .assert_path("$.missing.field")
        .unwrap()
        .is_present()
        .unwrap_err();
    assert_eq!(kind_of(&err), FailureKind::NotFound);

    test.assert_path("$.missing.field")
        .unwrap()
        .does_not_exist()
        .unwrap();
}

#[test]
fn string_checks_pass_and_fail() {
    let doc = jobj(vec![("email", js("test@example.com"))]);
    let test = JsonTest::new(doc);
    test.assert_path("$.email")
        .unwrap()
        .is_string()
        .unwrap()
        .contains_string("@example")
        .unwrap()
        .starts_with("test@")
        .unwrap()
        .ends_with(".com")
        .unwrap()
        .matches_pattern(r"^[^@]+@[^@]+\.[^@]+$")
        .unwrap()
        .matches(|v: &JsonValue| match v {
            JsonValue::Str(s) => !s.starts_with("admin@"),
            _ => false,
        })
        .unwrap();

    let err = test
        .assert_path("$.email")
        .unwrap()
        .contains_string("missing-bit")
        .unwrap_err();
    assert_eq!(kind_of(&err), FailureKind::PredicateFailed);
    assert!(err.render().contains("String does not contain 'missing-bit'"));

    let err = test
        .assert_path("$.email")
        .unwrap()
        .matches_pattern("[")
        .unwrap_err();
    assert_eq!(kind_of(&err), FailureKind::InvalidPattern);
    assert!(err.render().contains("Invalid regex pattern: "));

    let err = test
        .assert_path("$.email")
        .unwrap()
        .matches(|_: &JsonValue| false)
        .unwrap_err();
    assert_eq!(kind_of(&err), FailureKind::PredicateFailed);
}

#[test]
fn type_mismatch_names_both_kinds() {
    let test = JsonTest::new(user_doc());
    let err = test
        .assert_path("$.user.age")
        .unwrap()
        .is_string()
        .unwrap_err();
    assert_eq!(kind_of(&err), FailureKind::TypeMismatch);
    let text = err.render();
    assert!(text.contains("Expected value of type string"));
    assert!(text.contains("Expected Type: string"));
    assert!(text.contains("Actual Type: number"));
}

#[test]
fn invalid_path_reports_evaluator_message() {
    let test = JsonTest::new(user_doc());
    let err = test.assert_path("$.[").unwrap_err();
    match &err {
        JsonPathError::InvalidPath(_) => {}
        _ => panic!("expected an invalid-path failure"),
    }
    assert!(err.render().starts_with("Invalid JSONPath expression: "));
}

#[test]
fn between_bounds_inclusive() {
    let test = JsonTest::new(user_doc());
    test.assert_path("$.user.age")
        .unwrap()
        .is_between(0, 100)
        .unwrap();
    test.assert_path("$.user.age")
        .unwrap()
        .is_between(30, 30)
        .unwrap();
    let err = test
        .assert_path("$.user.age")
        .unwrap()
        .is_between(31, 40)
        .unwrap_err();
    assert_eq!(kind_of(&err), FailureKind::ComparisonFailed);
    assert!(err.render().contains("Between"));
}

#[test]
fn pivot_equals_fresh_evaluation() {
    let test = JsonTest::new(user_doc());

    // Pivot from one path to another; the new chain behaves exactly as a
    // fresh evaluation of the second path.
    test.assert_path("$.user.name")
        .unwrap()
        .equals(js("John"))
        .unwrap()
        .assert_path("$.user.age")
        .unwrap()
        .is_number()
        .unwrap()
        .equals(ji(30))
        .unwrap();

    test.assert_path("$.user.age")
        .unwrap()
        .equals(ji(30))
        .unwrap();
}

#[test]
fn normalization_rules() {
    // A one-element raw array from a non-indexed expression collapses to
    // the element.
    let collapsed = normalize(JsonValue::Arr(vec![ji(7)]), "$.a.b");
    assert_eq!(collapsed.len(), 1);
    assert!(deep_eq(&collapsed[0], &ji(7)));

    // With bracket syntax in the expression the array is kept as is.
    let kept = normalize(JsonValue::Arr(vec![ji(7)]), "$.a[0]");
    assert_eq!(kept.len(), 1);
    assert!(deep_eq(&kept[0], &ji(7)));
    let kept2 = normalize(
        JsonValue::Arr(vec![ji(7), ji(8)]),
        "$.a[?(@.x)]",
    );
    assert_eq!(kept2.len(), 2);

    // A raw null outcome is the empty selection, whatever the shape of
    // the expression.
    assert_eq!(normalize(JsonValue::Null, "$.a.b").len(), 0);
    assert_eq!(normalize(JsonValue::Null, "$.a[0]").len(), 0);

    // Any other single value is a one-element selection.
    let single = normalize(js("x"), "$.a.b");
    assert_eq!(single.len(), 1);
    assert!(deep_eq(&single[0], &js("x")));
}

#[test]
fn filter_expression_selects_first_match_only() {
    let doc = jobj(vec![(
        "items",
        JsonValue::Arr(vec![
            jobj(vec![("id", ji(1)), ("active", JsonValue::Bool(true))]),
            jobj(vec![("id", ji(2)), ("active", JsonValue::Bool(true))]),
        ]),
    )]);
    let test = JsonTest::new(doc);
    // The filter matches both entries; checks examine only the first.
    test.assert_path("$.items[?(@.active)].id")
        .unwrap()
        .equals(ji(1))
        .unwrap();
}

#[test]
fn assert_object_requires_single_object() {
    let test = JsonTest::new(user_doc());
    let err = test
        .assert_path("$.user.roles")
        .unwrap()
        .has_property("anything")
        .unwrap_err();
    assert_eq!(kind_of(&err), FailureKind::TypeMismatch);
    assert!(err.render().contains("Expected value of type object"));
}

#[test]
fn wildcard_checks_examine_first_match_only() {
    let test = JsonTest::new(user_doc());
    // $.user.* matches three values; every check examines the first one,
    // which is the value of the first member in insertion order.
    test.assert_path("$.user.*")
        .unwrap()
        .is_present()
        .unwrap()
        .equals(js("John"))
        .unwrap();
}
