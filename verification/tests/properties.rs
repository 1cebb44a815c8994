use json_test::FailureKind;
use json_test::JsonPathError;
use json_test::JsonTest;
use json_test::JsonValue;

fn js(s: &str) -> JsonValue {
    JsonValue::Str(s.to_string())
}

fn ji(i: i64) -> JsonValue {
    JsonValue::Int(i)
}

fn jobj(members: Vec<(&str, JsonValue)>) -> JsonValue {
    JsonValue::Obj(members.into_iter().map(|(k, v)| (k.to_string(), v)).collect())
}

fn user_doc() -> JsonValue {
    jobj(vec![(
        "user",
        jobj(vec![
            ("name", js("John")),
            ("age", ji(30)),
            (
                "metadata",
                jobj(vec![
                    ("created_at", js("2024-01-01")),
                    ("updated_at", js("2024-01-02")),
                ]),
            ),
        ]),
    )])
}

#[test]
fn test_property_assertions() {
    let json = user_doc();
    let test = JsonTest::new(json);

    let names: Vec<String> = vec!["name".to_string(), "age".to_string()];
    test.assert_path("$.user")
        .unwrap()
        .has_property("name")
        .unwrap()
        .has_properties(&names)
        .unwrap()
        .has_property_count(3)
        .unwrap()
        .has_property_value("name", js("John"))
        .unwrap()
        .has_property_matching("age", |v: &JsonValue| match v {
            JsonValue::Int(i) => *i > 20,
            _ => false,
        })
        .unwrap()
        .has_property_count_matching(|k: &str| k.ends_with("at"), 0)
        .unwrap();
}

#[test]
fn test_missing_property() {
    let json = jobj(vec![("user", jobj(vec![("name", js("John"))]))]);
    let test = JsonTest::new(json);
    let err = test
        .assert_path("$.user")
        .unwrap()
        .has_property("email")
        .unwrap_err();
    match &err {
        JsonPathError::AssertionFailed { kind, .. } => {
            assert_eq!(*kind, FailureKind::PropertyMissing)
        }
        _ => panic!("expected an assertion failure"),
    }
    let text = err.render();
    assert!(text.contains("Property 'email' not found"));
    assert!(text.contains("Available properties: name"));
}

#[test]
fn test_property_count() {
    let json = jobj(vec![("user", jobj(vec![("name", js("John")), ("age", ji(30))]))]);
    let test = JsonTest::new(json);
    let err = test
        .assert_path("$.user")
        .unwrap()
        .has_property_count(1)
        .unwrap_err();
    match &err {
        JsonPathError::AssertionFailed { kind, .. } => {
            assert_eq!(*kind, FailureKind::PropertyCountMismatch)
        }
        _ => panic!("expected an assertion failure"),
    }
    let text = err.render();
    assert!(text.contains("Incorrect number of properties"));
    assert!(text.contains("Expected: 1"));
    assert!(text.contains("Actual: 2"));
}

#[test]
fn test_property_value_mismatch() {
    let json = jobj(vec![("user", jobj(vec![("name", js("John")), ("age", ji(30))]))]);
    let test = JsonTest::new(json);
    let err = test
        .assert_path("$.user")
        .unwrap()
        .has_property_value("age", ji(25))
        .unwrap_err();
    match &err {
        JsonPathError::AssertionFailed { kind, .. } => {
            assert_eq!(*kind, FailureKind::ValueMismatch)
        }
        _ => panic!("expected an assertion failure"),
    }
    let text = err.render();
    assert!(text.contains("Property 'age' value mismatch"));
    assert!(text.contains("Expected Value: 25"));
    assert!(text.contains("Actual Value: 30"));
}

#[test]
fn test_missing_properties_lists_missing_names() {
    let json = jobj(vec![("user", jobj(vec![("name", js("John"))]))]);
    let test = JsonTest::new(json);
    let names: Vec<String> = vec!["name".to_string(), "email".to_string(), "phone".to_string()];
    let err = test
        .assert_path("$.user")
        .unwrap()
        .has_properties(&names)
        .unwrap_err();
    let text = err.render();
    assert!(text.contains("Missing properties: email, phone"));
    assert!(text.contains("Available properties: name"));
}

#[test]
fn test_property_matcher_collections() {
    let json = jobj(vec![(
        "user",
        jobj(vec![
            ("meta_created", js("2024-01-01")),
            ("name", js("John")),
            ("meta_updated", js("2024-01-02")),
        ]),
    )]);
    let test = JsonTest::new(json);

    let keys = test
        .assert_path("$.user")
        .unwrap()
        .properties_matching(|k: &str| k.starts_with("meta_"))
        .unwrap()
        .collect_keys();
    assert_eq!(keys, vec!["meta_created".to_string(), "meta_updated".to_string()]);

    let values = test
        .assert_path("$.user")
        .unwrap()
        .properties_matching(|k: &str| k.starts_with("meta_"))
        .unwrap()
        .collect_values();
    assert_eq!(values.len(), 2);
    assert!(json_test::value::deep_eq(&values[0], &js("2024-01-01")));
    assert!(json_test::value::deep_eq(&values[1], &js("2024-01-02")));

    let pairs = test
        .assert_path("$.user")
        .unwrap()
        .properties_matching(|k: &str| k.starts_with("meta_"))
        .unwrap()
        .collect_pairs();
    assert_eq!(pairs.len(), 2);
    assert_eq!(pairs[0].0, "meta_created");
    assert_eq!(pairs[1].0, "meta_updated");
}

#[test]
fn test_property_matcher_all_and_failure() {
    let json = jobj(vec![(
        "config",
        jobj(vec![("debug_mode", JsonValue::Bool(true)), ("debug_level", ji(3))]),
    )]);
    let test = JsonTest::new(json);

    test.assert_path("$.config")
        .unwrap()
        .properties_matching(|k: &str| k.starts_with("debug_"))
        .unwrap()
        .all(|k: &str, _v: &JsonValue| k.len() > 5)
        .unwrap();

    let err = test
        .assert_path("$.config")
        .unwrap()
        .properties_matching(|k: &str| k.starts_with("debug_"))
        .unwrap()
        .all(|_k: &str, v: &JsonValue| matches!(v, JsonValue::Bool(_)))
        .unwrap_err();
    let text = err.render();
    assert!(text.contains("Property did not match predicate"));
    assert!(text.contains("Key: debug_level"));
}

#[test]
fn test_count_and_returns_parent_chain() {
    let json = user_doc();
    let test = JsonTest::new(json);

    // Entering the view, counting, and returning hands back a chain that
    // still holds the same selection and path.
    test.assert_path("$.user")
        .unwrap()
        .properties_matching(|k: &str| k == "name")
        .unwrap()
        .count(1)
        .unwrap()
        .and()
        .has_property_value("name", js("John"))
        .unwrap();
}

#[test]
fn test_empty_object_and_array_shapes() {
    let json = jobj(vec![
        ("empty_obj", jobj(vec![])),
        ("empty_arr", JsonValue::Arr(vec![])),
    ]);
    let test = JsonTest::new(json);

    test.assert_path("$.empty_obj")
        .unwrap()
        .has_property_count(0)
        .unwrap()
        .has_property_count_matching(|_k: &str| true, 0)
        .unwrap();

    test.assert_path("$.empty_arr")
        .unwrap()
        .is_array()
        .unwrap()
        .has_length(0)
        .unwrap();

    let err = test
        .assert_path("$.empty_arr")
        .unwrap()
        .contains(&ji(1))
        .unwrap_err();
    assert!(err.render().contains("Array does not contain expected value"));
}

#[test]
fn test_first_member_wins_under_equal_keys() {
    // A hand-built object may carry the same key twice; member lookups
    // take the first member, in order.  (Selections that come through
    // the path evaluator never carry duplicates, so build the chain
    // state directly.)
    let dup = JsonValue::Obj(vec![
        ("k".to_string(), ji(1)),
        ("k".to_string(), ji(2)),
    ]);
    let chain = json_test::JsonPathAssertion {
        path_str: "$.outer".to_string(),
        current_values: vec![dup],
        root: std::rc::Rc::new(JsonValue::Null),
    };
    chain.has_property_value("k", ji(1)).unwrap();
}

#[test]
fn test_count_matching_positive() {
    let json = user_doc();
    let test = JsonTest::new(json);
    test.assert_path("$.user")
        .unwrap()
        .has_property_count_matching(|k: &str| k.len() == 4, 1)
        .unwrap();
}
