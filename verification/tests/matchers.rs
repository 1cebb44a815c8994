use json_test::JsonMatcher;
use json_test::JsonValue;
use json_test::RegexMatcher;
use json_test::TypeMatcher;
use json_test::ValueMatcher;

fn js(s: &str) -> JsonValue {
    JsonValue::Str(s.to_string())
}

fn ji(i: i64) -> JsonValue {
    JsonValue::Int(i)
}

fn jobj(members: Vec<(&str, JsonValue)>) -> JsonValue {
    JsonValue::Obj(members.into_iter().map(|(k, v)| (k.to_string(), v)).collect())
}

#[derive(Debug)]
struct TestMatcher(bool);

impl JsonMatcher for TestMatcher {
    fn matches(&self, _: &JsonValue) -> bool {
        self.0
    }

    fn description(&self) -> String {
        format!("always returns {}", self.0)
    }
}

#[test]
fn test_matcher_trait() {
    let value = ji(42);

    let true_matcher = TestMatcher(true);
    assert!(true_matcher.matches(&value));
    assert_eq!(true_matcher.description(), "always returns true");

    let false_matcher = TestMatcher(false);
    assert!(!false_matcher.matches(&value));
}

#[test]
fn test_regex_matching() {
    let matcher = RegexMatcher::new(r"^\d{4}-\d{2}-\d{2}$").unwrap();

    // Test valid date format
    assert!(matcher.matches(&js("2024-01-01")));

    // Test invalid formats
    assert!(!matcher.matches(&js("2024/01/01")));
    assert!(!matcher.matches(&js("not-a-date")));

    // Test non-string values
    assert!(!matcher.matches(&ji(42)));
    assert!(!matcher.matches(&JsonValue::Bool(true)));
    assert!(!matcher.matches(&JsonValue::Null));
}

#[test]
fn test_case_sensitive_matching() {
    let matcher = RegexMatcher::new(r"[a-z]+\d+").unwrap();

    assert!(matcher.matches(&js("test123")));
    assert!(!matcher.matches(&js("TEST123")));
}

#[test]
fn test_invalid_regex() {
    assert!(RegexMatcher::new(r"[invalid").is_err());
}

#[test]
fn test_description() {
    let matcher = RegexMatcher::new(r"\d+").unwrap();
    assert_eq!(matcher.description(), r"matches regex pattern \d+");
}

#[test]
fn test_type_matching() {
    // Test string type
    assert!(TypeMatcher::string().matches(&js("test")));
    assert!(!TypeMatcher::string().matches(&ji(42)));

    // Test number type
    assert!(TypeMatcher::number().matches(&ji(42)));
    assert!(!TypeMatcher::number().matches(&js("42")));

    // Test boolean type
    assert!(TypeMatcher::boolean().matches(&JsonValue::Bool(true)));
    assert!(!TypeMatcher::boolean().matches(&ji(1)));

    // Test array type
    assert!(TypeMatcher::array().matches(&JsonValue::Arr(vec![ji(1), ji(2), ji(3)])));
    assert!(!TypeMatcher::array().matches(&jobj(vec![("key", js("value"))])));

    // Test object type
    assert!(TypeMatcher::object().matches(&jobj(vec![("key", js("value"))])));
    assert!(!TypeMatcher::object().matches(&JsonValue::Arr(vec![ji(1), ji(2), ji(3)])));

    // Test null type
    assert!(TypeMatcher::null().matches(&JsonValue::Null));
    assert!(!TypeMatcher::null().matches(&ji(42)));
}

#[test]
fn test_descriptions() {
    assert_eq!(TypeMatcher::string().description(), "is of type string");
    assert_eq!(TypeMatcher::number().description(), "is of type number");
}

#[test]
fn test_value_matching() {
    let value = ji(42);
    assert!(ValueMatcher::eq(ji(42)).matches(&value));
    assert!(!ValueMatcher::eq(ji(43)).matches(&value));

    let obj = jobj(vec![("name", js("test")), ("value", ji(42))]);
    assert!(ValueMatcher::eq(jobj(vec![("name", js("test")), ("value", ji(42))])).matches(&obj));
    assert!(!ValueMatcher::eq(jobj(vec![("name", js("other"))])).matches(&obj));
}

#[test]
fn test_array_matching() {
    let arr = JsonValue::Arr(vec![ji(1), ji(2), ji(3)]);
    assert!(ValueMatcher::eq(JsonValue::Arr(vec![ji(1), ji(2), ji(3)])).matches(&arr));
    assert!(!ValueMatcher::eq(JsonValue::Arr(vec![ji(3), ji(2), ji(1)])).matches(&arr));
}

#[test]
fn test_null_matching() {
    let null = JsonValue::Null;
    assert!(ValueMatcher::eq(JsonValue::Null).matches(&null));
    assert!(!ValueMatcher::eq(ji(42)).matches(&null));
}

#[test]
fn test_value_matcher_description() {
    assert_eq!(ValueMatcher::eq(ji(7)).description(), "equals 7");
    assert_eq!(ValueMatcher::eq(js("a")).description(), "equals \"a\"");
}
