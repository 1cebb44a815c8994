//! Pluggable value matchers, and the trusted boundary to the regular
//! expression engine.
//!
//! [`JsonMatcher`] is the extension point: a predicate over values with a
//! human-readable description.  Three built-in matchers cover regular
//! expression matching, runtime-kind matching and deep equality.

use vstd::prelude::*;
use vstd::string::StringExecFns;

use crate::render::render_value;
use crate::render::spec_render;
use crate::text::str_eq;
use crate::value::deep_eq;
use crate::value::spec_kind_name;
use crate::value::JsonVal;
use crate::value::JsonValue;

verus! {

/// Whether the regular expression engine accepts this pattern.  The
/// engine is deterministic, so this is a function of the pattern alone.
pub uninterp spec fn regex_valid(pattern: Seq<char>) -> bool;

/// Whether this pattern matches somewhere in this text, for a pattern
/// the engine accepts.  The engine is deterministic, so this is a
/// function of the pattern and the text alone.
pub uninterp spec fn regex_match_of(pattern: Seq<char>, text: Seq<char>) -> bool;

/// The engine's own message when it rejects this pattern.
pub uninterp spec fn regex_err_of(pattern: Seq<char>) -> Seq<char>;

/// Relies on `regex::Regex::new`: compilation succeeds or fails on the
/// pattern's text alone, and the message describes the rejected pattern.
#[verifier::external_body]
pub(crate) fn regex_check(pattern: &str) -> (r: Result<(), String>)
    ensures
        (r matches Ok(_)) == regex_valid(pattern@),
        r matches Err(m) ==> m@ == regex_err_of(pattern@),
{
    match regex::Regex::new(pattern) {
        Ok(_) => Ok(()),
        Err(e) => Err(e.to_string()),
    }
}

/// Relies on `regex::Regex::new` and `regex::Regex::is_match`: for a
/// pattern the engine accepts, whether the pattern matches somewhere in
/// the text depends on the pattern and the text alone.
#[verifier::external_body]
pub(crate) fn regex_match(pattern: &str, text: &str) -> (r: Result<bool, String>)
    ensures
        (r matches Ok(_)) == regex_valid(pattern@),
        r matches Ok(b) ==> b == regex_match_of(pattern@, text@),
        r matches Err(m) ==> m@ == regex_err_of(pattern@),
{
    match regex::Regex::new(pattern) {
        Ok(re) => Ok(re.is_match(text)),
        Err(e) => Err(e.to_string()),
    }
}

/// A pluggable value predicate with a human-readable description.
///
/// Implement this to add new checks without touching the chain: each
/// matcher states its own mathematical criterion as `spec_matches`, and
/// its executable `matches` must decide exactly that criterion.
pub trait JsonMatcher: Sized {
    /// The criterion this matcher decides.  The default leaves the
    /// criterion unspecified, for matchers written outside the verifier;
    /// the built-in matchers each state theirs.
    open spec fn spec_matches(&self, value: &JsonValue) -> bool {
        arbitrary()
    }

    /// The description's text.  The default leaves it unspecified.
    open spec fn spec_description(&self) -> Seq<char> {
        arbitrary()
    }

    /// Whether the value satisfies this matcher's criterion.
    fn matches(&self, value: &JsonValue) -> (r: bool)
        ensures
            r == self.spec_matches(value),
    ;

    /// A human-readable description of the criterion, for diagnostics.
    fn description(&self) -> (r: String)
        ensures
            r@ == self.spec_description(),
    ;
}

/// Matches strings that a regular expression matches; never matches a
/// value of any other kind.
pub struct RegexMatcher {
    source: String,
}

impl RegexMatcher {
    /// The pattern this matcher was built from.
    pub closed spec fn pattern_text(&self) -> Seq<char> {
        self.source@
    }

    /// Builds a matcher from a pattern, or reports the engine's own
    /// message when the pattern does not compile.
    pub fn new(pattern: &str) -> (r: Result<RegexMatcher, String>)
        ensures
            (r matches Ok(_)) == regex_valid(pattern@),
            r matches Ok(m) ==> m.pattern_text() == pattern@,
            r matches Err(t) ==> t@ == regex_err_of(pattern@),
    {
        match regex_check(pattern) {
            Result::Ok(_) => Result::Ok(RegexMatcher { source: pattern.to_owned() }),
            Result::Err(t) => Result::Err(t),
        }
    }
}

impl JsonMatcher for RegexMatcher {
    open spec fn spec_matches(&self, value: &JsonValue) -> bool {
        &&& value@ is Str
        &&& regex_valid(self.pattern_text())
        &&& regex_match_of(self.pattern_text(), value@->Str_0)
    }

    open spec fn spec_description(&self) -> Seq<char> {
        "matches regex pattern "@ + self.pattern_text()
    }

    fn matches(&self, value: &JsonValue) -> (r: bool)
        ensures
            r == self.spec_matches(value),
    {
        match value {
            JsonValue::Str(s) => match regex_match(self.source.as_str(), s.as_str()) {
                Result::Ok(b) => b,
                Result::Err(_) => false,
            },
            _ => false,
        }
    }

    fn description(&self) -> (r: String)
        ensures
            r@ == self.spec_description(),
    {
        let mut out = String::from_str("matches regex pattern ");
        out.append(self.source.as_str());
        out
    }
}

/// Matches values of one runtime kind, named as in diagnostics:
/// `"string"`, `"number"`, `"boolean"`, `"null"`, `"array"` or
/// `"object"`.  An unknown name matches nothing.
pub struct TypeMatcher {
    expected_type: &'static str,
}

impl TypeMatcher {
    /// The name of the kind this matcher accepts.
    pub closed spec fn expected_kind(&self) -> Seq<char> {
        self.expected_type@
    }

    /// A matcher for the named kind.
    pub fn new(expected_type: &'static str) -> (m: TypeMatcher)
        ensures
            m.expected_kind() == expected_type@,
    {
        TypeMatcher { expected_type }
    }

    /// A matcher for strings.
    pub fn string() -> (m: TypeMatcher)
        ensures
            m.expected_kind() == "string"@,
    {
        TypeMatcher::new("string")
    }

    /// A matcher for numbers.
    pub fn number() -> (m: TypeMatcher)
        ensures
            m.expected_kind() == "number"@,
    {
        TypeMatcher::new("number")
    }

    /// A matcher for booleans.
    pub fn boolean() -> (m: TypeMatcher)
        ensures
            m.expected_kind() == "boolean"@,
    {
        TypeMatcher::new("boolean")
    }

    /// A matcher for arrays.
    pub fn array() -> (m: TypeMatcher)
        ensures
            m.expected_kind() == "array"@,
    {
        TypeMatcher::new("array")
    }

    /// A matcher for objects.
    pub fn object() -> (m: TypeMatcher)
        ensures
            m.expected_kind() == "object"@,
    {
        TypeMatcher::new("object")
    }

    /// A matcher for null.
    pub fn null() -> (m: TypeMatcher)
        ensures
            m.expected_kind() == "null"@,
    {
        TypeMatcher::new("null")
    }
}

impl JsonMatcher for TypeMatcher {
    open spec fn spec_matches(&self, value: &JsonValue) -> bool {
        self.expected_kind() == spec_kind_name(value@)
    }

    open spec fn spec_description(&self) -> Seq<char> {
        "is of type "@ + self.expected_kind()
    }

    fn matches(&self, value: &JsonValue) -> (r: bool)
        ensures
            r == self.spec_matches(value),
    {
        str_eq(self.expected_type, value.kind_name())
    }

    fn description(&self) -> (r: String)
        ensures
            r@ == self.spec_description(),
    {
        let mut out = String::from_str("is of type ");
        out.append(self.expected_type);
        out
    }
}

/// Matches values deep-structurally equal to one expected value.
pub struct ValueMatcher {
    expected: JsonValue,
}

impl ValueMatcher {
    /// The value this matcher compares against.
    pub closed spec fn expected_value(&self) -> JsonVal {
        self.expected@
    }

    /// A matcher for values equal to the given one.
    pub fn new(expected: JsonValue) -> (m: ValueMatcher)
        ensures
            m.expected_value() == expected@,
    {
        ValueMatcher { expected }
    }

    /// A matcher for values equal to the given one.
    pub fn eq(expected: JsonValue) -> (m: ValueMatcher)
        ensures
            m.expected_value() == expected@,
    {
        ValueMatcher::new(expected)
    }
}

impl JsonMatcher for ValueMatcher {
    open spec fn spec_matches(&self, value: &JsonValue) -> bool {
        value@ == self.expected_value()
    }

    open spec fn spec_description(&self) -> Seq<char> {
        "equals "@ + spec_render(self.expected_value())
    }

    fn matches(&self, value: &JsonValue) -> (r: bool)
        ensures
            r == self.spec_matches(value),
    {
        deep_eq(value, &self.expected)
    }

    fn description(&self) -> (r: String)
        ensures
            r@ == self.spec_description(),
    {
        let mut out = String::from_str("equals ");
        let rendered = render_value(&self.expected);
        out.append(rendered.as_str());
        out
    }
}

} // verus!
