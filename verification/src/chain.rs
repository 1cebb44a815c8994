//! The assertion chain: the stateful core of the crate.
//!
//! A [`JsonTest`] owns the root document.  [`JsonTest::assert_path`]
//! evaluates a path expression on it and wraps the normalized selection
//! in a [`JsonPathAssertion`], whose checks each either hand the chain
//! back unchanged or consume it and return a structured failure.  The
//! chain keeps a shared handle to the root document, so it can pivot to
//! a new expression at any point.

use std::rc::Rc;

use vstd::prelude::*;
use vstd::string::StringExecFns;

use crate::error::FailureKind;
use crate::error::JsonPathError;
use crate::error::ctx_view;
use crate::error::spec_assertion_failed;
use crate::error::spec_comparison_failed;
use crate::error::spec_invalid_path;
use crate::error::spec_not_found;
use crate::error::spec_type_mismatch;
use crate::error::spec_value_mismatch;
use crate::eval::eval_err_of;
use crate::eval::eval_ok;
use crate::eval::evaluate;
use crate::eval::selection_of;
use crate::matchers::regex_check;
use crate::matchers::regex_err_of;
use crate::matchers::regex_match;
use crate::matchers::regex_match_of;
use crate::matchers::regex_valid;
use crate::text::contains_str;
use crate::text::ends_with_str;
use crate::text::spec_contains_str;
use crate::text::starts_with_str;
use crate::value::JsonVal;
use crate::value::JsonValue;
use crate::value::clone_members;
use crate::value::clone_values;
use crate::value::deep_clone;
use crate::value::deep_eq;
use crate::value::lemma_view_arr;
use crate::value::lemma_view_obj;
use crate::value::members_view;
use crate::value::seq_view;

verus! {

broadcast use vstd::std_specs::vec::group_vec_axioms;

/// Relies on `Rc::clone`: the clone is a handle to the same allocation,
/// so it carries the same value.
#[verifier::external_body]
fn share_root(rc: &Rc<JsonValue>) -> (r: Rc<JsonValue>)
    ensures
        r == *rc,
{
    Rc::clone(rc)
}

/// The entry point: owns the root document and starts assertion chains
/// on it.
#[derive(Debug)]
pub struct JsonTest {
    /// The document under test, shared read-only with every chain
    /// derived from it.
    pub json: Rc<JsonValue>,
}

/// One assertion chain: the current path expression, the normalized
/// selection it produced, and a shared handle back to the root document.
#[derive(Debug)]
pub struct JsonPathAssertion {
    /// The path expression the current selection came from.
    pub path_str: String,
    /// The normalized selection.
    pub current_values: Vec<JsonValue>,
    /// The root document, shared with the owning [`JsonTest`].
    pub root: Rc<JsonValue>,
}

impl JsonPathAssertion {
    /// The mathematical selection this chain currently holds.
    pub open spec fn sel(&self) -> Seq<JsonVal> {
        seq_view(self.current_values@)
    }

    /// The first selected value; checks only ever examine this one.
    pub open spec fn first(&self) -> JsonVal {
        self.sel()[0]
    }

    /// The chain's path expression.
    pub open spec fn path(&self) -> Seq<char> {
        self.path_str@
    }

    /// A chain is well formed when its selection is exactly what
    /// evaluating its path on its root document yields.
    pub open spec fn wf(&self) -> bool {
        &&& eval_ok(self.root@, self.path())
        &&& self.sel() == selection_of(self.root@, self.path())
    }
}

/// The failure that any operation needing exactly one selected object
/// raises when the selection is not that: an empty selection is a
/// not-found failure, a single value of another kind or a plural
/// selection is a type mismatch naming the object kind.
pub open spec fn spec_object_error(e: JsonPathError, c: JsonPathAssertion) -> bool {
    if c.sel().len() == 0 {
        spec_not_found(e, c.path())
    } else if c.sel().len() == 1 {
        spec_type_mismatch(e, c.path(), c.sel()[0], "object"@)
    } else {
        spec_type_mismatch(e, c.path(), JsonVal::Arr(c.sel()), "object"@)
    }
}

impl JsonTest {
    /// Wraps a document for testing.
    pub fn new(json: JsonValue) -> (t: JsonTest)
        ensures
            t.json == json,
    {
        JsonTest { json: Rc::new(json) }
    }

    /// Evaluates a path expression on the document and starts a chain on
    /// the normalized selection; an expression the evaluator rejects
    /// comes back as an invalid-path failure.
    pub fn assert_path(&self, path: &str) -> (r: Result<JsonPathAssertion, JsonPathError>)
        ensures
            (r matches Ok(_)) == eval_ok(self.json@, path@),
            r matches Ok(c) ==> c.root == self.json && c.path() == path@ && c.sel()
                == selection_of(self.json@, path@) && c.wf(),
            r matches Err(e) ==> spec_invalid_path(e, eval_err_of(self.json@, path@)),
    {
        let root = share_root(&self.json);
        match evaluate(rc_doc(&root), path) {
            Result::Ok(values) => Result::Ok(
                JsonPathAssertion { path_str: path.to_owned(), current_values: values, root },
            ),
            Result::Err(e) => Result::Err(e),
        }
    }
}

/// Relies on `Rc`'s `Deref`: the reference points at the shared value.
#[verifier::external_body]
fn rc_doc(rc: &Rc<JsonValue>) -> (r: &JsonValue)
    ensures
        *r == **rc,
{
    rc.as_ref()
}

impl JsonPathAssertion {
    /// Evaluates a new path expression on the same root document and
    /// returns a fresh chain for it; the current chain is discarded.
    pub fn assert_path(self, path: &str) -> (r: Result<JsonPathAssertion, JsonPathError>)
        ensures
            (r matches Ok(_)) == eval_ok(self.root@, path@),
            r matches Ok(c) ==> c.root == self.root && c.path() == path@ && c.sel()
                == selection_of(self.root@, path@) && c.wf(),
            r matches Err(e) ==> spec_invalid_path(e, eval_err_of(self.root@, path@)),
    {
        let root = share_root(&self.root);
        match evaluate(rc_doc(&root), path) {
            Result::Ok(values) => Result::Ok(
                JsonPathAssertion { path_str: path.to_owned(), current_values: values, root },
            ),
            Result::Err(e) => Result::Err(e),
        }
    }

    /// Consumes the chain and hands out its first selected value, for a
    /// failure record.
    pub(crate) fn take_first(self) -> (r: (String, JsonValue))
        requires
            self.sel().len() > 0,
        ensures
            r.0@ == self.path(),
            r.1@ == self.first(),
    {
        let mut values = self.current_values;
        let first = values.remove(0);
        (self.path_str, first)
    }

    /// Deep structural equality against the first selected value.
    pub fn equals(self, expected: JsonValue) -> (r: Result<JsonPathAssertion, JsonPathError>)
        ensures
            (r matches Ok(_)) == (self.sel().len() > 0 && self.first() == expected@),
            r matches Ok(c) ==> c == self,
            r matches Err(e) ==> if self.sel().len() == 0 {
                spec_not_found(e, self.path())
            } else {
                spec_value_mismatch(e, self.path(), self.first(), expected@)
            },
    {
        if self.current_values.len() == 0 {
            Result::Err(JsonPathError::not_found(self.path_str))
        } else if deep_eq(&self.current_values[0], &expected) {
            Result::Ok(self)
        } else {
            let (path, first) = self.take_first();
            Result::Err(JsonPathError::value_mismatch(path, first, expected))
        }
    }

    /// The first selected value must be a string.
    pub fn is_string(self) -> (r: Result<JsonPathAssertion, JsonPathError>)
        ensures
            (r matches Ok(_)) == (self.sel().len() > 0 && self.first() is Str),
            r matches Ok(c) ==> c == self,
            r matches Err(e) ==> if self.sel().len() == 0 {
                spec_not_found(e, self.path())
            } else {
                spec_type_mismatch(e, self.path(), self.first(), "string"@)
            },
    {
        if self.current_values.len() == 0 {
            return Result::Err(JsonPathError::not_found(self.path_str));
        }
        let is_kind = match &self.current_values[0] {
            JsonValue::Str(_) => true,
            _ => false,
        };
        if is_kind {
            Result::Ok(self)
        } else {
            let (path, first) = self.take_first();
            Result::Err(JsonPathError::type_mismatch(path, first, "string"))
        }
    }

    /// The first selected value must be a string containing the given
    /// substring.
    pub fn contains_string(self, substring: &str) -> (r: Result<JsonPathAssertion, JsonPathError>)
        ensures
            (r matches Ok(_)) == (self.sel().len() > 0 && self.first() is Str
                && spec_contains_str(self.first()->Str_0, substring@)),
            r matches Ok(c) ==> c == self,
            r matches Err(e) ==> if self.sel().len() == 0 {
                spec_not_found(e, self.path())
            } else if !(self.first() is Str) {
                spec_type_mismatch(e, self.path(), self.first(), "string"@)
            } else {
                spec_assertion_failed(
                    e,
                    FailureKind::PredicateFailed,
                    "String does not contain '"@ + substring@ + "'"@,
                    self.path(),
                    self.first(),
                    Option::None,
                    Seq::empty(),
                )
            },
    {
        if self.current_values.len() == 0 {
            return Result::Err(JsonPathError::not_found(self.path_str));
        }
        let holds = match &self.current_values[0] {
            JsonValue::Str(s) => Option::Some(contains_str(s.as_str(), substring)),
            _ => Option::None,
        };
        match holds {
            Option::Some(true) => Result::Ok(self),
            Option::Some(false) => {
                let mut message = String::from_str("String does not contain '");
                message.append(substring);
                message.append("'");
                let (path, first) = self.take_first();
                let context: Vec<(String, String)> = Vec::new();
                proof {
                    assert(ctx_view(context@) =~= Seq::empty());
                }
                Result::Err(
                    JsonPathError::assertion_failed(
                        FailureKind::PredicateFailed,
                        message,
                        path,
                        first,
                        Option::None,
                        context,
                    ),
                )
            },
            Option::None => {
                let (path, first) = self.take_first();
                Result::Err(JsonPathError::type_mismatch(path, first, "string"))
            },
        }
    }

    /// The first selected value must be a string starting with the given
    /// prefix.
    pub fn starts_with(self, prefix: &str) -> (r: Result<JsonPathAssertion, JsonPathError>)
        ensures
            (r matches Ok(_)) == (self.sel().len() > 0 && self.first() is Str
                && prefix@.is_prefix_of(self.first()->Str_0)),
            r matches Ok(c) ==> c == self,
            r matches Err(e) ==> if self.sel().len() == 0 {
                spec_not_found(e, self.path())
            } else if !(self.first() is Str) {
                spec_type_mismatch(e, self.path(), self.first(), "string"@)
            } else {
                spec_assertion_failed(
                    e,
                    FailureKind::PredicateFailed,
                    "String does not start with '"@ + prefix@ + "'"@,
                    self.path(),
                    self.first(),
                    Option::None,
                    Seq::empty(),
                )
            },
    {
        if self.current_values.len() == 0 {
            return Result::Err(JsonPathError::not_found(self.path_str));
        }
        let holds = match &self.current_values[0] {
            JsonValue::Str(s) => Option::Some(starts_with_str(s.as_str(), prefix)),
            _ => Option::None,
        };
        match holds {
            Option::Some(true) => Result::Ok(self),
            Option::Some(false) => {
                let mut message = String::from_str("String does not start with '");
                message.append(prefix);
                message.append("'");
                let (path, first) = self.take_first();
                let context: Vec<(String, String)> = Vec::new();
                proof {
                    assert(ctx_view(context@) =~= Seq::empty());
                }
                Result::Err(
                    JsonPathError::assertion_failed(
                        FailureKind::PredicateFailed,
                        message,
                        path,
                        first,
                        Option::None,
                        context,
                    ),
                )
            },
            Option::None => {
                let (path, first) = self.take_first();
                Result::Err(JsonPathError::type_mismatch(path, first, "string"))
            },
        }
    }

    /// The first selected value must be a string ending with the given
    /// suffix.
    pub fn ends_with(self, suffix: &str) -> (r: Result<JsonPathAssertion, JsonPathError>)
        ensures
            (r matches Ok(_)) == (self.sel().len() > 0 && self.first() is Str
                && suffix@.is_suffix_of(self.first()->Str_0)),
            r matches Ok(c) ==> c == self,
            r matches Err(e) ==> if self.sel().len() == 0 {
                spec_not_found(e, self.path())
            } else if !(self.first() is Str) {
                spec_type_mismatch(e, self.path(), self.first(), "string"@)
            } else {
                spec_assertion_failed(
                    e,
                    FailureKind::PredicateFailed,
                    "String does not end with '"@ + suffix@ + "'"@,
                    self.path(),
                    self.first(),
                    Option::None,
                    Seq::empty(),
                )
            },
    {
        if self.current_values.len() == 0 {
            return Result::Err(JsonPathError::not_found(self.path_str));
        }
        let holds = match &self.current_values[0] {
            JsonValue::Str(s) => Option::Some(ends_with_str(s.as_str(), suffix)),
            _ => Option::None,
        };
        match holds {
            Option::Some(true) => Result::Ok(self),
            Option::Some(false) => {
                let mut message = String::from_str("String does not end with '");
                message.append(suffix);
                message.append("'");
                let (path, first) = self.take_first();
                let context: Vec<(String, String)> = Vec::new();
                proof {
                    assert(ctx_view(context@) =~= Seq::empty());
                }
                Result::Err(
                    JsonPathError::assertion_failed(
                        FailureKind::PredicateFailed,
                        message,
                        path,
                        first,
                        Option::None,
                        context,
                    ),
                )
            },
            Option::None => {
                let (path, first) = self.take_first();
                Result::Err(JsonPathError::type_mismatch(path, first, "string"))
            },
        }
    }

    /// The first selected value must be a string that the given regular
    /// expression matches.  A pattern the engine rejects fails with an
    /// invalid-pattern diagnostic whatever the document holds.
    pub fn matches_pattern(self, pattern: &str) -> (r: Result<JsonPathAssertion, JsonPathError>)
        ensures
            (r matches Ok(_)) == (regex_valid(pattern@) && self.sel().len() > 0 && self.first()
                is Str && regex_match_of(pattern@, self.first()->Str_0)),
            r matches Ok(c) ==> c == self,
            r matches Err(e) ==> if !regex_valid(pattern@) {
                spec_assertion_failed(
                    e,
                    FailureKind::InvalidPattern,
                    "Invalid regex pattern: "@ + regex_err_of(pattern@),
                    self.path(),
                    JsonVal::Null,
                    Option::None,
                    seq![("Pattern"@, pattern@)],
                )
            } else if self.sel().len() == 0 {
                spec_not_found(e, self.path())
            } else if !(self.first() is Str) {
                spec_type_mismatch(e, self.path(), self.first(), "string"@)
            } else {
                spec_assertion_failed(
                    e,
                    FailureKind::PredicateFailed,
                    "String does not match pattern '"@ + pattern@ + "'"@,
                    self.path(),
                    self.first(),
                    Option::None,
                    Seq::empty(),
                )
            },
    {
        match regex_check(pattern) {
            Result::Err(err_text) => {
                let mut message = String::from_str("Invalid regex pattern: ");
                message.append(err_text.as_str());
                let mut context: Vec<(String, String)> = Vec::new();
                context.push((String::from_str("Pattern"), pattern.to_owned()));
                proof {
                    assert(ctx_view(context@) =~= seq![("Pattern"@, pattern@)]);
                }
                return Result::Err(
                    JsonPathError::assertion_failed(
                        FailureKind::InvalidPattern,
                        message,
                        self.path_str,
                        JsonValue::Null,
                        Option::None,
                        context,
                    ),
                );
            },
            Result::Ok(_) => {},
        }
        if self.current_values.len() == 0 {
            return Result::Err(JsonPathError::not_found(self.path_str));
        }
        let holds = match &self.current_values[0] {
            JsonValue::Str(s) => match regex_match(pattern, s.as_str()) {
                Result::Ok(b) => Option::Some(b),
                Result::Err(_) => {
                    // Unreachable: the pattern was already checked above,
                    // so the engine cannot reject it here.
                    proof {
                        assert(false);
                    }
                    Option::Some(false)
                },
            },
            _ => Option::None,
        };
        match holds {
            Option::Some(true) => Result::Ok(self),
            Option::Some(false) => {
                let mut message = String::from_str("String does not match pattern '");
                message.append(pattern);
                message.append("'");
                let (path, first) = self.take_first();
                let context: Vec<(String, String)> = Vec::new();
                proof {
                    assert(ctx_view(context@) =~= Seq::empty());
                }
                Result::Err(
                    JsonPathError::assertion_failed(
                        FailureKind::PredicateFailed,
                        message,
                        path,
                        first,
                        Option::None,
                        context,
                    ),
                )
            },
            Option::None => {
                let (path, first) = self.take_first();
                Result::Err(JsonPathError::type_mismatch(path, first, "string"))
            },
        }
    }

    /// The first selected value must be a number.
    pub fn is_number(self) -> (r: Result<JsonPathAssertion, JsonPathError>)
        ensures
            (r matches Ok(_)) == (self.sel().len() > 0 && self.first() is Int),
            r matches Ok(c) ==> c == self,
            r matches Err(e) ==> if self.sel().len() == 0 {
                spec_not_found(e, self.path())
            } else {
                spec_type_mismatch(e, self.path(), self.first(), "number"@)
            },
    {
        if self.current_values.len() == 0 {
            return Result::Err(JsonPathError::not_found(self.path_str));
        }
        let is_kind = match &self.current_values[0] {
            JsonValue::Int(_) => true,
            _ => false,
        };
        if is_kind {
            Result::Ok(self)
        } else {
            let (path, first) = self.take_first();
            Result::Err(JsonPathError::type_mismatch(path, first, "number"))
        }
    }

    /// The first selected value must be an array.
    pub fn is_array(self) -> (r: Result<JsonPathAssertion, JsonPathError>)
        ensures
            (r matches Ok(_)) == (self.sel().len() > 0 && self.first() is Arr),
            r matches Ok(c) ==> c == self,
            r matches Err(e) ==> if self.sel().len() == 0 {
                spec_not_found(e, self.path())
            } else {
                spec_type_mismatch(e, self.path(), self.first(), "array"@)
            },
    {
        if self.current_values.len() == 0 {
            return Result::Err(JsonPathError::not_found(self.path_str));
        }
        let is_kind = match &self.current_values[0] {
            JsonValue::Arr(_) => true,
            _ => false,
        };
        if is_kind {
            Result::Ok(self)
        } else {
            let (path, first) = self.take_first();
            Result::Err(JsonPathError::type_mismatch(path, first, "array"))
        }
    }

    /// The failure for a numeric comparison that did not hold.
    fn comparison_error(self, operation: &str, comparison_value: JsonValue) -> (e: JsonPathError)
        requires
            self.sel().len() > 0,
        ensures
            spec_comparison_failed(e, self.path(), self.first(), operation@, comparison_value@),
    {
        let (path, first) = self.take_first();
        JsonPathError::comparison_failed(path, first, operation, comparison_value)
    }

    /// The first selected value must be a number strictly greater than
    /// the given one.
    pub fn is_greater_than(self, value: i64) -> (r: Result<JsonPathAssertion, JsonPathError>)
        ensures
            (r matches Ok(_)) == (self.sel().len() > 0 && self.first() is Int && self.first()
                ->Int_0 > value),
            r matches Ok(c) ==> c == self,
            r matches Err(e) ==> if self.sel().len() == 0 {
                spec_not_found(e, self.path())
            } else if !(self.first() is Int) {
                spec_type_mismatch(e, self.path(), self.first(), "number"@)
            } else {
                spec_comparison_failed(
                    e,
                    self.path(),
                    self.first(),
                    "GreaterThan"@,
                    JsonVal::Int(value as int),
                )
            },
    {
        if self.current_values.len() == 0 {
            return Result::Err(JsonPathError::not_found(self.path_str));
        }
        let holds = match &self.current_values[0] {
            JsonValue::Int(i) => Option::Some(*i > value),
            _ => Option::None,
        };
        match holds {
            Option::Some(true) => Result::Ok(self),
            Option::Some(false) => Result::Err(
                self.comparison_error("GreaterThan", JsonValue::Int(value)),
            ),
            Option::None => {
                let (path, first) = self.take_first();
                Result::Err(JsonPathError::type_mismatch(path, first, "number"))
            },
        }
    }

    /// The first selected value must be a number strictly less than the
    /// given one.
    pub fn is_less_than(self, value: i64) -> (r: Result<JsonPathAssertion, JsonPathError>)
        ensures
            (r matches Ok(_)) == (self.sel().len() > 0 && self.first() is Int && self.first()
                ->Int_0 < value),
            r matches Ok(c) ==> c == self,
            r matches Err(e) ==> if self.sel().len() == 0 {
                spec_not_found(e, self.path())
            } else if !(self.first() is Int) {
                spec_type_mismatch(e, self.path(), self.first(), "number"@)
            } else {
                spec_comparison_failed(
                    e,
                    self.path(),
                    self.first(),
                    "LessThan"@,
                    JsonVal::Int(value as int),
                )
            },
    {
        if self.current_values.len() == 0 {
            return Result::Err(JsonPathError::not_found(self.path_str));
        }
        let holds = match &self.current_values[0] {
            JsonValue::Int(i) => Option::Some(*i < value),
            _ => Option::None,
        };
        match holds {
            Option::Some(true) => Result::Ok(self),
            Option::Some(false) => Result::Err(
                self.comparison_error("LessThan", JsonValue::Int(value)),
            ),
            Option::None => {
                let (path, first) = self.take_first();
                Result::Err(JsonPathError::type_mismatch(path, first, "number"))
            },
        }
    }

    /// The first selected value must be a number between the given bounds,
    /// both inclusive.
    pub fn is_between(self, min: i64, max: i64) -> (r: Result<JsonPathAssertion, JsonPathError>)
        ensures
            (r matches Ok(_)) == (self.sel().len() > 0 && self.first() is Int && min
                <= self.first()->Int_0 <= max),
            r matches Ok(c) ==> c == self,
            r matches Err(e) ==> if self.sel().len() == 0 {
                spec_not_found(e, self.path())
            } else if !(self.first() is Int) {
                spec_type_mismatch(e, self.path(), self.first(), "number"@)
            } else {
                spec_comparison_failed(
                    e,
                    self.path(),
                    self.first(),
                    "Between"@,
                    JsonVal::Arr(seq![JsonVal::Int(min as int), JsonVal::Int(max as int)]),
                )
            },
    {
        if self.current_values.len() == 0 {
            return Result::Err(JsonPathError::not_found(self.path_str));
        }
        let holds = match &self.current_values[0] {
            JsonValue::Int(i) => Option::Some(min <= *i && *i <= max),
            _ => Option::None,
        };
        match holds {
            Option::Some(true) => Result::Ok(self),
            Option::Some(false) => {
                let mut bounds: Vec<JsonValue> = Vec::new();
                bounds.push(JsonValue::Int(min));
                bounds.push(JsonValue::Int(max));
                let operand = JsonValue::Arr(bounds);
                proof {
                    lemma_view_arr(bounds);
                    assert(seq_view(bounds@) =~= seq![
                        JsonVal::Int(min as int),
                        JsonVal::Int(max as int),
                    ]);
                }
                Result::Err(self.comparison_error("Between", operand))
            },
            Option::None => {
                let (path, first) = self.take_first();
                Result::Err(JsonPathError::type_mismatch(path, first, "number"))
            },
        }
    }

    /// The first selected value must be an array with exactly this many
    /// elements.
    pub fn has_length(self, expected: usize) -> (r: Result<JsonPathAssertion, JsonPathError>)
        ensures
            (r matches Ok(_)) == (self.sel().len() > 0 && self.first() is Arr && self.first()
                ->Arr_0.len() == expected),
            r matches Ok(c) ==> c == self,
            r matches Err(e) ==> if self.sel().len() == 0 {
                spec_not_found(e, self.path())
            } else if !(self.first() is Arr) {
                spec_type_mismatch(e, self.path(), self.first(), "array"@)
            } else {
                spec_comparison_failed(
                    e,
                    self.path(),
                    self.first(),
                    "Length"@,
                    JsonVal::Int(
                        if expected <= i64::MAX {
                            expected as int
                        } else {
                            i64::MAX as int
                        },
                    ),
                )
            },
    {
        if self.current_values.len() == 0 {
            return Result::Err(JsonPathError::not_found(self.path_str));
        }
        let holds = match &self.current_values[0] {
            JsonValue::Arr(items) => {
                proof {
                    lemma_view_arr(*items);
                }
                Option::Some(items.len() == expected)
            },
            _ => Option::None,
        };
        match holds {
            Option::Some(true) => Result::Ok(self),
            Option::Some(false) => {
                let operand = if (expected as u64) <= (i64::MAX as u64) {
                    JsonValue::Int(expected as i64)
                } else {
                    JsonValue::Int(i64::MAX)
                };
                Result::Err(self.comparison_error("Length", operand))
            },
            Option::None => {
                let (path, first) = self.take_first();
                Result::Err(JsonPathError::type_mismatch(path, first, "array"))
            },
        }
    }

    /// The first selected value must be an array holding a member that is
    /// deep-structurally equal to the expected value.
    pub fn contains(self, expected: &JsonValue) -> (r: Result<JsonPathAssertion, JsonPathError>)
        ensures
            (r matches Ok(_)) == (self.sel().len() > 0 && self.first() is Arr && self.first()
                ->Arr_0.contains(expected@)),
            r matches Ok(c) ==> c == self,
            r matches Err(e) ==> if self.sel().len() == 0 {
                spec_not_found(e, self.path())
            } else if !(self.first() is Arr) {
                spec_type_mismatch(e, self.path(), self.first(), "array"@)
            } else {
                spec_assertion_failed(
                    e,
                    FailureKind::ValueMismatch,
                    "Array does not contain expected value"@,
                    self.path(),
                    self.first(),
                    Option::Some(expected@),
                    Seq::empty(),
                )
            },
    {
        if self.current_values.len() == 0 {
            return Result::Err(JsonPathError::not_found(self.path_str));
        }
        let holds = match &self.current_values[0] {
            JsonValue::Arr(items) => {
                proof {
                    lemma_view_arr(*items);
                }
                let n: usize = items.len();
                let mut found = false;
                let mut i: usize = 0;
                while i < n
                    invariant
                        n == items@.len(),
                        i <= n,
                        found == exists|j: int| 0 <= j < i && seq_view(items@)[j] == expected@,
                    decreases n - i,
                {
                    if deep_eq(&items[i], expected) {
                        proof {
                            assert(seq_view(items@)[i as int] == expected@);
                        }
                        found = true;
                    }
                    i = i + 1;
                }
                proof {
                    if found {
                        assert(seq_view(items@).contains(expected@));
                    } else {
                        assert(!seq_view(items@).contains(expected@)) by {
                            if seq_view(items@).contains(expected@) {
                                let j = choose|j: int|
                                    0 <= j < seq_view(items@).len() && seq_view(items@)[j]
                                        == expected@;
                                assert(seq_view(items@)[j] == expected@);
                            }
                        }
                    }
                }
                Option::Some(found)
            },
            _ => Option::None,
        };
        match holds {
            Option::Some(true) => Result::Ok(self),
            Option::Some(false) => {
                let expected_copy = deep_clone(expected);
                let (path, first) = self.take_first();
                let context: Vec<(String, String)> = Vec::new();
                proof {
                    assert(ctx_view(context@) =~= Seq::empty());
                }
                Result::Err(
                    JsonPathError::assertion_failed(
                        FailureKind::ValueMismatch,
                        String::from_str("Array does not contain expected value"),
                        path,
                        first,
                        Option::Some(expected_copy),
                        context,
                    ),
                )
            },
            Option::None => {
                let (path, first) = self.take_first();
                Result::Err(JsonPathError::type_mismatch(path, first, "array"))
            },
        }
    }

    /// The first selected value must satisfy a caller-supplied predicate.
    pub fn matches<F: Fn(&JsonValue) -> bool>(self, predicate: F) -> (r: Result<
        JsonPathAssertion,
        JsonPathError,
    >)
        requires
            forall|v: &JsonValue| #[trigger] call_requires(predicate, (v,)),
        ensures
            r matches Ok(c) ==> c == self && self.sel().len() > 0 && exists|w: &JsonValue|
                w@ == self.first() && call_ensures(predicate, (w,), true),
            r matches Err(e) ==> if self.sel().len() == 0 {
                spec_not_found(e, self.path())
            } else {
                (exists|w: &JsonValue| w@ == self.first() && call_ensures(predicate, (w,), false))
                    && spec_assertion_failed(
                    e,
                    FailureKind::PredicateFailed,
                    "Value does not match predicate"@,
                    self.path(),
                    self.first(),
                    Option::None,
                    Seq::empty(),
                )
            },
    {
        if self.current_values.len() == 0 {
            return Result::Err(JsonPathError::not_found(self.path_str));
        }
        let holds = predicate(&self.current_values[0]);
        if holds {
            Result::Ok(self)
        } else {
            let (path, first) = self.take_first();
            let context: Vec<(String, String)> = Vec::new();
            proof {
                assert(ctx_view(context@) =~= Seq::empty());
            }
            Result::Err(
                JsonPathError::assertion_failed(
                    FailureKind::PredicateFailed,
                    String::from_str("Value does not match predicate"),
                    path,
                    first,
                    Option::None,
                    context,
                ),
            )
        }
    }

    /// The selection must be exactly one object; returns a structurally
    /// identical copy of its members, in order.
    pub fn assert_object(&self) -> (r: Result<Vec<(String, JsonValue)>, JsonPathError>)
        ensures
            (r matches Ok(_)) == (self.sel().len() == 1 && self.sel()[0] is Obj),
            r matches Ok(ms) ==> members_view(ms@) == self.sel()[0]->Obj_0,
            r matches Err(e) ==> spec_object_error(e, *self),
    {
        if self.current_values.len() == 0 {
            return Result::Err(JsonPathError::not_found(self.path_str.clone()));
        }
        if self.current_values.len() != 1 {
            let copies = clone_values(&self.current_values);
            let actual = JsonValue::Arr(copies);
            proof {
                lemma_view_arr(copies);
            }
            return Result::Err(
                JsonPathError::type_mismatch(self.path_str.clone(), actual, "object"),
            );
        }
        match &self.current_values[0] {
            JsonValue::Obj(members) => {
                proof {
                    lemma_view_obj(*members);
                }
                Result::Ok(clone_members(members))
            },
            _ => {
                let actual = deep_clone(&self.current_values[0]);
                Result::Err(
                    JsonPathError::type_mismatch(self.path_str.clone(), actual, "object"),
                )
            },
        }
    }

    /// Passes exactly when the selection is non-empty.
    pub fn is_present(self) -> (r: Result<JsonPathAssertion, JsonPathError>)
        ensures
            (r matches Ok(_)) == (self.sel().len() > 0),
            r matches Ok(c) ==> c == self,
            r matches Err(e) ==> spec_assertion_failed(
                e,
                FailureKind::NotFound,
                "Path does not exist"@,
                self.path(),
                JsonVal::Null,
                Option::None,
                Seq::empty(),
            ),
    {
        if self.current_values.len() == 0 {
            let context: Vec<(String, String)> = Vec::new();
            proof {
                assert(ctx_view(context@) =~= Seq::empty());
            }
            Result::Err(
                JsonPathError::assertion_failed(
                    FailureKind::NotFound,
                    String::from_str("Path does not exist"),
                    self.path_str,
                    JsonValue::Null,
                    Option::None,
                    context,
                ),
            )
        } else {
            Result::Ok(self)
        }
    }

    /// Passes exactly when the selection is empty; the failure carries
    /// every selected value.
    pub fn does_not_exist(self) -> (r: Result<JsonPathAssertion, JsonPathError>)
        ensures
            (r matches Ok(_)) == (self.sel().len() == 0),
            r matches Ok(c) ==> c == self,
            r matches Err(e) ==> spec_assertion_failed(
                e,
                FailureKind::PredicateFailed,
                "Path exists but should not"@,
                self.path(),
                JsonVal::Arr(self.sel()),
                Option::None,
                Seq::empty(),
            ),
    {
        if self.current_values.len() != 0 {
            let context: Vec<(String, String)> = Vec::new();
            let found = JsonValue::Arr(self.current_values);
            proof {
                assert(ctx_view(context@) =~= Seq::empty());
                lemma_view_arr(self.current_values);
            }
            Result::Err(
                JsonPathError::assertion_failed(
                    FailureKind::PredicateFailed,
                    String::from_str("Path exists but should not"),
                    self.path_str,
                    found,
                    Option::None,
                    context,
                ),
            )
        } else {
            Result::Ok(self)
        }
    }
}

/// Deep equality against the selection is decided by structure alone:
/// on a non-empty selection whose first value is `v`, the condition
/// under which [`JsonPathAssertion::equals`] passes holds for an
/// expected value equal to `v` and fails for every structurally
/// different `w` — so asserting the selected value itself always
/// passes, and asserting a different one always raises the
/// value-mismatch failure.
pub proof fn lemma_equals_is_structural(c: JsonPathAssertion, v: JsonVal, w: JsonVal)
    requires
        c.sel().len() > 0,
        c.first() == v,
        v != w,
    ensures
        c.sel().len() > 0 && c.first() == v,
        !(c.sel().len() > 0 && c.first() == w),
{
}

/// Pivoting is fresh evaluation: any two well-formed chains over the
/// same root document and the same expression hold the same normalized
/// selection.  In particular, a chain obtained by pivoting an older
/// chain with [`JsonPathAssertion::assert_path`] holds exactly the
/// selection a fresh [`JsonTest::assert_path`] over that document
/// yields; nothing of the older chain's state carries over.
pub proof fn lemma_pivot_is_fresh_evaluation(
    pivoted: JsonPathAssertion,
    fresh: JsonPathAssertion,
    expr: Seq<char>,
)
    requires
        pivoted.root@ == fresh.root@,
        pivoted.path() == expr,
        fresh.path() == expr,
        pivoted.wf(),
        fresh.wf(),
    ensures
        pivoted.sel() == fresh.sel(),
{
}

} // verus!
