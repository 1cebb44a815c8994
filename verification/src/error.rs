//! The structured diagnostics model.
//!
//! Every failed check produces a [`JsonPathError`]: either a structured
//! assertion failure carrying a [`FailureKind`], the path, the offending
//! value, an optional expected value and free-form context entries, or an
//! invalid-path report that wraps the evaluator's own message.

use vstd::prelude::*;
use vstd::string::StringExecFns;

use crate::render::render_value;
use crate::render::spec_render;
use crate::text::str_eq;
use crate::value::spec_kind_name;
use crate::value::JsonVal;
use crate::value::JsonValue;

verus! {

broadcast use vstd::std_specs::vec::group_vec_axioms;

/// The kinds of check failure this crate distinguishes.
#[derive(Clone, Copy, Debug, PartialEq, Eq, Structural)]
pub enum FailureKind {
    /// The selection was empty where a value was required.
    NotFound,
    /// A value was present but of the wrong runtime kind.
    TypeMismatch,
    /// A deep-equality check failed.
    ValueMismatch,
    /// A numeric, ordering or length check failed.
    ComparisonFailed,
    /// An object lacks a required member.
    PropertyMissing,
    /// An object's member count was not the one required.
    PropertyCountMismatch,
    /// A caller-supplied or built-in predicate rejected the value.
    PredicateFailed,
    /// A regular expression failed to compile.
    InvalidPattern,
}

/// A structured failure: what failed, where, on which value.
#[derive(Debug)]
pub enum JsonPathError {
    /// A check on a selected value failed.
    AssertionFailed {
        kind: FailureKind,
        message: String,
        path: String,
        actual: JsonValue,
        expected: Option<JsonValue>,
        context: Vec<(String, String)>,
    },
    /// The path expression could not be parsed or evaluated; the payload
    /// is the evaluator's own message.
    InvalidPath(String),
}

/// The views of a list of context entries.
pub open spec fn ctx_view(c: Seq<(String, String)>) -> Seq<(Seq<char>, Seq<char>)> {
    Seq::new(c.len(), |i: int| (c[i].0@, c[i].1@))
}

/// `e` is an assertion failure whose fields carry exactly the given
/// mathematical values.
pub open spec fn spec_assertion_failed(
    e: JsonPathError,
    kind: FailureKind,
    message: Seq<char>,
    path: Seq<char>,
    actual: JsonVal,
    expected: Option<JsonVal>,
    context: Seq<(Seq<char>, Seq<char>)>,
) -> bool {
    &&& e matches JsonPathError::AssertionFailed {
        kind: k,
        message: m,
        path: p,
        actual: a,
        expected: x,
        context: c,
    }
    &&& k == kind
    &&& m@ == message
    &&& p@ == path
    &&& a@ == actual
    &&& match (x, expected) {
        (Option::None, Option::None) => true,
        (Option::Some(v), Option::Some(w)) => v@ == w,
        _ => false,
    }
    &&& ctx_view(c@) == context
}

/// `e` reports an invalid path expression with exactly this text.
pub open spec fn spec_invalid_path(e: JsonPathError, text: Seq<char>) -> bool {
    e matches JsonPathError::InvalidPath(t) && t@ == text
}

impl JsonPathError {
    /// The general constructor: an assertion failure with every field
    /// supplied by the caller.
    pub fn assertion_failed(
        kind: FailureKind,
        message: String,
        path: String,
        actual: JsonValue,
        expected: Option<JsonValue>,
        context: Vec<(String, String)>,
    ) -> (e: JsonPathError)
        ensures
            spec_assertion_failed(
                e,
                kind,
                message@,
                path@,
                actual@,
                match expected {
                    Option::Some(v) => Option::Some(v@),
                    Option::None => Option::None,
                },
                ctx_view(context@),
            ),
    {
        JsonPathError::AssertionFailed { kind, message, path, actual, expected, context }
    }
}

/// `e` is the standard type-mismatch failure: it names the kind that was
/// required and the kind that was found.
pub open spec fn spec_type_mismatch(
    e: JsonPathError,
    path: Seq<char>,
    actual: JsonVal,
    expected_type: Seq<char>,
) -> bool {
    spec_assertion_failed(
        e,
        FailureKind::TypeMismatch,
        "Expected value of type "@ + expected_type,
        path,
        actual,
        Option::None,
        seq![("Expected Type"@, expected_type), ("Actual Type"@, spec_kind_name(actual))],
    )
}

/// `e` is the standard equality failure: it carries both values.
pub open spec fn spec_value_mismatch(
    e: JsonPathError,
    path: Seq<char>,
    actual: JsonVal,
    expected: JsonVal,
) -> bool {
    spec_assertion_failed(
        e,
        FailureKind::ValueMismatch,
        "Value mismatch"@,
        path,
        actual,
        Option::Some(expected),
        seq![("Operation"@, "Equality"@)],
    )
}

/// `e` is the standard comparison failure: it names the operation and the
/// operand it compared against.
pub open spec fn spec_comparison_failed(
    e: JsonPathError,
    path: Seq<char>,
    actual: JsonVal,
    operation: Seq<char>,
    comparison: JsonVal,
) -> bool {
    spec_assertion_failed(
        e,
        FailureKind::ComparisonFailed,
        "Value comparison failed for operation: "@ + operation,
        path,
        actual,
        Option::None,
        seq![("Operation"@, operation), ("Comparison Value"@, spec_render(comparison))],
    )
}

/// `context` with one entry set: every existing entry under this key is
/// overwritten with the new value; if the key is absent, the entry is
/// appended.
pub open spec fn ctx_insert(
    c: Seq<(Seq<char>, Seq<char>)>,
    key: Seq<char>,
    value: Seq<char>,
) -> Seq<(Seq<char>, Seq<char>)> {
    if exists|j: int| 0 <= j < c.len() && c[j].0 == key {
        Seq::new(
            c.len(),
            |j: int| if c[j].0 == key {
                (key, value)
            } else {
                c[j]
            },
        )
    } else {
        c.push((key, value))
    }
}

/// `context` with the first `k` of the given entries set in order.
pub open spec fn ctx_insert_all(
    c: Seq<(Seq<char>, Seq<char>)>,
    entries: Seq<(Seq<char>, Seq<char>)>,
    k: int,
) -> Seq<(Seq<char>, Seq<char>)>
    decreases k,
{
    if k <= 0 || k > entries.len() {
        c
    } else {
        ctx_insert(ctx_insert_all(c, entries, k - 1), entries[k - 1].0, entries[k - 1].1)
    }
}

/// `e` is the standard empty-selection failure.
pub open spec fn spec_not_found(e: JsonPathError, path: Seq<char>) -> bool {
    spec_assertion_failed(
        e,
        FailureKind::NotFound,
        "No value found"@,
        path,
        JsonVal::Null,
        Option::None,
        Seq::empty(),
    )
}

impl JsonPathError {
    /// The standard type-mismatch failure for this path and value.
    pub fn type_mismatch(path: String, actual: JsonValue, expected_type: &str) -> (e:
        JsonPathError)
        ensures
            spec_type_mismatch(e, path@, actual@, expected_type@),
    {
        let mut message = String::from_str("Expected value of type ");
        message.append(expected_type);
        let kind_of_actual = actual.kind_name();
        let mut context: Vec<(String, String)> = Vec::new();
        context.push((String::from_str("Expected Type"), expected_type.to_owned()));
        context.push((String::from_str("Actual Type"), kind_of_actual.to_owned()));
        let e = JsonPathError::AssertionFailed {
            kind: FailureKind::TypeMismatch,
            message,
            path,
            actual,
            expected: Option::None,
            context,
        };
        proof {
            assert(ctx_view(context@) =~= seq![
                ("Expected Type"@, expected_type@),
                ("Actual Type"@, kind_of_actual@),
            ]);
        }
        e
    }

    /// The standard equality failure for this path and pair of values.
    pub fn value_mismatch(path: String, actual: JsonValue, expected: JsonValue) -> (e:
        JsonPathError)
        ensures
            spec_value_mismatch(e, path@, actual@, expected@),
    {
        let mut context: Vec<(String, String)> = Vec::new();
        context.push((String::from_str("Operation"), String::from_str("Equality")));
        let e = JsonPathError::AssertionFailed {
            kind: FailureKind::ValueMismatch,
            message: String::from_str("Value mismatch"),
            path,
            actual,
            expected: Option::Some(expected),
            context,
        };
        proof {
            assert(ctx_view(context@) =~= seq![("Operation"@, "Equality"@)]);
        }
        e
    }

    /// The standard comparison failure for this path, value, operation and
    /// operand.
    pub fn comparison_failed(
        path: String,
        actual: JsonValue,
        operation: &str,
        comparison_value: JsonValue,
    ) -> (e: JsonPathError)
        ensures
            spec_comparison_failed(e, path@, actual@, operation@, comparison_value@),
    {
        let mut message = String::from_str("Value comparison failed for operation: ");
        message.append(operation);
        let rendered = render_value(&comparison_value);
        let mut context: Vec<(String, String)> = Vec::new();
        context.push((String::from_str("Operation"), operation.to_owned()));
        context.push((String::from_str("Comparison Value"), rendered));
        let e = JsonPathError::AssertionFailed {
            kind: FailureKind::ComparisonFailed,
            message,
            path,
            actual,
            expected: Option::None,
            context,
        };
        proof {
            assert(ctx_view(context@) =~= seq![
                ("Operation"@, operation@),
                ("Comparison Value"@, spec_render(comparison_value@)),
            ]);
        }
        e
    }

    /// A failure about an object's members, with a caller-supplied kind,
    /// message and context.
    pub fn property_error(
        kind: FailureKind,
        path: String,
        actual: JsonValue,
        message: String,
        context: Vec<(String, String)>,
    ) -> (e: JsonPathError)
        ensures
            spec_assertion_failed(
                e,
                kind,
                message@,
                path@,
                actual@,
                Option::None,
                ctx_view(context@),
            ),
    {
        JsonPathError::AssertionFailed {
            kind,
            message,
            path,
            actual,
            expected: Option::None,
            context,
        }
    }

    /// A copy of this failure with one context entry added.  An existing
    /// entry under the same key is overwritten; otherwise the entry is
    /// appended.  An invalid-path report carries no context and is
    /// returned unchanged.
    pub fn with_context(self, key: &str, value: &str) -> (r: JsonPathError)
        ensures
            self matches JsonPathError::InvalidPath(t) ==> r == self,
            self matches JsonPathError::AssertionFailed {
                kind,
                message,
                path,
                actual,
                expected,
                context,
            } ==> spec_assertion_failed(
                r,
                kind,
                message@,
                path@,
                actual@,
                match expected {
                    Option::Some(v) => Option::Some(v@),
                    Option::None => Option::None,
                },
                ctx_insert(ctx_view(context@), key@, value@),
            ),
    {
        match self {
            JsonPathError::InvalidPath(t) => JsonPathError::InvalidPath(t),
            JsonPathError::AssertionFailed { kind, message, path, actual, expected, context } => {
                let n: usize = context.len();
                let mut out: Vec<(String, String)> = Vec::new();
                let mut found = false;
                let mut i: usize = 0;
                while i < n
                    invariant
                        n == context@.len(),
                        i <= n,
                        out@.len() == i,
                        found == exists|j: int|
                            0 <= j < i && ctx_view(context@)[j].0 == key@,
                        forall|j: int| 0 <= j < i ==> ctx_view(out@)[j] == (
                        if ctx_view(context@)[j].0 == key@ {
                            (key@, value@)
                        } else {
                            ctx_view(context@)[j]
                        }),
                    decreases n - i,
                {
                    let ghost prev = out@;
                    let same = str_eq(context[i].0.as_str(), key);
                    if same {
                        out.push((key.to_owned(), value.to_owned()));
                        found = true;
                    } else {
                        out.push((context[i].0.clone(), context[i].1.clone()));
                    }
                    proof {
                        assert(ctx_view(context@)[i as int] == (
                            context@[i as int].0@,
                            context@[i as int].1@,
                        ));
                        assert forall|j: int| 0 <= j < i + 1 implies ctx_view(out@)[j] == (
                        if ctx_view(context@)[j].0 == key@ {
                            (key@, value@)
                        } else {
                            ctx_view(context@)[j]
                        }) by {
                            if j < i {
                                assert(out@[j] == prev[j]);
                                assert(ctx_view(out@)[j] == ctx_view(prev)[j]);
                            } else {
                                assert(ctx_view(out@)[j] == (out@[j].0@, out@[j].1@));
                            }
                        }
                    }
                    i = i + 1;
                }
                if !found {
                    let ghost prev = out@;
                    out.push((key.to_owned(), value.to_owned()));
                    proof {
                        assert forall|j: int| 0 <= j < n + 1 implies ctx_view(out@)[j]
                            == ctx_view(context@).push((key@, value@))[j] by {
                            assert(ctx_view(out@)[j] == (out@[j].0@, out@[j].1@));
                            if j < n {
                                assert(out@[j] == prev[j]);
                                assert(ctx_view(prev)[j] == (prev[j].0@, prev[j].1@));
                                assert(ctx_view(context@)[j].0 != key@);
                            }
                        }
                        assert(ctx_view(out@) =~= ctx_view(context@).push((key@, value@)));
                    }
                } else {
                    proof {
                        let target = Seq::new(
                            ctx_view(context@).len(),
                            |j: int| if ctx_view(context@)[j].0 == key@ {
                                (key@, value@)
                            } else {
                                ctx_view(context@)[j]
                            },
                        );
                        assert forall|j: int| 0 <= j < n implies ctx_view(out@)[j]
                            == target[j] by {}
                        assert(ctx_view(out@) =~= target);
                    }
                }
                JsonPathError::AssertionFailed {
                    kind,
                    message,
                    path,
                    actual,
                    expected,
                    context: out,
                }
            },
        }
    }

    /// A copy of this failure with every given context entry added in
    /// order, each one as [`Self::with_context`] would add it.
    pub fn with_contexts(self, entries: &Vec<(String, String)>) -> (r: JsonPathError)
        ensures
            self matches JsonPathError::InvalidPath(t) ==> r == self,
            self matches JsonPathError::AssertionFailed {
                kind,
                message,
                path,
                actual,
                expected,
                context,
            } ==> spec_assertion_failed(
                r,
                kind,
                message@,
                path@,
                actual@,
                match expected {
                    Option::Some(v) => Option::Some(v@),
                    Option::None => Option::None,
                },
                ctx_insert_all(ctx_view(context@), ctx_view(entries@), entries@.len() as int),
            ),
    {
        let n: usize = entries.len();
        let mut e = self;
        let mut i: usize = 0;
        while i < n
            invariant
                n == entries@.len(),
                i <= n,
                self matches JsonPathError::InvalidPath(t) ==> e == self,
                self matches JsonPathError::AssertionFailed {
                    kind,
                    message,
                    path,
                    actual,
                    expected,
                    context,
                } ==> spec_assertion_failed(
                    e,
                    kind,
                    message@,
                    path@,
                    actual@,
                    match expected {
                        Option::Some(v) => Option::Some(v@),
                        Option::None => Option::None,
                    },
                    ctx_insert_all(ctx_view(context@), ctx_view(entries@), i as int),
                ),
            decreases n - i,
        {
            e = e.with_context(entries[i].0.as_str(), entries[i].1.as_str());
            i = i + 1;
        }
        e
    }

    /// The standard empty-selection failure for this path.
    pub fn not_found(path: String) -> (e: JsonPathError)
        ensures
            spec_not_found(e, path@),
    {
        let context: Vec<(String, String)> = Vec::new();
        let e = JsonPathError::AssertionFailed {
            kind: FailureKind::NotFound,
            message: String::from_str("No value found"),
            path,
            actual: JsonValue::Null,
            expected: Option::None,
            context,
        };
        proof {
            assert(ctx_view(context@) =~= Seq::empty());
        }
        e
    }
}

/// The rendering of the first `k` context entries, each on its own line
/// as `key: value`.
pub open spec fn spec_ctx_render(c: Seq<(Seq<char>, Seq<char>)>, k: int) -> Seq<char>
    decreases k,
{
    if k <= 0 || k > c.len() {
        Seq::empty()
    } else {
        spec_ctx_render(c, k - 1) + seq!['\n'] + c[k - 1].0 + ": "@ + c[k - 1].1
    }
}

/// The full rendering of a failure: the message, the path, the offending
/// value, the expected value when there is one, then every context entry,
/// in a fixed order.
pub open spec fn spec_error_render(e: JsonPathError) -> Seq<char> {
    match e {
        JsonPathError::InvalidPath(t) => "Invalid JSONPath expression: "@ + t@,
        JsonPathError::AssertionFailed { kind, message, path, actual, expected, context } =>
            message@ + "\nPath: "@ + path@ + "\nActual Value: "@ + spec_render(actual@) + (
            match expected {
                Option::Some(v) => "\nExpected Value: "@ + spec_render(v@),
                Option::None => Seq::empty(),
            }) + spec_ctx_render(ctx_view(context@), context@.len() as int),
    }
}

impl JsonPathError {
    /// One self-contained, human-readable description of this failure.
    #[verifier::loop_isolation(false)]
    pub fn render(&self) -> (r: String)
        ensures
            r@ == spec_error_render(*self),
    {
        match self {
            JsonPathError::InvalidPath(t) => {
                let mut out = String::from_str("Invalid JSONPath expression: ");
                out.append(t.as_str());
                out
            },
            JsonPathError::AssertionFailed { kind, message, path, actual, expected, context } => {
                let mut out = message.clone();
                out.append("\nPath: ");
                out.append(path.as_str());
                out.append("\nActual Value: ");
                let actual_rendered = render_value(actual);
                out.append(actual_rendered.as_str());
                match expected {
                    Option::Some(v) => {
                        out.append("\nExpected Value: ");
                        let expected_rendered = render_value(v);
                        out.append(expected_rendered.as_str());
                    },
                    Option::None => {},
                }
                let n: usize = context.len();
                let ghost cv = ctx_view(context@);
                let ghost head = out@;
                let mut i: usize = 0;
                while i < n
                    invariant
                        n == context@.len(),
                        i <= n,
                        out@ == head + spec_ctx_render(cv, i as int),
                    decreases n - i,
                {
                    out.append("\n");
                    out.append(context[i].0.as_str());
                    out.append(": ");
                    out.append(context[i].1.as_str());
                    proof {
                        reveal_strlit("\n");
                        assert(cv[i as int] == (context@[i as int].0@, context@[i as int].1@));
                        assert(out@ =~= head + spec_ctx_render(cv, i + 1 as int));
                    }
                    i = i + 1;
                }
                proof {
                    assert(out@ =~= spec_error_render(*self));
                }
                out
            },
        }
    }
}

} // verus!
