//! The path evaluator adapter.
//!
//! The path-query grammar and evaluator are external collaborators: this
//! module wraps them behind one trusted entry point, [`eval_raw`], and then
//! normalizes the raw outcome into the ordered selection that the
//! assertion chain works on.  The normalization itself is ordinary
//! verified code.

use vstd::prelude::*;

use crate::error::spec_invalid_path;
use crate::error::JsonPathError;
use crate::text::contains_char;
use crate::value::lemma_view_arr;
use crate::value::seq_view;
use crate::value::JsonVal;
use crate::value::JsonValue;

verus! {

broadcast use vstd::std_specs::vec::group_vec_axioms;

#[verifier::external_type_specification]
#[verifier::external_body]
pub struct ExSerdeValue(serde_json::Value);

/// Whether the evaluator accepts the expression and evaluates it on this
/// document without error.  The evaluator is deterministic, so this is a
/// function of the document and the expression alone.
pub uninterp spec fn eval_ok(doc: JsonVal, expr: Seq<char>) -> bool;

/// The raw outcome of evaluating the expression on the document when it
/// succeeds: an array holding every matched value in document order.
pub uninterp spec fn eval_of(doc: JsonVal, expr: Seq<char>) -> JsonVal;

/// The evaluator's own message when it fails on this document and
/// expression.
pub uninterp spec fn eval_err_of(doc: JsonVal, expr: Seq<char>) -> Seq<char>;

/// Builds the `serde_json` value with the same structure; numbers become
/// 64-bit signed integers.  Serves [`eval_raw`] only.
#[verifier::external_body]
fn to_serde(v: &JsonValue) -> serde_json::Value {
    match v {
        JsonValue::Null => serde_json::Value::Null,
        JsonValue::Bool(b) => serde_json::Value::Bool(*b),
        JsonValue::Int(i) => serde_json::Value::from(*i),
        JsonValue::Str(s) => serde_json::Value::String(s.clone()),
        JsonValue::Arr(items) => serde_json::Value::Array(items.iter().map(to_serde).collect()),
        JsonValue::Obj(members) => serde_json::Value::Object(
            members.iter().map(|(k, v)| (k.clone(), to_serde(v))).collect(),
        ),
    }
}

/// Reads a `serde_json` value back; a number outside the signed 64-bit
/// range becomes null.  Serves [`eval_raw`] only.
#[verifier::external_body]
fn from_serde(v: &serde_json::Value) -> JsonValue {
    match v {
        serde_json::Value::Null => JsonValue::Null,
        serde_json::Value::Bool(b) => JsonValue::Bool(*b),
        serde_json::Value::Number(n) => match n.as_i64() {
            Some(i) => JsonValue::Int(i),
            None => JsonValue::Null,
        },
        serde_json::Value::String(s) => JsonValue::Str(s.clone()),
        serde_json::Value::Array(items) => JsonValue::Arr(items.iter().map(from_serde).collect()),
        serde_json::Value::Object(members) => JsonValue::Obj(
            members.iter().map(|(k, v)| (k.clone(), from_serde(v))).collect(),
        ),
    }
}

/// Relies on `jsonpath_rust::query::js_path_vals`: it parses the
/// expression and evaluates it on the document, returning every matched
/// value in document order, or its error.  The evaluator is a pure,
/// deterministic function of the document and the expression, so its
/// outcome is named by [`eval_ok`], [`eval_of`] and [`eval_err_of`].
#[verifier::external_body]
fn eval_raw(doc: &JsonValue, expr: &str) -> (r: Result<JsonValue, String>)
    ensures
        (r matches Ok(_)) == eval_ok(doc@, expr@),
        r matches Ok(v) ==> v@ == eval_of(doc@, expr@),
        r matches Err(m) ==> m@ == eval_err_of(doc@, expr@),
{
    let outside = to_serde(doc);
    match jsonpath_rust::query::js_path_vals(expr, &outside) {
        Ok(vals) => Ok(JsonValue::Arr(vals.iter().map(|v| from_serde(v)).collect())),
        Err(e) => Err(e.to_string()),
    }
}

/// The normalized selection for a raw evaluator outcome: a one-element
/// array collapses to its element when the expression has no bracket
/// syntax, any other array is kept as it is, a null outcome is the empty
/// selection, and any other single value is a one-element selection.
pub open spec fn spec_normalize(raw: JsonVal, expr: Seq<char>) -> Seq<JsonVal> {
    match raw {
        JsonVal::Arr(items) => if !expr.contains('[') && items.len() == 1 {
            seq![items[0]]
        } else {
            items
        },
        JsonVal::Null => Seq::empty(),
        other => seq![other],
    }
}

/// The normalized selection that evaluating the expression on the
/// document yields.
pub open spec fn selection_of(doc: JsonVal, expr: Seq<char>) -> Seq<JsonVal> {
    spec_normalize(eval_of(doc, expr), expr)
}

/// A one-element raw array from an expression without bracket syntax
/// collapses to exactly that element.
pub proof fn lemma_normalize_singular(items: Seq<JsonVal>, expr: Seq<char>)
    requires
        !expr.contains('['),
        items.len() == 1,
    ensures
        spec_normalize(JsonVal::Arr(items), expr) == seq![items[0]],
{
    assert(spec_normalize(JsonVal::Arr(items), expr) =~= seq![items[0]]);
}

/// A raw array from an expression with bracket syntax is kept as it is,
/// even when it has exactly one element.
pub proof fn lemma_normalize_plural(items: Seq<JsonVal>, expr: Seq<char>)
    requires
        expr.contains('['),
    ensures
        spec_normalize(JsonVal::Arr(items), expr) == items,
{
}

/// A raw null outcome normalizes to the empty selection, whatever the
/// expression.
pub proof fn lemma_normalize_null(expr: Seq<char>)
    ensures
        spec_normalize(JsonVal::Null, expr) == Seq::<JsonVal>::empty(),
{
}

/// Applies the normalization rule to a raw evaluator outcome.
pub fn normalize(raw: JsonValue, expr: &str) -> (r: Vec<JsonValue>)
    ensures
        seq_view(r@) == spec_normalize(raw@, expr@),
{
    let ghost raw_view = raw@;
    match raw {
        JsonValue::Arr(items) => {
            proof {
                lemma_view_arr(items);
            }
            if !contains_char(expr, '[') && items.len() == 1 {
                let mut items = items;
                let single = match items.pop() {
                    Option::Some(v) => v,
                    Option::None => JsonValue::Null,
                };
                let mut out: Vec<JsonValue> = Vec::new();
                out.push(single);
                proof {
                    assert(seq_view(out@) =~= spec_normalize(raw_view, expr@));
                }
                out
            } else {
                proof {
                    assert(seq_view(items@) == spec_normalize(raw_view, expr@));
                }
                items
            }
        },
        JsonValue::Null => {
            let out: Vec<JsonValue> = Vec::new();
            proof {
                assert(seq_view(out@) =~= spec_normalize(raw_view, expr@));
            }
            out
        },
        other => {
            let ghost other_view = other@;
            let mut out: Vec<JsonValue> = Vec::new();
            out.push(other);
            proof {
                assert(raw_view == other_view);
                assert(seq_view(out@) =~= seq![other_view]);
            }
            out
        },
    }
}

/// Evaluates a path expression on a document and returns the normalized
/// selection, or the invalid-path failure wrapping the evaluator's own
/// message.
pub fn evaluate(doc: &JsonValue, expr: &str) -> (r: Result<Vec<JsonValue>, JsonPathError>)
    ensures
        (r matches Ok(_)) == eval_ok(doc@, expr@),
        r matches Ok(vs) ==> seq_view(vs@) == selection_of(doc@, expr@),
        r matches Err(e) ==> spec_invalid_path(e, eval_err_of(doc@, expr@)),
{
    match eval_raw(doc, expr) {
        Result::Ok(raw) => Result::Ok(normalize(raw, expr)),
        Result::Err(m) => Result::Err(JsonPathError::InvalidPath(m)),
    }
}

} // verus!
