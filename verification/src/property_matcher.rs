//! The property view: a filtered snapshot of one object's members.
//!
//! A [`PropertyMatcher`] is created by
//! [`JsonPathAssertion::properties_matching`](crate::chain::JsonPathAssertion::properties_matching):
//! it holds the members whose keys satisfied the filter, in object order,
//! and owns the chain it came from.  Count and for-all checks hand the
//! view back; the collection operations and [`PropertyMatcher::and`]
//! consume it, the latter returning the originating chain unchanged.

use vstd::prelude::*;
use vstd::string::StringExecFns;

use crate::chain::JsonPathAssertion;
use crate::error::ctx_view;
use crate::error::spec_assertion_failed;
use crate::error::FailureKind;
use crate::error::JsonPathError;
use crate::text::spec_int_string;
use crate::text::usize_to_string;
use crate::value::deep_clone;
use crate::value::lemma_view_obj;
use crate::value::members_view;
use crate::value::seq_view;
use crate::value::JsonVal;
use crate::value::JsonValue;

verus! {

broadcast use vstd::std_specs::vec::group_vec_axioms;

/// The values of a list of members, in order.
pub open spec fn values_of(members: Seq<(Seq<char>, JsonVal)>) -> Seq<JsonVal> {
    Seq::new(members.len(), |i: int| members[i].1)
}

/// The keys of a list of members, in order.
pub open spec fn member_keys_of(members: Seq<(Seq<char>, JsonVal)>) -> Seq<Seq<char>> {
    Seq::new(members.len(), |i: int| members[i].0)
}

/// Some call of the predicate on this key and value can return this
/// outcome.
pub open spec fn member_passes<F: Fn(&str, &JsonValue) -> bool>(
    f: F,
    key: Seq<char>,
    val: JsonVal,
    outcome: bool,
) -> bool {
    exists|wk: &str, wv: &JsonValue| wk@ == key && wv@ == val && call_ensures(
        f,
        (wk, wv),
        outcome,
    )
}

/// A filtered, ordered snapshot of one object's members, owning the
/// chain it came from.
#[derive(Debug)]
pub struct PropertyMatcher {
    /// The members whose keys satisfied the filter, in object order.
    pub pairs: Vec<(String, JsonValue)>,
    /// The chain this view was created from; handed back by
    /// [`PropertyMatcher::and`].
    pub parent: JsonPathAssertion,
}

impl PropertyMatcher {
    /// Wraps filtered members together with their originating chain.
    pub(crate) fn new(pairs: Vec<(String, JsonValue)>, parent: JsonPathAssertion) -> (m:
        PropertyMatcher)
        ensures
            m.pairs == pairs,
            m.parent == parent,
    {
        PropertyMatcher { pairs, parent }
    }

    /// The views of the filtered members.
    pub open spec fn view_pairs(&self) -> Seq<(Seq<char>, JsonVal)> {
        members_view(self.pairs@)
    }

    /// The number of filtered members must equal the expected count.
    pub fn count(self, expected: usize) -> (r: Result<PropertyMatcher, JsonPathError>)
        ensures
            (r matches Ok(_)) == (self.pairs@.len() == expected),
            r matches Ok(m) ==> m == self,
            r matches Err(e) ==> spec_assertion_failed(
                e,
                FailureKind::PropertyCountMismatch,
                "Incorrect number of matching properties"@,
                self.parent.path(),
                JsonVal::Obj(self.view_pairs()),
                Option::None,
                seq![
                    ("Expected"@, spec_int_string(expected as int)),
                    ("Actual"@, spec_int_string(self.pairs@.len() as int)),
                ],
            ),
    {
        if self.pairs.len() == expected {
            Result::Ok(self)
        } else {
            let expected_text = usize_to_string(expected);
            let actual_text = usize_to_string(self.pairs.len());
            let mut context: Vec<(String, String)> = Vec::new();
            context.push((String::from_str("Expected"), expected_text));
            context.push((String::from_str("Actual"), actual_text));
            let actual = JsonValue::Obj(self.pairs);
            proof {
                lemma_view_obj(self.pairs);
                assert(ctx_view(context@) =~= seq![
                    ("Expected"@, spec_int_string(expected as int)),
                    ("Actual"@, spec_int_string(self.pairs@.len() as int)),
                ]);
            }
            Result::Err(
                JsonPathError::property_error(
                    FailureKind::PropertyCountMismatch,
                    self.parent.path_str,
                    actual,
                    String::from_str("Incorrect number of matching properties"),
                    context,
                ),
            )
        }
    }

    /// Every filtered member must satisfy the predicate over its key and
    /// value; the first failing member is reported.
    #[verifier::loop_isolation(false)]
    pub fn all<F: Fn(&str, &JsonValue) -> bool>(self, predicate: F) -> (r: Result<
        PropertyMatcher,
        JsonPathError,
    >)
        requires
            forall|k: &str, v: &JsonValue| #[trigger] call_requires(predicate, (k, v)),
        ensures
            r matches Ok(m) ==> m == self && forall|i: int|
                #![trigger self.view_pairs()[i]]
                0 <= i < self.pairs@.len() ==> member_passes(
                    predicate,
                    self.view_pairs()[i].0,
                    self.view_pairs()[i].1,
                    true,
                ),
            r matches Err(e) ==> exists|i: int|
                {
                    &&& 0 <= i < self.pairs@.len()
                    &&& member_passes(
                        predicate,
                        self.view_pairs()[i].0,
                        self.view_pairs()[i].1,
                        false,
                    )
                    &&& spec_assertion_failed(
                        e,
                        FailureKind::PredicateFailed,
                        "Property did not match predicate"@,
                        self.parent.path(),
                        self.view_pairs()[i].1,
                        Option::None,
                        seq![("Key"@, self.view_pairs()[i].0)],
                    )
                },
    {
        let n: usize = self.pairs.len();
        let mut i: usize = 0;
        while i < n
            invariant
                n == self.pairs@.len(),
                i <= n,
                forall|k: &str, v: &JsonValue| #[trigger] call_requires(predicate, (k, v)),
                forall|j: int|
                    #![trigger self.view_pairs()[j]]
                    0 <= j < i ==> member_passes(
                        predicate,
                        self.view_pairs()[j].0,
                        self.view_pairs()[j].1,
                        true,
                    ),
            decreases n - i,
        {
            let key_ref = self.pairs[i].0.as_str();
            let holds = predicate(key_ref, &self.pairs[i].1);
            proof {
                assert(self.view_pairs()[i as int] == (
                    self.pairs@[i as int].0@,
                    self.pairs@[i as int].1@,
                ));
                assert(member_passes(
                    predicate,
                    self.view_pairs()[i as int].0,
                    self.view_pairs()[i as int].1,
                    holds,
                ));
            }
            if !holds {
                let key_text = self.pairs[i].0.clone();
                let failing = deep_clone(&self.pairs[i].1);
                let mut context: Vec<(String, String)> = Vec::new();
                context.push((String::from_str("Key"), key_text));
                proof {
                    assert(ctx_view(context@) =~= seq![("Key"@, self.view_pairs()[i as int].0)]);
                }
                return Result::Err(
                    JsonPathError::property_error(
                        FailureKind::PredicateFailed,
                        self.parent.path_str,
                        failing,
                        String::from_str("Property did not match predicate"),
                        context,
                    ),
                );
            }
            i = i + 1;
        }
        Result::Ok(self)
    }

    /// The values of the filtered members, in order.
    pub fn collect_values(self) -> (r: Vec<JsonValue>)
        ensures
            seq_view(r@) == values_of(self.view_pairs()),
    {
        let n: usize = self.pairs.len();
        let mut out: Vec<JsonValue> = Vec::new();
        let mut i: usize = 0;
        while i < n
            invariant
                n == self.pairs@.len(),
                i <= n,
                out@.len() == i,
                forall|j: int| 0 <= j < i ==> seq_view(out@)[j] == self.view_pairs()[j].1,
            decreases n - i,
        {
            let ghost prev = out@;
            out.push(deep_clone(&self.pairs[i].1));
            proof {
                assert forall|j: int| 0 <= j < i + 1 implies seq_view(out@)[j]
                    == self.view_pairs()[j].1 by {
                    if j < i {
                        assert(out@[j] == prev[j]);
                        assert(seq_view(prev)[j] == prev[j]@);
                    }
                }
            }
            i = i + 1;
        }
        proof {
            assert(seq_view(out@) =~= values_of(self.view_pairs()));
        }
        out
    }

    /// The keys of the filtered members, in order.
    pub fn collect_keys(self) -> (r: Vec<String>)
        ensures
            r@.len() == self.pairs@.len(),
            forall|j: int| 0 <= j < r@.len() ==> r@[j]@ == self.view_pairs()[j].0,
    {
        let n: usize = self.pairs.len();
        let mut out: Vec<String> = Vec::new();
        let mut i: usize = 0;
        while i < n
            invariant
                n == self.pairs@.len(),
                i <= n,
                out@.len() == i,
                forall|j: int| 0 <= j < i ==> out@[j]@ == self.view_pairs()[j].0,
            decreases n - i,
        {
            out.push(self.pairs[i].0.clone());
            i = i + 1;
        }
        out
    }

    /// The filtered members themselves, in order.
    pub fn collect_pairs(self) -> (r: Vec<(String, JsonValue)>)
        ensures
            r == self.pairs,
    {
        self.pairs
    }

    /// Discards the view and hands back the chain it was created from,
    /// unchanged.
    pub fn and(self) -> (r: JsonPathAssertion)
        ensures
            r == self.parent,
    {
        self.parent
    }
}

/// Entering a property view, passing its count check and returning with
/// [`PropertyMatcher::and`] always hands back a chain equal to the one
/// that entered: the view holds the chain whole, the count check returns
/// the view unchanged, and the return operation surrenders the held
/// chain.  The preconditions restate exactly what those three
/// operations' contracts guarantee.
pub proof fn lemma_count_and_returns_parent(
    entered: JsonPathAssertion,
    view: PropertyMatcher,
    counted: PropertyMatcher,
    returned: JsonPathAssertion,
)
    requires
        view.parent == entered,
        counted == view,
        returned == counted.parent,
    ensures
        returned == entered,
{
}

} // verus!
