//! Property assertions: checks on the members of one selected object.
//!
//! Every operation here requires the chain's selection to be exactly one
//! object; it then validates that object's members by name, count, value
//! or predicate, or filters them into a
//! [`PropertyMatcher`](crate::property_matcher::PropertyMatcher).

use vstd::prelude::*;
use vstd::string::StringExecFns;

use crate::chain::JsonPathAssertion;
use crate::chain::spec_object_error;
use crate::error::FailureKind;
use crate::error::JsonPathError;
use crate::error::ctx_view;
use crate::error::spec_assertion_failed;
use crate::property_matcher::PropertyMatcher;
use crate::property_matcher::member_keys_of;
use crate::text::lemma_join_step;
use crate::text::spec_int_string;
use crate::text::spec_join;
use crate::text::str_eq;
use crate::text::usize_to_string;
use crate::value::JsonVal;
use crate::value::JsonValue;
use crate::value::deep_clone;
use crate::value::deep_eq;
use crate::value::members_view;

verus! {

broadcast use vstd::std_specs::vec::group_vec_axioms;

/// The value of the first member with this key, if the key is present.
pub open spec fn spec_lookup(members: Seq<(Seq<char>, JsonVal)>, key: Seq<char>) -> Option<
    JsonVal,
>
    decreases members.len(),
{
    if members.len() == 0 {
        Option::None
    } else if members[0].0 == key {
        Option::Some(members[0].1)
    } else {
        spec_lookup(members.drop_first(), key)
    }
}

/// The lookup finds the first member whose key matches.
pub proof fn lemma_lookup_first(members: Seq<(Seq<char>, JsonVal)>, key: Seq<char>, i: int)
    requires
        0 <= i < members.len(),
        members[i].0 == key,
        forall|j: int| 0 <= j < i ==> members[j].0 != key,
    ensures
        spec_lookup(members, key) == Option::Some(members[i].1),
    decreases i,
{
    if i > 0 {
        assert(members.drop_first()[i - 1] == members[i]);
        assert forall|j: int| 0 <= j < i - 1 implies members.drop_first()[j].0 != key by {
            assert(members.drop_first()[j] == members[j + 1]);
        }
        lemma_lookup_first(members.drop_first(), key, i - 1);
    }
}

/// The lookup finds nothing when no member's key matches.
pub proof fn lemma_lookup_none(members: Seq<(Seq<char>, JsonVal)>, key: Seq<char>)
    requires
        forall|j: int| 0 <= j < members.len() ==> members[j].0 != key,
    ensures
        spec_lookup(members, key) is None,
    decreases members.len(),
{
    if members.len() > 0 {
        assert forall|j: int| 0 <= j < members.len() - 1 implies members.drop_first()[j].0
            != key by {
            assert(members.drop_first()[j] == members[j + 1]);
        }
        lemma_lookup_none(members.drop_first(), key);
    }
}

/// Some call of the predicate on this key can return this outcome.
pub open spec fn key_passes<F: Fn(&str) -> bool>(f: F, key: Seq<char>, outcome: bool) -> bool {
    exists|w: &str| w@ == key && call_ensures(f, (w,), outcome)
}

/// Some call of the predicate on a value with this view can return this
/// outcome.
pub open spec fn value_passes<F: Fn(&JsonValue) -> bool>(
    f: F,
    val: JsonVal,
    outcome: bool,
) -> bool {
    exists|w: &JsonValue| w@ == val && call_ensures(f, (w,), outcome)
}

/// The first `k` members kept or dropped according to the mask, in
/// order.
pub open spec fn mask_filter(
    members: Seq<(Seq<char>, JsonVal)>,
    mask: Seq<bool>,
    k: int,
) -> Seq<(Seq<char>, JsonVal)>
    decreases k,
{
    if k <= 0 || k > members.len() || k > mask.len() {
        Seq::empty()
    } else if mask[k - 1] {
        mask_filter(members, mask, k - 1).push(members[k - 1])
    } else {
        mask_filter(members, mask, k - 1)
    }
}

/// The filter of the first `k` members reads only the first `k` mask
/// entries.
pub proof fn lemma_mask_filter_prefix(
    members: Seq<(Seq<char>, JsonVal)>,
    m1: Seq<bool>,
    m2: Seq<bool>,
    k: int,
)
    requires
        k <= m1.len(),
        k <= m2.len(),
        forall|j: int| 0 <= j < k ==> m1[j] == m2[j],
    ensures
        mask_filter(members, m1, k) == mask_filter(members, m2, k),
    decreases k,
{
    if 0 < k <= members.len() {
        lemma_mask_filter_prefix(members, m1, m2, k - 1);
    }
}

/// Whether each mask entry is an outcome some call of the predicate can
/// return on the key at the same position.
pub open spec fn mask_ok<F: Fn(&str) -> bool>(f: F, keys: Seq<Seq<char>>, mask: Seq<bool>) -> bool {
    &&& mask.len() == keys.len()
    &&& forall|i: int| #![trigger mask[i]] 0 <= i < keys.len() ==> key_passes(f, keys[i], mask[i])
}

/// The views of a list of names.
pub open spec fn names_view(names: Seq<String>) -> Seq<Seq<char>> {
    Seq::new(names.len(), |i: int| names[i]@)
}

/// Of the first `k` names, those that are not keys of the object, in
/// order.
pub open spec fn missing_names(
    members: Seq<(Seq<char>, JsonVal)>,
    names: Seq<Seq<char>>,
    k: int,
) -> Seq<Seq<char>>
    decreases k,
{
    if k <= 0 || k > names.len() {
        Seq::empty()
    } else if spec_lookup(members, names[k - 1]) is Some {
        missing_names(members, names, k - 1)
    } else {
        missing_names(members, names, k - 1).push(names[k - 1])
    }
}

/// The names joined as a diagnostic list, separated by a comma and a
/// space.
fn join_names(names: &Vec<String>) -> (r: String)
    ensures
        r@ == spec_join(names_view(names@), ", "@),
{
    let ghost keys = names_view(names@);
    let n: usize = names.len();
    let mut out = String::new();
    let mut i: usize = 0;
    while i < n
        invariant
            n == names@.len(),
            keys == names_view(names@),
            i <= n,
            out@ == spec_join(keys.take(i as int), ", "@),
        decreases n - i,
    {
        if i > 0 {
            out.append(", ");
        }
        out.append(names[i].as_str());
        proof {
            reveal_strlit(", ");
            assert(keys[i as int] == names@[i as int]@);
            lemma_join_step(keys, ", "@, i as int);
        }
        i = i + 1;
    }
    proof {
        assert(keys.take(n as int) =~= keys);
    }
    out
}

/// The members of this object joined as a diagnostic list: the keys, in
/// order, separated by a comma and a space.
fn join_keys(members: &Vec<(String, JsonValue)>) -> (r: String)
    ensures
        r@ == spec_join(member_keys_of(members_view(members@)), ", "@),
{
    let ghost keys = member_keys_of(members_view(members@));
    let n: usize = members.len();
    let mut out = String::new();
    let mut i: usize = 0;
    while i < n
        invariant
            n == members@.len(),
            i <= n,
            keys == member_keys_of(members_view(members@)),
            out@ == spec_join(keys.take(i as int), ", "@),
        decreases n - i,
    {
        if i > 0 {
            out.append(", ");
        }
        out.append(members[i].0.as_str());
        proof {
            reveal_strlit(", ");
            assert(keys[i as int] == members@[i as int].0@);
            lemma_join_step(keys, ", "@, i as int);
        }
        i = i + 1;
    }
    proof {
        assert(keys.take(n as int) =~= keys);
    }
    out
}

/// The position of the first member with this key, if the key is
/// present.
fn find_key(members: &Vec<(String, JsonValue)>, name: &str) -> (r: Option<usize>)
    ensures
        r matches Some(i) ==> i < members@.len() && members_view(members@)[i as int].0 == name@
            && spec_lookup(members_view(members@), name@) == Option::Some(
            members_view(members@)[i as int].1,
        ),
        r is None ==> spec_lookup(members_view(members@), name@) is None,
{
    let ghost mv = members_view(members@);
    let n: usize = members.len();
    let mut i: usize = 0;
    while i < n
        invariant
            n == members@.len(),
            mv == members_view(members@),
            i <= n,
            forall|j: int| 0 <= j < i ==> mv[j].0 != name@,
        decreases n - i,
    {
        if str_eq(members[i].0.as_str(), name) {
            proof {
                assert(mv[i as int] == (members@[i as int].0@, members@[i as int].1@));
                lemma_lookup_first(mv, name@, i as int);
            }
            return Option::Some(i);
        }
        proof {
            assert(mv[i as int] == (members@[i as int].0@, members@[i as int].1@));
        }
        i = i + 1;
    }
    proof {
        lemma_lookup_none(mv, name@);
    }
    Option::None
}

/// Copies of the members whose keys a caller-supplied predicate
/// accepted, in object order.
#[verifier::loop_isolation(false)]
fn filter_members<F: Fn(&str) -> bool>(obj: &Vec<(String, JsonValue)>, predicate: &F) -> (r: Vec<
    (String, JsonValue),
>)
    requires
        forall|s: &str| #[trigger] call_requires(*predicate, (s,)),
    ensures
        exists|mask: Seq<bool>|
            #![trigger mask_ok(*predicate, member_keys_of(members_view(obj@)), mask)]
            mask_ok(*predicate, member_keys_of(members_view(obj@)), mask) && members_view(r@)
                == mask_filter(members_view(obj@), mask, obj@.len() as int),
{
    let ghost mv = members_view(obj@);
    let n: usize = obj.len();
    let mut out: Vec<(String, JsonValue)> = Vec::new();
    let ghost mut mask: Seq<bool> = Seq::empty();
    let mut i: usize = 0;
    while i < n
        invariant
            n == obj@.len(),
            mv == members_view(obj@),
            i <= n,
            mask.len() == i,
            forall|j: int|
                #![trigger mask[j]]
                0 <= j < i ==> key_passes(*predicate, member_keys_of(mv)[j], mask[j]),
            members_view(out@) == mask_filter(mv, mask, i as int),
        decreases n - i,
    {
        let keep = predicate(obj[i].0.as_str());
        let ghost prev_mask = mask;
        let ghost prev = out@;
        proof {
            mask = mask.push(keep);
            lemma_mask_filter_prefix(mv, prev_mask, mask, i as int);
            assert(mv[i as int] == (obj@[i as int].0@, obj@[i as int].1@));
            assert(member_keys_of(mv)[i as int] == mv[i as int].0);
            assert(key_passes(*predicate, member_keys_of(mv)[i as int], keep));
        }
        if keep {
            let key = obj[i].0.clone();
            let val = deep_clone(&obj[i].1);
            out.push((key, val));
            proof {
                assert forall|j: int| 0 <= j < out@.len() implies members_view(out@)[j]
                    == mask_filter(mv, mask, i + 1 as int)[j] by {
                    if j < prev.len() {
                        assert(out@[j] == prev[j]);
                        assert(members_view(prev)[j] == (prev[j].0@, prev[j].1@));
                    } else {
                        assert(members_view(out@)[j] == (out@[j].0@, out@[j].1@));
                    }
                }
                assert(members_view(out@) =~= mask_filter(mv, mask, i + 1 as int));
            }
        } else {
            proof {
                assert(members_view(out@) == mask_filter(mv, mask, i + 1 as int));
            }
        }
        i = i + 1;
    }
    proof {
        assert(mask_ok(*predicate, member_keys_of(mv), mask));
    }
    out
}

impl JsonPathAssertion {
    /// The selection must be exactly one object holding a member with
    /// this name.
    pub fn has_property(self, name: &str) -> (r: Result<JsonPathAssertion, JsonPathError>)
        ensures
            (r matches Ok(_)) == (self.sel().len() == 1 && self.first() is Obj && spec_lookup(
                self.first()->Obj_0,
                name@,
            ) is Some),
            r matches Ok(c) ==> c == self,
            r matches Err(e) ==> if !(self.sel().len() == 1 && self.first() is Obj) {
                spec_object_error(e, self)
            } else {
                spec_assertion_failed(
                    e,
                    FailureKind::PropertyMissing,
                    "Property '"@ + name@ + "' not found"@,
                    self.path(),
                    self.first(),
                    Option::None,
                    seq![
                        (
                            "Available properties"@,
                            spec_join(member_keys_of(self.first()->Obj_0), ", "@),
                        ),
                    ],
                )
            },
    {
        let obj = match self.assert_object() {
            Result::Ok(o) => o,
            Result::Err(e) => {
                return Result::Err(e);
            },
        };
        match find_key(&obj, name) {
            Option::Some(_) => Result::Ok(self),
            Option::None => {
                let keys_joined = join_keys(&obj);
                let mut message = String::from_str("Property '");
                message.append(name);
                message.append("' not found");
                let mut context: Vec<(String, String)> = Vec::new();
                context.push((String::from_str("Available properties"), keys_joined));
                proof {
                    assert(ctx_view(context@) =~= seq![
                        (
                            "Available properties"@,
                            spec_join(member_keys_of(self.first()->Obj_0), ", "@),
                        ),
                    ]);
                }
                let (path, first) = self.take_first();
                Result::Err(
                    JsonPathError::property_error(
                        FailureKind::PropertyMissing,
                        path,
                        first,
                        message,
                        context,
                    ),
                )
            },
        }
    }

    /// The selection must be exactly one object with exactly this many
    /// members.
    pub fn has_property_count(self, expected: usize) -> (r: Result<
        JsonPathAssertion,
        JsonPathError,
    >)
        ensures
            (r matches Ok(_)) == (self.sel().len() == 1 && self.first() is Obj && self.first()
                ->Obj_0.len() == expected),
            r matches Ok(c) ==> c == self,
            r matches Err(e) ==> if !(self.sel().len() == 1 && self.first() is Obj) {
                spec_object_error(e, self)
            } else {
                spec_assertion_failed(
                    e,
                    FailureKind::PropertyCountMismatch,
                    "Incorrect number of properties"@,
                    self.path(),
                    self.first(),
                    Option::None,
                    seq![
                        ("Expected"@, spec_int_string(expected as int)),
                        ("Actual"@, spec_int_string(self.first()->Obj_0.len() as int)),
                        ("Properties"@, spec_join(member_keys_of(self.first()->Obj_0), ", "@)),
                    ],
                )
            },
    {
        let obj = match self.assert_object() {
            Result::Ok(o) => o,
            Result::Err(e) => {
                return Result::Err(e);
            },
        };
        if obj.len() == expected {
            Result::Ok(self)
        } else {
            let expected_text = usize_to_string(expected);
            let actual_text = usize_to_string(obj.len());
            let keys_joined = join_keys(&obj);
            let mut context: Vec<(String, String)> = Vec::new();
            context.push((String::from_str("Expected"), expected_text));
            context.push((String::from_str("Actual"), actual_text));
            context.push((String::from_str("Properties"), keys_joined));
            proof {
                assert(ctx_view(context@) =~= seq![
                    ("Expected"@, spec_int_string(expected as int)),
                    ("Actual"@, spec_int_string(self.first()->Obj_0.len() as int)),
                    ("Properties"@, spec_join(member_keys_of(self.first()->Obj_0), ", "@)),
                ]);
            }
            let (path, first) = self.take_first();
            Result::Err(
                JsonPathError::property_error(
                    FailureKind::PropertyCountMismatch,
                    path,
                    first,
                    String::from_str("Incorrect number of properties"),
                    context,
                ),
            )
        }
    }

    /// The selection must be exactly one object whose first member under
    /// this name is deep-structurally equal to the expected value.
    pub fn has_property_value(self, name: &str, expected: JsonValue) -> (r: Result<
        JsonPathAssertion,
        JsonPathError,
    >)
        ensures
            (r matches Ok(_)) == (self.sel().len() == 1 && self.first() is Obj && spec_lookup(
                self.first()->Obj_0,
                name@,
            ) == Option::Some(expected@)),
            r matches Ok(c) ==> c == self,
            r matches Err(e) ==> if !(self.sel().len() == 1 && self.first() is Obj) {
                spec_object_error(e, self)
            } else if spec_lookup(self.first()->Obj_0, name@) is None {
                spec_assertion_failed(
                    e,
                    FailureKind::PropertyMissing,
                    "Property '"@ + name@ + "' not found"@,
                    self.path(),
                    self.first(),
                    Option::None,
                    seq![
                        (
                            "Available properties"@,
                            spec_join(member_keys_of(self.first()->Obj_0), ", "@),
                        ),
                    ],
                )
            } else {
                spec_assertion_failed(
                    e,
                    FailureKind::ValueMismatch,
                    "Property '"@ + name@ + "' value mismatch"@,
                    self.path(),
                    spec_lookup(self.first()->Obj_0, name@)->Some_0,
                    Option::Some(expected@),
                    Seq::empty(),
                )
            },
    {
        let obj = match self.assert_object() {
            Result::Ok(o) => o,
            Result::Err(e) => {
                return Result::Err(e);
            },
        };
        match find_key(&obj, name) {
            Option::Some(i) => {
                if deep_eq(&obj[i].1, &expected) {
                    Result::Ok(self)
                } else {
                    let found = deep_clone(&obj[i].1);
                    let mut message = String::from_str("Property '");
                    message.append(name);
                    message.append("' value mismatch");
                    let context: Vec<(String, String)> = Vec::new();
                    proof {
                        assert(ctx_view(context@) =~= Seq::empty());
                    }
                    Result::Err(
                        JsonPathError::assertion_failed(
                            FailureKind::ValueMismatch,
                            message,
                            self.path_str,
                            found,
                            Option::Some(expected),
                            context,
                        ),
                    )
                }
            },
            Option::None => {
                let keys_joined = join_keys(&obj);
                let mut message = String::from_str("Property '");
                message.append(name);
                message.append("' not found");
                let mut context: Vec<(String, String)> = Vec::new();
                context.push((String::from_str("Available properties"), keys_joined));
                proof {
                    assert(ctx_view(context@) =~= seq![
                        (
                            "Available properties"@,
                            spec_join(member_keys_of(self.first()->Obj_0), ", "@),
                        ),
                    ]);
                }
                let (path, first) = self.take_first();
                Result::Err(
                    JsonPathError::property_error(
                        FailureKind::PropertyMissing,
                        path,
                        first,
                        message,
                        context,
                    ),
                )
            },
        }
    }

    /// The selection must be exactly one object holding a member under
    /// every one of the given names; the failure lists the missing and
    /// the available names.
    pub fn has_properties(self, names: &Vec<String>) -> (r: Result<
        JsonPathAssertion,
        JsonPathError,
    >)
        ensures
            (r matches Ok(_)) == (self.sel().len() == 1 && self.first() is Obj && forall|k: int|
                0 <= k < names@.len() ==> spec_lookup(self.first()->Obj_0, names@[k]@) is Some),
            r matches Ok(c) ==> c == self,
            r matches Err(e) ==> if !(self.sel().len() == 1 && self.first() is Obj) {
                spec_object_error(e, self)
            } else {
                spec_assertion_failed(
                    e,
                    FailureKind::PropertyMissing,
                    "Missing properties: "@ + spec_join(
                        missing_names(
                            self.first()->Obj_0,
                            names_view(names@),
                            names@.len() as int,
                        ),
                        ", "@,
                    ),
                    self.path(),
                    self.first(),
                    Option::None,
                    seq![
                        (
                            "Available properties"@,
                            spec_join(member_keys_of(self.first()->Obj_0), ", "@),
                        ),
                    ],
                )
            },
    {
        let obj = match self.assert_object() {
            Result::Ok(o) => o,
            Result::Err(e) => {
                return Result::Err(e);
            },
        };
        let ghost mv = members_view(obj@);
        let ghost nv = names_view(names@);
        let n: usize = names.len();
        let mut missing: Vec<String> = Vec::new();
        let mut i: usize = 0;
        while i < n
            invariant
                n == names@.len(),
                nv == names_view(names@),
                mv == members_view(obj@),
                i <= n,
                names_view(missing@) == missing_names(mv, nv, i as int),
                (missing@.len() == 0) == (forall|j: int|
                    0 <= j < i ==> spec_lookup(mv, nv[j]) is Some),
            decreases n - i,
        {
            let ghost prev = missing@;
            let found = match find_key(&obj, names[i].as_str()) {
                Option::Some(_) => true,
                Option::None => false,
            };
            if !found {
                missing.push(names[i].clone());
            }
            proof {
                assert(nv[i as int] == names@[i as int]@);
                if found {
                    assert(spec_lookup(mv, nv[i as int]) is Some);
                    assert(missing_names(mv, nv, i + 1 as int) == missing_names(mv, nv, i as int));
                } else {
                    assert(spec_lookup(mv, nv[i as int]) is None);
                    assert(missing_names(mv, nv, i + 1 as int) == missing_names(
                        mv,
                        nv,
                        i as int,
                    ).push(nv[i as int]));
                    assert forall|j: int| 0 <= j < missing@.len() implies names_view(missing@)[j]
                        == missing_names(mv, nv, i as int).push(nv[i as int])[j] by {
                        if j < prev.len() {
                            assert(missing@[j] == prev[j]);
                            assert(names_view(prev)[j] == prev[j]@);
                        } else {
                            assert(names_view(missing@)[j] == missing@[j]@);
                        }
                    }
                    assert(names_view(missing@) =~= missing_names(mv, nv, i as int).push(
                        nv[i as int],
                    ));
                }
            }
            i = i + 1;
        }
        if missing.len() == 0 {
            proof {
                assert forall|k: int| 0 <= k < names@.len() implies spec_lookup(
                    mv,
                    names@[k]@,
                ) is Some by {
                    assert(nv[k] == names@[k]@);
                }
            }
            Result::Ok(self)
        } else {
            proof {
                assert(!(forall|k: int|
                    0 <= k < names@.len() ==> spec_lookup(mv, names@[k]@) is Some)) by {
                    if forall|k: int| 0 <= k < names@.len() ==> spec_lookup(
                        mv,
                        names@[k]@,
                    ) is Some {
                        assert forall|j: int| 0 <= j < n implies spec_lookup(mv, nv[j]) is Some by {
                            assert(nv[j] == names@[j]@);
                            assert(spec_lookup(mv, names@[j]@) is Some);
                        }
                        assert(missing@.len() == 0);
                    }
                }
            }
            let missing_joined = join_names(&missing);
            let mut message = String::from_str("Missing properties: ");
            message.append(missing_joined.as_str());
            let keys_joined = join_keys(&obj);
            let mut context: Vec<(String, String)> = Vec::new();
            context.push((String::from_str("Available properties"), keys_joined));
            proof {
                assert(ctx_view(context@) =~= seq![
                    (
                        "Available properties"@,
                        spec_join(member_keys_of(self.first()->Obj_0), ", "@),
                    ),
                ]);
            }
            let (path, first) = self.take_first();
            Result::Err(
                JsonPathError::property_error(
                    FailureKind::PropertyMissing,
                    path,
                    first,
                    message,
                    context,
                ),
            )
        }
    }

    /// The selection must be exactly one object whose first member under
    /// this name satisfies a caller-supplied predicate.
    pub fn has_property_matching<F: Fn(&JsonValue) -> bool>(self, name: &str, predicate: F) -> (r:
        Result<JsonPathAssertion, JsonPathError>)
        requires
            forall|v: &JsonValue| #[trigger] call_requires(predicate, (v,)),
        ensures
            r matches Ok(c) ==> c == self && self.sel().len() == 1 && self.first() is Obj
                && spec_lookup(self.first()->Obj_0, name@) is Some && value_passes(
                predicate,
                spec_lookup(self.first()->Obj_0, name@)->Some_0,
                true,
            ),
            r matches Err(e) ==> if !(self.sel().len() == 1 && self.first() is Obj) {
                spec_object_error(e, self)
            } else if spec_lookup(self.first()->Obj_0, name@) is None {
                spec_assertion_failed(
                    e,
                    FailureKind::PropertyMissing,
                    "Property '"@ + name@ + "' not found"@,
                    self.path(),
                    self.first(),
                    Option::None,
                    seq![
                        (
                            "Available properties"@,
                            spec_join(member_keys_of(self.first()->Obj_0), ", "@),
                        ),
                    ],
                )
            } else {
                value_passes(predicate, spec_lookup(self.first()->Obj_0, name@)->Some_0, false)
                    && spec_assertion_failed(
                    e,
                    FailureKind::PredicateFailed,
                    "Property '"@ + name@ + "' does not match condition"@,
                    self.path(),
                    spec_lookup(self.first()->Obj_0, name@)->Some_0,
                    Option::None,
                    Seq::empty(),
                )
            },
    {
        let obj = match self.assert_object() {
            Result::Ok(o) => o,
            Result::Err(e) => {
                return Result::Err(e);
            },
        };
        match find_key(&obj, name) {
            Option::Some(i) => {
                let holds = predicate(&obj[i].1);
                proof {
                    assert(members_view(obj@)[i as int] == (obj@[i as int].0@, obj@[i as int].1@));
                    assert(value_passes(
                        predicate,
                        spec_lookup(self.first()->Obj_0, name@)->Some_0,
                        holds,
                    ));
                }
                if holds {
                    Result::Ok(self)
                } else {
                    let found = deep_clone(&obj[i].1);
                    let mut message = String::from_str("Property '");
                    message.append(name);
                    message.append("' does not match condition");
                    let context: Vec<(String, String)> = Vec::new();
                    proof {
                        assert(ctx_view(context@) =~= Seq::empty());
                    }
                    Result::Err(
                        JsonPathError::assertion_failed(
                            FailureKind::PredicateFailed,
                            message,
                            self.path_str,
                            found,
                            Option::None,
                            context,
                        ),
                    )
                }
            },
            Option::None => {
                let keys_joined = join_keys(&obj);
                let mut message = String::from_str("Property '");
                message.append(name);
                message.append("' not found");
                let mut context: Vec<(String, String)> = Vec::new();
                context.push((String::from_str("Available properties"), keys_joined));
                proof {
                    assert(ctx_view(context@) =~= seq![
                        (
                            "Available properties"@,
                            spec_join(member_keys_of(self.first()->Obj_0), ", "@),
                        ),
                    ]);
                }
                let (path, first) = self.take_first();
                Result::Err(
                    JsonPathError::property_error(
                        FailureKind::PropertyMissing,
                        path,
                        first,
                        message,
                        context,
                    ),
                )
            },
        }
    }

    /// The selection must be exactly one object in which exactly this
    /// many member keys satisfy a caller-supplied predicate.
    pub fn has_property_count_matching<F: Fn(&str) -> bool>(
        self,
        predicate: F,
        expected: usize,
    ) -> (r: Result<JsonPathAssertion, JsonPathError>)
        requires
            forall|s: &str| #[trigger] call_requires(predicate, (s,)),
        ensures
            r matches Ok(c) ==> c == self && self.sel().len() == 1 && self.first() is Obj
                && exists|mask: Seq<bool>|
                #![trigger mask_ok(predicate, member_keys_of(self.first()->Obj_0), mask)]
                mask_ok(predicate, member_keys_of(self.first()->Obj_0), mask) && mask_filter(
                    self.first()->Obj_0,
                    mask,
                    self.first()->Obj_0.len() as int,
                ).len() == expected,
            r matches Err(e) ==> if !(self.sel().len() == 1 && self.first() is Obj) {
                spec_object_error(e, self)
            } else {
                exists|mask: Seq<bool>|
                    #![trigger mask_ok(predicate, member_keys_of(self.first()->Obj_0), mask)]
                    {
                        let flt = mask_filter(
                            self.first()->Obj_0,
                            mask,
                            self.first()->Obj_0.len() as int,
                        );
                        &&& mask_ok(predicate, member_keys_of(self.first()->Obj_0), mask)
                        &&& flt.len() != expected
                        &&& spec_assertion_failed(
                            e,
                            FailureKind::PropertyCountMismatch,
                            "Incorrect number of matching properties"@,
                            self.path(),
                            self.first(),
                            Option::None,
                            seq![
                                ("Expected"@, spec_int_string(expected as int)),
                                ("Actual"@, spec_int_string(flt.len() as int)),
                                ("Matching properties"@, spec_join(member_keys_of(flt), ", "@)),
                            ],
                        )
                    }
            },
    {
        let obj = match self.assert_object() {
            Result::Ok(o) => o,
            Result::Err(e) => {
                return Result::Err(e);
            },
        };
        let matching = filter_members(&obj, &predicate);
        let ghost mask = choose|mask: Seq<bool>|
            mask_ok(predicate, member_keys_of(members_view(obj@)), mask) && members_view(
                matching@,
            ) == mask_filter(members_view(obj@), mask, obj@.len() as int);
        if matching.len() == expected {
            Result::Ok(self)
        } else {
            let expected_text = usize_to_string(expected);
            let actual_text = usize_to_string(matching.len());
            let keys_joined = join_keys(&matching);
            let mut context: Vec<(String, String)> = Vec::new();
            context.push((String::from_str("Expected"), expected_text));
            context.push((String::from_str("Actual"), actual_text));
            context.push((String::from_str("Matching properties"), keys_joined));
            proof {
                let flt = mask_filter(
                    self.first()->Obj_0,
                    mask,
                    self.first()->Obj_0.len() as int,
                );
                assert(ctx_view(context@) =~= seq![
                    ("Expected"@, spec_int_string(expected as int)),
                    ("Actual"@, spec_int_string(flt.len() as int)),
                    ("Matching properties"@, spec_join(member_keys_of(flt), ", "@)),
                ]);
            }
            let (path, first) = self.take_first();
            Result::Err(
                JsonPathError::property_error(
                    FailureKind::PropertyCountMismatch,
                    path,
                    first,
                    String::from_str("Incorrect number of matching properties"),
                    context,
                ),
            )
        }
    }

    /// Filters the selected object's members by a key predicate into a
    /// property view that owns this chain; the view's
    /// [`and`](PropertyMatcher::and) operation hands the chain back.
    pub fn properties_matching<F: Fn(&str) -> bool>(self, predicate: F) -> (r: Result<
        PropertyMatcher,
        JsonPathError,
    >)
        requires
            forall|s: &str| #[trigger] call_requires(predicate, (s,)),
        ensures
            (r matches Err(_)) == !(self.sel().len() == 1 && self.first() is Obj),
            r matches Err(e) ==> spec_object_error(e, self),
            r matches Ok(m) ==> m.parent == self && exists|mask: Seq<bool>|
                #![trigger mask_ok(predicate, member_keys_of(self.first()->Obj_0), mask)]
                mask_ok(predicate, member_keys_of(self.first()->Obj_0), mask) && members_view(
                    m.pairs@,
                ) == mask_filter(
                    self.first()->Obj_0,
                    mask,
                    self.first()->Obj_0.len() as int,
                ),
    {
        let obj = match self.assert_object() {
            Result::Ok(o) => o,
            Result::Err(e) => {
                return Result::Err(e);
            },
        };
        let pairs = filter_members(&obj, &predicate);
        Result::Ok(PropertyMatcher::new(pairs, self))
    }
}

} // verus!
