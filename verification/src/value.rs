//! The in-memory model of a JSON-like document.
//!
//! [`JsonValue`] is the executable representation; [`JsonVal`] is its
//! mathematical view, used by every contract in the crate.  Object members
//! keep their insertion order, and numbers are 64-bit signed integers.

use vstd::prelude::*;

verus! {

broadcast use vstd::std_specs::vec::group_vec_axioms;

/// A JSON-like value: the document under test and every value selected
/// from it.
#[derive(Debug)]
pub enum JsonValue {
    Null,
    Bool(bool),
    Int(i64),
    Str(String),
    Arr(Vec<JsonValue>),
    Obj(Vec<(String, JsonValue)>),
}

/// The mathematical shape of a [`JsonValue`]: the same tree with sequences
/// for arrays and member lists and unbounded integers for numbers.
#[verifier::ext_equal]
pub ghost enum JsonVal {
    Null,
    Bool(bool),
    Int(int),
    Str(Seq<char>),
    Arr(Seq<JsonVal>),
    Obj(Seq<(Seq<char>, JsonVal)>),
}

/// The mathematical value a [`JsonValue`] stands for.
pub open spec fn jv(v: JsonValue) -> JsonVal
    decreases v,
{
    match v {
        JsonValue::Null => JsonVal::Null,
        JsonValue::Bool(b) => JsonVal::Bool(b),
        JsonValue::Int(i) => JsonVal::Int(i as int),
        JsonValue::Str(s) => JsonVal::Str(s@),
        JsonValue::Arr(items) => JsonVal::Arr(
            Seq::new(
                items@.len(),
                |i: int| if 0 <= i < items@.len() {
                    jv(items@[i])
                } else {
                    JsonVal::Null
                },
            ),
        ),
        JsonValue::Obj(members) => JsonVal::Obj(
            Seq::new(
                members@.len(),
                |i: int| if 0 <= i < members@.len() {
                    (members@[i].0@, jv(members@[i].1))
                } else {
                    (Seq::empty(), JsonVal::Null)
                },
            ),
        ),
    }
}

impl View for JsonValue {
    type V = JsonVal;

    #[verifier::inline]
    open spec fn view(&self) -> JsonVal {
        jv(*self)
    }
}

/// The views of every value in a sequence of executable values.
pub open spec fn seq_view(s: Seq<JsonValue>) -> Seq<JsonVal> {
    Seq::new(s.len(), |i: int| s[i]@)
}

/// The views of every member in a sequence of key/value pairs.
pub open spec fn members_view(s: Seq<(String, JsonValue)>) -> Seq<(Seq<char>, JsonVal)> {
    Seq::new(s.len(), |i: int| (s[i].0@, s[i].1@))
}

/// The view of an array value is the sequence of its elements' views.
pub broadcast proof fn lemma_view_arr(items: Vec<JsonValue>)
    ensures
        #[trigger] jv(JsonValue::Arr(items)) == JsonVal::Arr(seq_view(items@)),
{
    let s = jv(JsonValue::Arr(items))->Arr_0;
    assert forall|i: int| 0 <= i < s.len() implies s[i] == seq_view(items@)[i] by {}
    assert(s =~= seq_view(items@));
}

/// The view of an object value is the sequence of its members' views.
pub broadcast proof fn lemma_view_obj(members: Vec<(String, JsonValue)>)
    ensures
        #[trigger] jv(JsonValue::Obj(members)) == JsonVal::Obj(members_view(members@)),
{
    let s = jv(JsonValue::Obj(members))->Obj_0;
    assert forall|i: int| 0 <= i < s.len() implies s[i] == members_view(members@)[i] by {}
    assert(s =~= members_view(members@));
}

/// The name of a value's runtime kind, as it appears in diagnostics.
pub open spec fn spec_kind_name(v: JsonVal) -> Seq<char> {
    match v {
        JsonVal::Null => "null"@,
        JsonVal::Bool(_) => "boolean"@,
        JsonVal::Int(_) => "number"@,
        JsonVal::Str(_) => "string"@,
        JsonVal::Arr(_) => "array"@,
        JsonVal::Obj(_) => "object"@,
    }
}

impl JsonValue {
    /// The name of this value's runtime kind, as it appears in diagnostics.
    pub fn kind_name(&self) -> (r: &'static str)
        ensures
            r@ == spec_kind_name(self@),
    {
        match self {
            JsonValue::Null => "null",
            JsonValue::Bool(_) => "boolean",
            JsonValue::Int(_) => "number",
            JsonValue::Str(_) => "string",
            JsonValue::Arr(_) => "array",
            JsonValue::Obj(_) => "object",
        }
    }
}

/// Deep structural equality of two values: true exactly when their
/// mathematical views coincide.
#[verifier::loop_isolation(false)]
pub fn deep_eq(a: &JsonValue, b: &JsonValue) -> (r: bool)
    ensures
        r == (a@ == b@),
    decreases *a,
{
    match (a, b) {
        (JsonValue::Null, JsonValue::Null) => true,
        (JsonValue::Bool(x), JsonValue::Bool(y)) => x == y,
        (JsonValue::Int(x), JsonValue::Int(y)) => x == y,
        (JsonValue::Str(x), JsonValue::Str(y)) => x.eq(y),
        (JsonValue::Arr(xs), JsonValue::Arr(ys)) => {
            proof {
                assert(*a == JsonValue::Arr(*xs));
                assert(*b == JsonValue::Arr(*ys));
                lemma_view_arr(*xs);
                lemma_view_arr(*ys);
                assert(a@ == JsonVal::Arr(seq_view(xs@)));
                assert(b@ == JsonVal::Arr(seq_view(ys@)));
            }
            if xs.len() != ys.len() {
                proof {
                    assert(seq_view(xs@).len() == xs@.len());
                    assert(seq_view(ys@).len() == ys@.len());
                }
                return false;
            }
            let n: usize = xs.len();
            let mut i: usize = 0;
            while i < n
                invariant
                    n == xs@.len() == ys@.len(),
                    i <= n,
                    forall|j: int| 0 <= j < i ==> seq_view(xs@)[j] == seq_view(ys@)[j],
                decreases n - i,
            {
                proof {
                    assert(*a is Arr);
                    assert(decreases_to!(*a => (*a)->Arr_0));
                    assert((*a)->Arr_0 == *xs);
                    assert(decreases_to!(*xs => xs[i as int]));
                    assert(decreases_to!(*a => xs[i as int]));
                }
                if !deep_eq(&xs[i], &ys[i]) {
                    proof {
                        lemma_view_arr(*xs);
                        lemma_view_arr(*ys);
                        assert(seq_view(xs@)[i as int] != seq_view(ys@)[i as int]);
                    }
                    return false;
                }
                i = i + 1;
            }
            proof {
                lemma_view_arr(*xs);
                lemma_view_arr(*ys);
                assert(seq_view(xs@) =~= seq_view(ys@));
            }
            true
        },
        (JsonValue::Obj(xs), JsonValue::Obj(ys)) => {
            proof {
                assert(*a == JsonValue::Obj(*xs));
                assert(*b == JsonValue::Obj(*ys));
                lemma_view_obj(*xs);
                lemma_view_obj(*ys);
                assert(a@ == JsonVal::Obj(members_view(xs@)));
                assert(b@ == JsonVal::Obj(members_view(ys@)));
            }
            if xs.len() != ys.len() {
                proof {
                    assert(members_view(xs@).len() == xs@.len());
                    assert(members_view(ys@).len() == ys@.len());
                }
                return false;
            }
            let n: usize = xs.len();
            let mut i: usize = 0;
            while i < n
                invariant
                    n == xs@.len() == ys@.len(),
                    i <= n,
                    forall|j: int| 0 <= j < i ==> members_view(xs@)[j] == members_view(ys@)[j],
                decreases n - i,
            {
                if !xs[i].0.eq(&ys[i].0) {
                    proof {
                        lemma_view_obj(*xs);
                        lemma_view_obj(*ys);
                        assert(members_view(xs@)[i as int] != members_view(ys@)[i as int]);
                    }
                    return false;
                }
                proof {
                    assert(*a is Obj);
                    assert(decreases_to!(*a => (*a)->Obj_0));
                    assert((*a)->Obj_0 == *xs);
                    assert(decreases_to!(*xs => xs[i as int]));
                    assert(decreases_to!(xs[i as int] => xs[i as int].1));
                    assert(decreases_to!(*a => xs[i as int].1));
                }
                if !deep_eq(&xs[i].1, &ys[i].1) {
                    proof {
                        lemma_view_obj(*xs);
                        lemma_view_obj(*ys);
                        assert(members_view(xs@)[i as int] != members_view(ys@)[i as int]);
                    }
                    return false;
                }
                proof {
                    assert(members_view(xs@)[i as int] == members_view(ys@)[i as int]);
                }
                i = i + 1;
            }
            proof {
                lemma_view_obj(*xs);
                lemma_view_obj(*ys);
                assert(members_view(xs@) =~= members_view(ys@));
            }
            true
        },
        _ => false,
    }
}

/// A structurally identical copy of a value.
#[verifier::loop_isolation(false)]
pub fn deep_clone(v: &JsonValue) -> (r: JsonValue)
    ensures
        r@ == v@,
    decreases *v,
{
    match v {
        JsonValue::Null => JsonValue::Null,
        JsonValue::Bool(b) => JsonValue::Bool(*b),
        JsonValue::Int(i) => JsonValue::Int(*i),
        JsonValue::Str(s) => JsonValue::Str(s.clone()),
        JsonValue::Arr(items) => {
            let n: usize = items.len();
            let mut out: Vec<JsonValue> = Vec::new();
            let mut i: usize = 0;
            while i < n
                invariant
                    n == items@.len(),
                    i <= n,
                    out@.len() == i,
                    forall|j: int| 0 <= j < i ==> seq_view(out@)[j] == seq_view(items@)[j],
                decreases n - i,
            {
                proof {
                    assert(*v is Arr);
                    assert(decreases_to!(*v => (*v)->Arr_0));
                    assert((*v)->Arr_0 == *items);
                    assert(decreases_to!(*items => items[i as int]));
                    assert(decreases_to!(*v => items[i as int]));
                }
                out.push(deep_clone(&items[i]));
                i = i + 1;
            }
            let r = JsonValue::Arr(out);
            proof {
                lemma_view_arr(out);
                lemma_view_arr(*items);
                assert(seq_view(out@) =~= seq_view(items@));
            }
            r
        },
        JsonValue::Obj(members) => {
            let n: usize = members.len();
            let mut out: Vec<(String, JsonValue)> = Vec::new();
            let mut i: usize = 0;
            while i < n
                invariant
                    n == members@.len(),
                    i <= n,
                    out@.len() == i,
                    forall|j: int| 0 <= j < i ==> members_view(out@)[j] == members_view(members@)[j],
                decreases n - i,
            {
                let key = members[i].0.clone();
                proof {
                    assert(*v is Obj);
                    assert(decreases_to!(*v => (*v)->Obj_0));
                    assert((*v)->Obj_0 == *members);
                    assert(decreases_to!(*members => members[i as int]));
                    assert(decreases_to!(members[i as int] => members[i as int].1));
                    assert(decreases_to!(*v => members[i as int].1));
                }
                let val = deep_clone(&members[i].1);
                out.push((key, val));
                i = i + 1;
            }
            let r = JsonValue::Obj(out);
            proof {
                lemma_view_obj(out);
                lemma_view_obj(*members);
                assert(members_view(out@) =~= members_view(members@));
            }
            r
        },
    }
}

/// Structurally identical copies of every value in the list.
pub fn clone_values(vs: &Vec<JsonValue>) -> (r: Vec<JsonValue>)
    ensures
        seq_view(r@) == seq_view(vs@),
{
    let n: usize = vs.len();
    let mut out: Vec<JsonValue> = Vec::new();
    let mut i: usize = 0;
    while i < n
        invariant
            n == vs@.len(),
            i <= n,
            out@.len() == i,
            forall|j: int| 0 <= j < i ==> seq_view(out@)[j] == seq_view(vs@)[j],
        decreases n - i,
    {
        let ghost prev = out@;
        out.push(deep_clone(&vs[i]));
        proof {
            assert forall|j: int| 0 <= j < i + 1 implies seq_view(out@)[j] == seq_view(vs@)[j] by {
                if j < i {
                    assert(out@[j] == prev[j]);
                    assert(seq_view(prev)[j] == prev[j]@);
                }
            }
        }
        i = i + 1;
    }
    proof {
        assert(seq_view(out@) =~= seq_view(vs@));
    }
    out
}

/// Structurally identical copies of every member in the list.
pub fn clone_members(ms: &Vec<(String, JsonValue)>) -> (r: Vec<(String, JsonValue)>)
    ensures
        members_view(r@) == members_view(ms@),
{
    let n: usize = ms.len();
    let mut out: Vec<(String, JsonValue)> = Vec::new();
    let mut i: usize = 0;
    while i < n
        invariant
            n == ms@.len(),
            i <= n,
            out@.len() == i,
            forall|j: int| 0 <= j < i ==> members_view(out@)[j] == members_view(ms@)[j],
        decreases n - i,
    {
        let ghost prev = out@;
        let key = ms[i].0.clone();
        let val = deep_clone(&ms[i].1);
        out.push((key, val));
        proof {
            assert forall|j: int| 0 <= j < i + 1 implies members_view(out@)[j]
                == members_view(ms@)[j] by {
                if j < i {
                    assert(out@[j] == prev[j]);
                    assert(members_view(prev)[j] == (prev[j].0@, prev[j].1@));
                }
            }
        }
        i = i + 1;
    }
    proof {
        assert(members_view(out@) =~= members_view(ms@));
    }
    out
}

} // verus!
