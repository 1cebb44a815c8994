//! Rendering of values for diagnostics.
//!
//! The rendering is deliberately simple and fully specified: strings are
//! printed verbatim between double quotes (no escaping), arrays between
//! brackets and objects between braces, with members separated by a comma
//! and a space.

use vstd::prelude::*;
use vstd::string::StringExecFns;

use crate::text::spec_int_string;
use crate::text::i64_to_string;
use crate::value::lemma_view_arr;
use crate::value::lemma_view_obj;
use crate::value::seq_view;
use crate::value::members_view;
use crate::value::JsonVal;
use crate::value::JsonValue;

verus! {

broadcast use vstd::std_specs::vec::group_vec_axioms;

/// The rendering of one member of an object: the quoted key, a colon and
/// a space, then the rendered value.
pub open spec fn spec_render_member(key: Seq<char>, val: Seq<char>) -> Seq<char> {
    seq!['"'] + key + seq!['"', ':', ' '] + val
}

/// The rendering of a value for diagnostics.
pub open spec fn spec_render(v: JsonVal) -> Seq<char>
    decreases v, 0int,
{
    match v {
        JsonVal::Null => "null"@,
        JsonVal::Bool(b) => if b {
            "true"@
        } else {
            "false"@
        },
        JsonVal::Int(i) => spec_int_string(i),
        JsonVal::Str(s) => seq!['"'] + s + seq!['"'],
        JsonVal::Arr(items) => seq!['['] + spec_render_items(items, items.len() as int)
            + seq![']'],
        JsonVal::Obj(members) => seq!['{'] + spec_render_members(members, members.len() as int)
            + seq!['}'],
    }
}

/// The rendering of the first `k` elements of an array, separated by a
/// comma and a space.
pub open spec fn spec_render_items(items: Seq<JsonVal>, k: int) -> Seq<char>
    decreases items, k,
{
    if k <= 0 || k > items.len() {
        Seq::empty()
    } else if k == 1 {
        spec_render(items[0])
    } else {
        spec_render_items(items, k - 1) + ", "@ + spec_render(items[k - 1])
    }
}

/// The rendering of the first `k` members of an object, separated by a
/// comma and a space.
pub open spec fn spec_render_members(members: Seq<(Seq<char>, JsonVal)>, k: int) -> Seq<char>
    decreases members, k,
{
    if k <= 0 || k > members.len() {
        Seq::empty()
    } else if k == 1 {
        spec_render_member(members[0].0, spec_render(members[0].1))
    } else {
        spec_render_members(members, k - 1) + ", "@ + spec_render_member(
            members[k - 1].0,
            spec_render(members[k - 1].1),
        )
    }
}

/// The rendering of a value for diagnostics.
#[verifier::loop_isolation(false)]
pub fn render_value(v: &JsonValue) -> (r: String)
    ensures
        r@ == spec_render(v@),
    decreases *v,
{
    match v {
        JsonValue::Null => String::from_str("null"),
        JsonValue::Bool(b) => {
            if *b {
                String::from_str("true")
            } else {
                String::from_str("false")
            }
        },
        JsonValue::Int(i) => i64_to_string(*i),
        JsonValue::Str(s) => {
            let mut out = String::from_str("\"");
            out.append(s.as_str());
            out.append("\"");
            proof {
                reveal_strlit("\"");
                assert(out@ =~= spec_render(v@));
            }
            out
        },
        JsonValue::Arr(items) => {
            proof {
                lemma_view_arr(*items);
                reveal_strlit("[");
                reveal_strlit("]");
                reveal_strlit(", ");
            }
            let ghost sv = seq_view(items@);
            let n: usize = items.len();
            let mut out = String::from_str("[");
            let mut i: usize = 0;
            while i < n
                invariant
                    n == items@.len(),
                    i <= n,
                    out@ == seq!['['] + spec_render_items(sv, i as int),
                decreases n - i,
            {
                if i > 0 {
                    out.append(", ");
                }
                proof {
                    assert(decreases_to!(*v => (*v)->Arr_0));
                    assert((*v)->Arr_0 == *items);
                    assert(decreases_to!(*items => items[i as int]));
                    assert(decreases_to!(*v => items[i as int]));
                }
                let piece = render_value(&items[i]);
                out.append(piece.as_str());
                proof {
                    assert(sv[i as int] == items@[i as int]@);
                    assert(out@ =~= seq!['['] + spec_render_items(sv, i + 1 as int));
                }
                i = i + 1;
            }
            out.append("]");
            proof {
                assert(out@ =~= spec_render(v@));
            }
            out
        },
        JsonValue::Obj(members) => {
            proof {
                lemma_view_obj(*members);
                reveal_strlit("{");
                reveal_strlit("}");
                reveal_strlit(", ");
                reveal_strlit("\"");
                reveal_strlit("\": ");
            }
            let ghost mv = members_view(members@);
            let n: usize = members.len();
            let mut out = String::from_str("{");
            let mut i: usize = 0;
            while i < n
                invariant
                    n == members@.len(),
                    i <= n,
                    out@ == seq!['{'] + spec_render_members(mv, i as int),
                decreases n - i,
            {
                if i > 0 {
                    out.append(", ");
                }
                out.append("\"");
                out.append(members[i].0.as_str());
                out.append("\": ");
                proof {
                    assert(decreases_to!(*v => (*v)->Obj_0));
                    assert((*v)->Obj_0 == *members);
                    assert(decreases_to!(*members => members[i as int]));
                    assert(decreases_to!(members[i as int] => members[i as int].1));
                    assert(decreases_to!(*v => members[i as int].1));
                }
                let piece = render_value(&members[i].1);
                out.append(piece.as_str());
                proof {
                    assert(mv[i as int] == (members@[i as int].0@, members@[i as int].1@));
                    assert(out@ =~= seq!['{'] + spec_render_members(mv, i + 1 as int));
                }
                i = i + 1;
            }
            out.append("}");
            proof {
                assert(out@ =~= spec_render(v@));
            }
            out
        },
    }
}

} // verus!
