//! A JSON value as the library builds it. Numbers are unsigned integers, or
//! single-precision floats carried as their bit patterns; objects keep their
//! members in the order they were built.

use vstd::prelude::*;

verus! {

broadcast use vstd::std_specs::vec::axiom_vec_decreases_to_view;

pub enum Json {
    Null,
    Bool(bool),
    Num(u64),
    F32(u32),
    Str(String),
    Arr(Vec<Json>),
    Obj(Vec<(String, Json)>),
}

/// The mathematical value of a `Json`.
pub enum JsonV {
    Null,
    Bool(bool),
    Num(u64),
    F32(u32),
    Str(Seq<char>),
    Arr(Seq<JsonV>),
    Obj(Seq<(Seq<char>, JsonV)>),
}

pub open spec fn json_view(j: Json) -> JsonV
    decreases j,
{
    match j {
        Json::Null => JsonV::Null,
        Json::Bool(b) => JsonV::Bool(b),
        Json::Num(n) => JsonV::Num(n),
        Json::F32(f) => JsonV::F32(f),
        Json::Str(s) => JsonV::Str(s@),
        Json::Arr(v) => JsonV::Arr(
            Seq::new(
                v@.len(),
                |i: int|
                    if 0 <= i < v@.len() {
                        json_view(v@[i])
                    } else {
                        JsonV::Null
                    },
            ),
        ),
        Json::Obj(v) => JsonV::Obj(
            Seq::new(
                v@.len(),
                |i: int|
                    if 0 <= i < v@.len() {
                        (v@[i].0@, json_view(v@[i].1))
                    } else {
                        (Seq::empty(), JsonV::Null)
                    },
            ),
        ),
    }
}

/// The value of the first member named `key` among `ms`.
pub open spec fn first_member(ms: Seq<(Seq<char>, JsonV)>, key: Seq<char>) -> Option<JsonV>
    decreases ms.len(),
{
    if ms.len() == 0 {
        None
    } else if ms[0].0 == key {
        Some(ms[0].1)
    } else {
        first_member(ms.drop_first(), key)
    }
}

/// The value of member `key` of the object `j` (`j[key]`), `Null` where `j` is
/// no object or has no such member.
pub open spec fn at(j: JsonV, key: Seq<char>) -> JsonV {
    match j {
        JsonV::Obj(ms) => match first_member(ms, key) {
            Some(v) => v,
            None => JsonV::Null,
        },
        _ => JsonV::Null,
    }
}

impl View for Json {
    type V = JsonV;

    open spec fn view(&self) -> JsonV {
        json_view(*self)
    }
}

/// A copy of `j`.
pub fn clone_json(j: &Json) -> (r: Json)
    ensures
        r@ == j@,
    decreases j,
{
    match j {
        Json::Null => Json::Null,
        Json::Bool(b) => Json::Bool(*b),
        Json::Num(n) => Json::Num(*n),
        Json::F32(f) => Json::F32(*f),
        Json::Str(s) => Json::Str(s.clone()),
        Json::Arr(v) => {
            let mut out: Vec<Json> = Vec::new();
            let mut i: usize = 0;
            assert(decreases_to!(*j => *v));
            while i < v.len()
                invariant
                    decreases_to!(*j => *v),
                    i <= v.len(),
                    out@.len() == i,
                    forall|k: int| 0 <= k < i ==> json_view(#[trigger] out@[k]) == json_view(v@[k]),
                decreases v.len() - i,
            {
                assert(decreases_to!(*v => v@));
                assert(decreases_to!(v@ => v@[i as int]));
                assert(decreases_to!(*j => v@[i as int]));
                let e = clone_json(&v[i]);
                out.push(e);
                i += 1;
            }
            let r = Json::Arr(out);
            assert(r@ == j@) by {
                if let JsonV::Arr(a) = r@ {
                    if let JsonV::Arr(b) = j@ {
                        assert(a =~= b);
                    }
                }
            }
            r
        },
        Json::Obj(v) => {
            let mut out: Vec<(String, Json)> = Vec::new();
            let mut i: usize = 0;
            assert(decreases_to!(*j => *v));
            while i < v.len()
                invariant
                    decreases_to!(*j => *v),
                    i <= v.len(),
                    out@.len() == i,
                    forall|k: int|
                        0 <= k < i ==> (#[trigger] out@[k]).0@ == v@[k].0@ && json_view(out@[k].1)
                            == json_view(v@[k].1),
                decreases v.len() - i,
            {
                assert(decreases_to!(*v => v@));
                assert(decreases_to!(v@ => v@[i as int]));
                assert(decreases_to!(v@[i as int] => v@[i as int].1));
                assert(decreases_to!(*j => v@[i as int].1));
                let e = clone_json(&v[i].1);
                out.push((v[i].0.clone(), e));
                i += 1;
            }
            let r = Json::Obj(out);
            assert(r@ == j@) by {
                if let JsonV::Obj(a) = r@ {
                    if let JsonV::Obj(b) = j@ {
                        assert(a =~= b);
                    }
                }
            }
            r
        },
    }
}


/// The values of a list of members.
pub open spec fn members_view(m: Seq<(String, Json)>) -> Seq<(Seq<char>, JsonV)> {
    m.map_values(|e: (String, Json)| (e.0@, json_view(e.1)))
}

/// The values of a list of items.
pub open spec fn items_view(v: Seq<Json>) -> Seq<JsonV> {
    v.map_values(|e: Json| json_view(e))
}

/// The object with `members`, in order.
pub fn obj(members: Vec<(String, Json)>) -> (r: Json)
    ensures
        r@ == JsonV::Obj(members_view(members@)),
{
    let r = Json::Obj(members);
    assert(r@ == JsonV::Obj(members_view(members@))) by {
        if let JsonV::Obj(a) = r@ {
            assert(a =~= members_view(members@));
        }
    }
    r
}

/// The array of `items`, in order.
pub fn arr(items: Vec<Json>) -> (r: Json)
    ensures
        r@ == JsonV::Arr(items_view(items@)),
{
    let r = Json::Arr(items);
    assert(r@ == JsonV::Arr(items_view(items@))) by {
        if let JsonV::Arr(a) = r@ {
            assert(a =~= items_view(items@));
        }
    }
    r
}

/// Adds the member `key`: `val` to `m`.
pub fn push_member(m: &mut Vec<(String, Json)>, key: &str, val: Json)
    ensures
        members_view(final(m)@) == members_view(old(m)@).push((key@, val@)),
{
    m.push((key.to_owned(), val));
    assert(members_view(final(m)@) =~= members_view(old(m)@).push((key@, val@)));
}

/// Adds `val` to `v`.
pub fn push_item(v: &mut Vec<Json>, val: Json)
    ensures
        items_view(final(v)@) == items_view(old(v)@).push(val@),
{
    v.push(val);
    assert(items_view(final(v)@) =~= items_view(old(v)@).push(val@));
}

/// The JSON string `s`.
pub fn str_val(s: &str) -> (r: Json)
    ensures
        r@ == JsonV::Str(s@),
{
    Json::Str(s.to_owned())
}

} // verus!
