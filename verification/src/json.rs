//! The JSON value model that the wire envelope is framed in.
//!
//! The codec works on raw bytes and keeps strings as byte strings.
//! A number whose token is a plain integer in the 64-bit signed range
//! is held as that integer; any other number token (fractional, with
//! an exponent, or out of that range) is held verbatim as its lexeme
//! bytes, so values such as a fractional difficulty pass through the
//! codec untouched and the caller decides how to read them.

use vstd::prelude::*;

verus! {

/// A JSON value as it appears inside a wire frame.
///
/// Object members keep their wire order; strings hold the unescaped
/// bytes between the quotes.
#[derive(Debug, PartialEq, Eq)]
pub enum JsonValue {
    Null,
    Bool(bool),
    Num(i64),
    /// A number token that is not a plain integer in the 64-bit
    /// signed range, kept verbatim as its lexeme bytes (sign, digits,
    /// fraction, exponent).
    NumRaw(Vec<u8>),
    Str(Vec<u8>),
    Arr(Vec<JsonValue>),
    Obj(Vec<(Vec<u8>, JsonValue)>),
}

/// The mathematical model of a JSON value, used by every contract.
pub ghost enum Jv {
    Null,
    Bool(bool),
    Num(int),
    NumRaw(Seq<u8>),
    Str(Seq<u8>),
    Arr(Seq<Jv>),
    Obj(Seq<(Seq<u8>, Jv)>),
}

/// Model of an object's member list.
pub open spec fn obj_view(entries: Seq<(Vec<u8>, JsonValue)>) -> Seq<(Seq<u8>, Jv)>
    decreases entries,
{
    Seq::new(
        entries.len(),
        |i: int|
            if 0 <= i < entries.len() {
                (entries[i].0@, json_view(entries[i].1))
            } else {
                (Seq::empty(), Jv::Null)
            },
    )
}

/// Model of a JSON value.
pub open spec fn json_view(v: JsonValue) -> Jv
    decreases v,
{
    match v {
        JsonValue::Null => Jv::Null,
        JsonValue::Bool(b) => Jv::Bool(b),
        JsonValue::Num(n) => Jv::Num(n as int),
        JsonValue::NumRaw(s) => Jv::NumRaw(s@),
        JsonValue::Str(s) => Jv::Str(s@),
        JsonValue::Arr(items) => Jv::Arr(
            Seq::new(
                items@.len(),
                |i: int|
                    if 0 <= i < items@.len() {
                        json_view(items[i])
                    } else {
                        Jv::Null
                    },
            ),
        ),
        JsonValue::Obj(entries) => Jv::Obj(obj_view(entries@)),
    }
}

/// Value of the first member named `key`, if any.
pub open spec fn jv_lookup(entries: Seq<(Seq<u8>, Jv)>, key: Seq<u8>) -> Option<Jv>
    decreases entries.len(),
{
    if entries.len() == 0 {
        None
    } else if entries[0].0 == key {
        Some(entries[0].1)
    } else {
        jv_lookup(entries.drop_first(), key)
    }
}

proof fn lemma_jv_lookup_skip(entries: Seq<(Seq<u8>, Jv)>, key: Seq<u8>, i: int)
    requires
        0 <= i <= entries.len(),
        forall|j: int| 0 <= j < i ==> entries[j].0 != key,
    ensures
        jv_lookup(entries, key) == jv_lookup(entries.skip(i), key),
    decreases i,
{
    if i > 0 {
        lemma_jv_lookup_skip(entries.drop_first(), key, i - 1);
        assert(entries.drop_first().skip(i - 1) =~= entries.skip(i));
    } else {
        assert(entries.skip(0) =~= entries);
    }
}

/// The model of an array value is the pointwise model of its items.
pub proof fn lemma_json_view_arr(items: Vec<JsonValue>, i: int)
    requires
        0 <= i < items@.len(),
    ensures
        json_view(JsonValue::Arr(items))->Arr_0.len() == items@.len(),
        json_view(JsonValue::Arr(items))->Arr_0[i] == json_view(items@[i]),
{
}

/// The model of an object value is the pointwise model of its members.
pub proof fn lemma_json_view_obj(entries: Vec<(Vec<u8>, JsonValue)>, i: int)
    requires
        0 <= i < entries@.len(),
    ensures
        json_view(JsonValue::Obj(entries))->Obj_0.len() == entries@.len(),
        json_view(JsonValue::Obj(entries))->Obj_0[i] == (entries@[i].0@, json_view(entries@[i].1)),
{
    let m = json_view(JsonValue::Obj(entries))->Obj_0;
    assert(m == obj_view(entries@));
    assert(m[i] == (entries@[i].0@, json_view(entries@[i].1)));
}

/// Structure-preserving copy of a JSON value.
#[verifier::loop_isolation(false)]
pub fn json_dup(v: &JsonValue) -> (r: JsonValue)
    ensures
        json_view(r) == json_view(*v),
    decreases v,
{
    match v {
        JsonValue::Null => JsonValue::Null,
        JsonValue::Bool(b) => JsonValue::Bool(*b),
        JsonValue::Num(n) => JsonValue::Num(*n),
        JsonValue::NumRaw(s) => JsonValue::NumRaw(vstd::slice::slice_to_vec(s.as_slice())),
        JsonValue::Str(s) => JsonValue::Str(vstd::slice::slice_to_vec(s.as_slice())),
        JsonValue::Arr(items) => {
            let mut out: Vec<JsonValue> = Vec::new();
            let mut i: usize = 0;
            while i < items.len()
                invariant
                    0 <= i <= items@.len(),
                    out@.len() == i,
                    forall|j: int| 0 <= j < i ==> json_view(out@[j]) == json_view(items@[j]),
                decreases items@.len() - i,
            {
                let e = json_dup(&items[i]);
                out.push(e);
                i += 1;
            }
            let r = JsonValue::Arr(out);
            proof {
                assert(json_view(r)->Arr_0 =~~= json_view(*v)->Arr_0);
            }
            r
        },
        JsonValue::Obj(entries) => {
            let mut out: Vec<(Vec<u8>, JsonValue)> = Vec::new();
            let mut i: usize = 0;
            while i < entries.len()
                invariant
                    0 <= i <= entries@.len(),
                    out@.len() == i,
                    forall|j: int|
                        0 <= j < i ==> out@[j].0@ == entries@[j].0@ && json_view(out@[j].1)
                            == json_view(entries@[j].1),
                decreases entries@.len() - i,
            {
                let k = vstd::slice::slice_to_vec(entries[i].0.as_slice());
                let e = json_dup(&entries[i].1);
                out.push((k, e));
                i += 1;
            }
            let r = JsonValue::Obj(out);
            proof {
                assert forall|j: int| 0 <= j < entries@.len() implies obj_view(out@)[j]
                    == obj_view(entries@)[j] by {
                    assert(out@[j].0@ == entries@[j].0@);
                    assert(json_view(out@[j].1) == json_view(entries@[j].1));
                }
                assert(out@.len() == entries@.len());
                assert(obj_view(out@) =~= obj_view(entries@));
                assert(json_view(r) == Jv::Obj(obj_view(out@)));
                assert(json_view(*v) == Jv::Obj(obj_view(entries@)));
            }
            r
        },
    }
}

/// Find the first member named `key` in an object's member list.
pub fn lookup_member<'a>(entries: &'a Vec<(Vec<u8>, JsonValue)>, key: &[u8]) -> (r: Option<
    &'a JsonValue,
>)
    ensures
        match r {
            Some(v) => jv_lookup(obj_view(entries@), key@) == Some(json_view(*v)),
            None => jv_lookup(obj_view(entries@), key@) is None,
        },
{
    let ghost model = obj_view(entries@);
    let mut i: usize = 0;
    while i < entries.len()
        invariant
            0 <= i <= entries@.len(),
            model == obj_view(entries@),
            forall|j: int| 0 <= j < i ==> model[j].0 != key@,
        decreases entries@.len() - i,
    {
        if crate::bytes_eq(entries[i].0.as_slice(), key) {
            proof {
                lemma_jv_lookup_skip(model, key@, i as int);
                assert(model.skip(i as int)[0] == model[i as int]);
            }
            return Some(&entries[i].1);
        }
        i += 1;
    }
    proof {
        lemma_jv_lookup_skip(model, key@, i as int);
        assert(model.skip(i as int) =~= Seq::<(Seq<u8>, Jv)>::empty());
    }
    None
}

} // verus!
