//! An owned JSON tree.
//!
//! The envelope codec and the tools work on this type; the runner outside
//! the library only moves its text form over the wire.  A JSON number is
//! kept as a `u64` when it is an unsigned integer in range, and otherwise
//! as its literal text, which is all the protocol layer ever distinguishes.

use vstd::prelude::*;
use crate::strutil::str_eq;

verus! {

broadcast use vstd::std_specs::vec::axiom_vec_index_decreases;

#[derive(Debug, PartialEq)]
pub enum JsonValue {
    Null,
    Bool(bool),
    /// A number that is an unsigned integer representable in 64 bits.
    UInt(u64),
    /// Any other number, kept as the literal text it was written with.
    NumOther(String),
    Str(String),
    Arr(Vec<JsonValue>),
    Obj(Vec<(String, JsonValue)>),
}

/// The mathematical shape of a JSON tree: what a [`JsonValue`] holds once
/// every string is read as its character sequence.
pub ghost enum JsonModel {
    Null,
    Bool(bool),
    UInt(u64),
    NumOther(Seq<char>),
    Str(Seq<char>),
    Arr(Seq<JsonModel>),
    Obj(Seq<(Seq<char>, JsonModel)>),
}

/// The model of an owned JSON tree.
pub open spec fn jv_view(v: JsonValue) -> JsonModel
    decreases v,
{
    match v {
        JsonValue::Null => JsonModel::Null,
        JsonValue::Bool(b) => JsonModel::Bool(b),
        JsonValue::UInt(n) => JsonModel::UInt(n),
        JsonValue::NumOther(t) => JsonModel::NumOther(t@),
        JsonValue::Str(t) => JsonModel::Str(t@),
        JsonValue::Arr(items) => JsonModel::Arr(
            Seq::new(
                items@.len(),
                |k: int|
                    if 0 <= k < items@.len() {
                        jv_view(items@[k])
                    } else {
                        JsonModel::Null
                    },
            ),
        ),
        JsonValue::Obj(entries) => JsonModel::Obj(
            Seq::new(
                entries@.len(),
                |k: int|
                    if 0 <= k < entries@.len() {
                        (entries@[k].0@, jv_view(entries@[k].1))
                    } else {
                        (Seq::empty(), JsonModel::Null)
                    },
            ),
        ),
    }
}

/// The models of a sequence of JSON values;
/// `jv_view(Arr(items))` is `Arr(models_of(items@))`.
pub open spec fn models_of(items: Seq<JsonValue>) -> Seq<JsonModel> {
    Seq::new(
        items.len(),
        |k: int|
            if 0 <= k < items.len() {
                jv_view(items[k])
            } else {
                JsonModel::Null
            },
    )
}

/// The models of a sequence of object members.
pub open spec fn entry_models_of(entries: Seq<(String, JsonValue)>) -> Seq<
    (Seq<char>, JsonModel),
> {
    Seq::new(
        entries.len(),
        |k: int|
            if 0 <= k < entries.len() {
                (entries[k].0@, jv_view(entries[k].1))
            } else {
                (Seq::empty(), JsonModel::Null)
            },
    )
}

pub proof fn lemma_jv_view_arr(items: Vec<JsonValue>)
    ensures
        jv_view(JsonValue::Arr(items)) == JsonModel::Arr(models_of(items@)),
{
    let a = jv_view(JsonValue::Arr(items));
    let b = JsonModel::Arr(models_of(items@));
    assert(a matches JsonModel::Arr(x) && b matches JsonModel::Arr(y) && x =~= y);
}

pub proof fn lemma_jv_view_obj(entries: Vec<(String, JsonValue)>)
    ensures
        jv_view(JsonValue::Obj(entries)) == JsonModel::Obj(entry_models_of(entries@)),
{
    let a = jv_view(JsonValue::Obj(entries));
    let b = JsonModel::Obj(entry_models_of(entries@));
    assert(a matches JsonModel::Obj(x) && b matches JsonModel::Obj(y) && x =~= y);
}

/// A sequence of strings, as JSON string models.
pub open spec fn strs_model(ss: Seq<String>) -> Seq<JsonModel> {
    Seq::new(
        ss.len(),
        |k: int|
            if 0 <= k < ss.len() {
                JsonModel::Str(ss[k]@)
            } else {
                JsonModel::Null
            },
    )
}

/// The value bound to `key` among `entries`, the last binding winning,
/// as it does for a JSON object whose keys repeat.
pub open spec fn obj_lookup(entries: Seq<(String, JsonValue)>, key: Seq<char>) -> Option<JsonValue>
    decreases entries.len(),
{
    if entries.len() == 0 {
        None
    } else if entries.last().0@ == key {
        Some(entries.last().1)
    } else {
        obj_lookup(entries.drop_last(), key)
    }
}

/// Field lookup on an object value; `None` on any other value.
pub open spec fn spec_get(v: JsonValue, key: Seq<char>) -> Option<JsonValue> {
    match v {
        JsonValue::Obj(entries) => obj_lookup(entries@, key),
        _ => None,
    }
}

impl JsonValue {
    /// The value of field `key` if `self` is an object that has it.
    pub fn get<'a>(&'a self, key: &str) -> (r: Option<&'a JsonValue>)
        ensures
            match r {
                Some(v) => spec_get(*self, key@) == Some(*v),
                None => spec_get(*self, key@) is None,
            },
    {
        match self {
            JsonValue::Obj(entries) => {
                let mut i: usize = entries.len();
                proof {
                    assert(entries@.take(i as int) =~= entries@);
                    assert(spec_get(*self, key@) == obj_lookup(entries@, key@));
                }
                while i > 0
                    invariant
                        i <= entries.len(),
                        spec_get(*self, key@) == obj_lookup(entries@, key@),
                        obj_lookup(entries@, key@) == obj_lookup(entries@.take(i as int), key@),
                    decreases i,
                {
                    i = i - 1;
                    if str_eq(entries[i].0.as_str(), key) {
                        proof {
                            let pre = entries@.take(i as int + 1);
                            assert(pre.last() == entries@[i as int]);
                            assert(obj_lookup(pre, key@) == Some(entries@[i as int].1));
                        }
                        return Some(&entries[i].1);
                    }
                    proof {
                        let pre = entries@.take(i as int + 1);
                        assert(pre.last() == entries@[i as int]);
                        assert(pre.drop_last() =~= entries@.take(i as int));
                    }
                }
                proof {
                    assert(entries@.take(0) =~= Seq::<(String, JsonValue)>::empty());
                }
                None
            },
            _ => None,
        }
    }

    /// The string content if `self` is a JSON string.
    pub fn as_str<'a>(&'a self) -> (r: Option<&'a String>)
        ensures
            match r {
                Some(s) => self matches JsonValue::Str(t) && t == *s,
                None => !(self matches JsonValue::Str(_)),
            },
    {
        match self {
            JsonValue::Str(s) => Some(s),
            _ => None,
        }
    }

    /// The numeric value if `self` is an unsigned 64-bit integer.
    pub fn as_u64(&self) -> (r: Option<u64>)
        ensures
            match r {
                Some(n) => *self == JsonValue::UInt(n),
                None => !(self matches JsonValue::UInt(_)),
            },
    {
        match self {
            JsonValue::UInt(n) => Some(*n),
            _ => None,
        }
    }

    /// An empty JSON object.
    pub fn empty_obj() -> (r: JsonValue)
        ensures
            r matches JsonValue::Obj(entries) && entries@.len() == 0,
    {
        JsonValue::Obj(Vec::new())
    }
}

} // verus!
