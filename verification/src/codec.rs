//! The envelope codec: between JSON trees and the envelope types.
//!
//! The lenient tier reads any JSON value and extracts the envelope
//! fields defensively, with defaults; the strict tier requires the exact
//! shape.  Both tiers, and the response writers, are specified over the
//! JSON model.

use vstd::prelude::*;
use vstd::string::StringExecFns;
use crate::json::{JsonModel, JsonValue, entry_models_of, jv_view, lemma_jv_view_obj, obj_lookup, spec_get};
use crate::json::{lemma_jv_view_arr, models_of, strs_model};
use crate::json_parse::{lemma_entry_models_push, spec_parse_text};
use crate::json_ser::{spec_dec_u64, spec_ser_value};
use crate::json_laws::lemma_round_trip_scalar;
use crate::strutil::{chars_to_string, str_eq};
use crate::tool_dto::{
    ContentAnnotations, JsonRpcId, JsonRpcRequest, ToolCallParams, ToolCallResult, ToolContent,
    ToolsListParams,
};

verus! {

/// The mathematical shape of a request identifier.
pub ghost enum IdModel {
    StrId(Seq<char>),
    NumId(u64),
    NullId,
}

/// The model of an identifier value.
pub open spec fn id_view(id: JsonRpcId) -> IdModel {
    match id {
        JsonRpcId::String(s) => IdModel::StrId(s@),
        JsonRpcId::Number(n) => IdModel::NumId(n),
        JsonRpcId::Null => IdModel::NullId,
    }
}

/// The JSON tree an identifier is written as.
pub open spec fn id_model_json(m: IdModel) -> JsonModel {
    match m {
        IdModel::StrId(s) => JsonModel::Str(s),
        IdModel::NumId(n) => JsonModel::UInt(n),
        IdModel::NullId => JsonModel::Null,
    }
}

/// The identifier read from a JSON tree: a string, an unsigned 64-bit
/// integer, or null; every other value is no identifier.
pub open spec fn id_of_model(m: JsonModel) -> Option<IdModel> {
    match m {
        JsonModel::Str(s) => Some(IdModel::StrId(s)),
        JsonModel::UInt(n) => Some(IdModel::NumId(n)),
        JsonModel::Null => Some(IdModel::NullId),
        _ => None,
    }
}

/// Every identifier, written and read back, is reproduced exactly: the
/// written text parses to the same JSON tree, and that tree reads back
/// as the same identifier, variant included.
pub proof fn lemma_id_round_trip(m: IdModel)
    ensures
        spec_parse_text(spec_ser_value(id_model_json(m))) == Some(id_model_json(m)),
        id_of_model(id_model_json(m)) == Some(m),
{
    lemma_round_trip_scalar(id_model_json(m));
}

/// Writes an identifier as a JSON tree.
pub fn id_to_json(id: &JsonRpcId) -> (r: JsonValue)
    ensures
        jv_view(r) == id_model_json(id_view(*id)),
{
    match id {
        JsonRpcId::String(s) => JsonValue::Str(s.clone()),
        JsonRpcId::Number(n) => JsonValue::UInt(*n),
        JsonRpcId::Null => JsonValue::Null,
    }
}

/// Reads an identifier from a JSON tree.
pub fn id_of_json(v: &JsonValue) -> (r: Option<JsonRpcId>)
    ensures
        (match r {
            Some(id) => id_of_model(jv_view(*v)) == Some(id_view(id)),
            None => id_of_model(jv_view(*v)) is None,
        }),
        r matches Some(id) ==> jv_view(*v) == id_model_json(id_view(id)),
{
    match v {
        JsonValue::Str(s) => Some(JsonRpcId::String(s.clone())),
        JsonValue::UInt(n) => Some(JsonRpcId::Number(*n)),
        JsonValue::Null => Some(JsonRpcId::Null),
        _ => None,
    }
}

/// The four envelope fields of a request object, each the last binding
/// of its name; every field is `None` when the value is not an object.
pub fn split_request_fields(v: JsonValue) -> (r: (
    Option<JsonValue>,
    Option<JsonValue>,
    Option<JsonValue>,
    Option<JsonValue>,
))
    ensures
        (match r.0 {
            Some(x) => spec_get(v, "jsonrpc"@) == Some(x),
            None => spec_get(v, "jsonrpc"@) is None,
        }),
        (match r.1 {
            Some(x) => spec_get(v, "id"@) == Some(x),
            None => spec_get(v, "id"@) is None,
        }),
        (match r.2 {
            Some(x) => spec_get(v, "method"@) == Some(x),
            None => spec_get(v, "method"@) is None,
        }),
        (match r.3 {
            Some(x) => spec_get(v, "params"@) == Some(x),
            None => spec_get(v, "params"@) is None,
        }),
{
    let mut f_jsonrpc: Option<JsonValue> = None;
    let mut f_id: Option<JsonValue> = None;
    let mut f_method: Option<JsonValue> = None;
    let mut f_params: Option<JsonValue> = None;
    match v {
        JsonValue::Obj(mut entries) => {
            loop
                invariant
                    (match f_jsonrpc {
                        Some(x) => spec_get(v, "jsonrpc"@) == Some(x),
                        None => spec_get(v, "jsonrpc"@) == obj_lookup(entries@, "jsonrpc"@),
                    }),
                    (match f_id {
                        Some(x) => spec_get(v, "id"@) == Some(x),
                        None => spec_get(v, "id"@) == obj_lookup(entries@, "id"@),
                    }),
                    (match f_method {
                        Some(x) => spec_get(v, "method"@) == Some(x),
                        None => spec_get(v, "method"@) == obj_lookup(entries@, "method"@),
                    }),
                    (match f_params {
                        Some(x) => spec_get(v, "params"@) == Some(x),
                        None => spec_get(v, "params"@) == obj_lookup(entries@, "params"@),
                    }),
                decreases entries@.len(),
            {
                proof {
                    reveal_strlit("jsonrpc");
                    reveal_strlit("id");
                    reveal_strlit("method");
                    reveal_strlit("params");
                    assert("jsonrpc"@.len() == 7 && "id"@.len() == 2 && "method"@.len() == 6
                        && "params"@.len() == 6);
                    assert("method"@[0] != "params"@[0]);
                    assert("jsonrpc"@ != "id"@ && "jsonrpc"@ != "method"@ && "jsonrpc"@
                        != "params"@ && "id"@ != "method"@ && "id"@ != "params"@ && "method"@
                        != "params"@);
                }
                let ghost prev = entries@;
                match entries.pop() {
                    None => {
                        return (f_jsonrpc, f_id, f_method, f_params);
                    },
                    Some((key, val)) => {
                        proof {
                            assert(entries@ =~= prev.drop_last());
                            assert(prev.last() == (key, val));
                        }
                        if f_jsonrpc.is_none() && str_eq(key.as_str(), "jsonrpc") {
                            f_jsonrpc = Some(val);
                        } else if f_id.is_none() && str_eq(key.as_str(), "id") {
                            f_id = Some(val);
                        } else if f_method.is_none() && str_eq(key.as_str(), "method") {
                            f_method = Some(val);
                        } else if f_params.is_none() && str_eq(key.as_str(), "params") {
                            f_params = Some(val);
                        }
                    },
                }
            }
        },
        _ => (None, None, None, None),
    }
}


// ------------------------------------------------------------------
// lookups over the model

/// The value bound to `key`, the last binding winning, at model level.
pub open spec fn model_lookup(entries: Seq<(Seq<char>, JsonModel)>, key: Seq<char>) -> Option<
    JsonModel,
>
    decreases entries.len(),
{
    if entries.len() == 0 {
        None
    } else if entries.last().0 == key {
        Some(entries.last().1)
    } else {
        model_lookup(entries.drop_last(), key)
    }
}

/// Field lookup on an object model.
pub open spec fn model_get(m: JsonModel, key: Seq<char>) -> Option<JsonModel> {
    match m {
        JsonModel::Obj(entries) => model_lookup(entries, key),
        _ => None,
    }
}

/// Looking a field up before or after taking the model is the same.
pub proof fn lemma_lookup_view(entries: Seq<(String, JsonValue)>, key: Seq<char>)
    ensures
        (match obj_lookup(entries, key) {
            Some(x) => model_lookup(entry_models_of(entries), key) == Some(jv_view(x)),
            None => model_lookup(entry_models_of(entries), key) is None,
        }),
    decreases entries.len(),
{
    if entries.len() > 0 {
        assert(entry_models_of(entries).last() == (entries.last().0@, jv_view(entries.last().1)));
        if entries.last().0@ != key {
            lemma_lookup_view(entries.drop_last(), key);
            assert(entry_models_of(entries).drop_last() =~= entry_models_of(entries.drop_last()));
        }
    }
}

/// As [`lemma_lookup_view`], phrased on a whole value.
pub proof fn lemma_get_view(v: JsonValue, key: Seq<char>)
    ensures
        (match spec_get(v, key) {
            Some(x) => model_get(jv_view(v), key) == Some(jv_view(x)),
            None => model_get(jv_view(v), key) is None,
        }),
{
    match v {
        JsonValue::Obj(entries) => {
            lemma_jv_view_obj(entries);
            lemma_lookup_view(entries@, key);
        },
        _ => {},
    }
}

// ------------------------------------------------------------------
// the lenient tier

/// The protocol tag a lenient request carries: the `jsonrpc` field when
/// it is a string, else the fixed tag.
pub open spec fn spec_flex_jsonrpc(m: JsonModel) -> Seq<char> {
    match model_get(m, "jsonrpc"@) {
        Some(JsonModel::Str(s)) => s,
        _ => "2.0"@,
    }
}

/// The identifier a lenient request carries, if any.
pub open spec fn spec_flex_id(m: JsonModel) -> Option<IdModel> {
    match model_get(m, "id"@) {
        Some(x) => id_of_model(x),
        None => None,
    }
}

/// The method a lenient request names: the `method` field when it is a
/// string, else `unknown`.
pub open spec fn spec_flex_method(m: JsonModel) -> Seq<char> {
    match model_get(m, "method"@) {
        Some(JsonModel::Str(s)) => s,
        _ => "unknown"@,
    }
}

/// The parameters a lenient request carries, passed through opaquely.
pub open spec fn spec_flex_params(m: JsonModel) -> Option<JsonModel> {
    model_get(m, "params"@)
}

/// Reads any JSON value as a lenient request, extracting each envelope
/// field defensively.
pub fn decode_flexible(v: JsonValue) -> (r: crate::tool_dto::FlexibleJsonRpcRequest<JsonValue>)
    ensures
        r.jsonrpc@ == spec_flex_jsonrpc(jv_view(v)),
        (match r.id {
            Some(id) => spec_flex_id(jv_view(v)) == Some(id_view(id)),
            None => spec_flex_id(jv_view(v)) is None,
        }),
        r.method@ == spec_flex_method(jv_view(v)),
        (match r.params {
            Some(p) => spec_flex_params(jv_view(v)) == Some(jv_view(p)),
            None => spec_flex_params(jv_view(v)) is None,
        }),
{
    proof {
        lemma_get_view(v, "jsonrpc"@);
        lemma_get_view(v, "id"@);
        lemma_get_view(v, "method"@);
        lemma_get_view(v, "params"@);
    }
    let (f_jsonrpc, f_id, f_method, f_params) = split_request_fields(v);
    let jsonrpc = match f_jsonrpc {
        Some(JsonValue::Str(s)) => s,
        _ => String::from_str("2.0"),
    };
    let id = match f_id {
        Some(x) => id_of_json(&x),
        None => None,
    };
    let method = match f_method {
        Some(JsonValue::Str(s)) => s,
        _ => String::from_str("unknown"),
    };
    crate::tool_dto::FlexibleJsonRpcRequest { jsonrpc, id, method, params: f_params }
}

// ------------------------------------------------------------------
// building JSON trees

/// A JSON string value.
pub fn jstr(x: &str) -> (r: JsonValue)
    ensures
        jv_view(r) == JsonModel::Str(x@),
{
    JsonValue::Str(String::from_str(x))
}

/// An object from its members.
pub fn obj_of(entries: Vec<(String, JsonValue)>) -> (r: JsonValue)
    ensures
        jv_view(r) == JsonModel::Obj(entry_models_of(entries@)),
{
    proof {
        lemma_jv_view_obj(entries);
    }
    JsonValue::Obj(entries)
}

/// Adds one member to an object under construction.
pub fn put(entries: &mut Vec<(String, JsonValue)>, key: &str, v: JsonValue)
    ensures
        entry_models_of(final(entries)@) == entry_models_of(old(entries)@) + seq![
            (key@, jv_view(v)),
        ],
{
    let k = String::from_str(key);
    proof {
        lemma_entry_models_push(entries@, k, v);
    }
    entries.push((k, v));
}

// ------------------------------------------------------------------
// writing envelopes

/// The JSON tree of a number used as an error code.
pub open spec fn spec_code_model(code: int) -> JsonModel {
    if code >= 0 {
        JsonModel::UInt(code as u64)
    } else {
        JsonModel::NumOther(seq!['-'] + spec_dec_u64((-code) as nat))
    }
}

/// The JSON tree of a success envelope.
pub open spec fn spec_response_json(jsonrpc: Seq<char>, id: IdModel, result: JsonModel) -> JsonModel {
    JsonModel::Obj(
        seq![
            ("jsonrpc"@, JsonModel::Str(jsonrpc)),
            ("id"@, id_model_json(id)),
            ("result"@, result),
        ],
    )
}

/// The JSON tree of an error envelope; an absent data field is written
/// as null.
pub open spec fn spec_error_json(
    jsonrpc: Seq<char>,
    id: IdModel,
    code: int,
    message: Seq<char>,
    data: Option<JsonModel>,
) -> JsonModel {
    JsonModel::Obj(
        seq![
            ("jsonrpc"@, JsonModel::Str(jsonrpc)),
            ("id"@, id_model_json(id)),
            (
                "error"@,
                JsonModel::Obj(
                    seq![
                        ("code"@, spec_code_model(code)),
                        ("message"@, JsonModel::Str(message)),
                        (
                            "data"@,
                            match data {
                                Some(d) => d,
                                None => JsonModel::Null,
                            },
                        ),
                    ],
                ),
            ),
        ],
    )
}

/// Writes an error code as a JSON number.
pub fn code_json(code: i32) -> (r: JsonValue)
    ensures
        jv_view(r) == spec_code_model(code as int),
{
    if code >= 0 {
        JsonValue::UInt(code as u64)
    } else {
        let mag = (-(code as i64)) as u64;
        let mut cs: Vec<char> = Vec::new();
        cs.push('-');
        crate::json_ser::push_dec_u64(&mut cs, mag);
        proof {
            assert(cs@ =~= seq!['-'] + spec_dec_u64(mag as nat));
        }
        JsonValue::NumOther(chars_to_string(&cs))
    }
}

/// Writes a success envelope as a JSON tree.
pub fn response_to_json(resp: crate::tool_dto::JsonRpcResponse<JsonValue>) -> (r: JsonValue)
    ensures
        jv_view(r) == spec_response_json(resp.jsonrpc@, id_view(resp.id), jv_view(resp.result)),
{
    let mut entries: Vec<(String, JsonValue)> = Vec::new();
    put(&mut entries, "jsonrpc", JsonValue::Str(resp.jsonrpc));
    put(&mut entries, "id", id_to_json(&resp.id));
    put(&mut entries, "result", resp.result);
    let r = obj_of(entries);
    proof {
        assert(jv_view(r) matches JsonModel::Obj(es) && es =~= seq![
            ("jsonrpc"@, JsonModel::Str(resp.jsonrpc@)),
            ("id"@, id_model_json(id_view(resp.id))),
            ("result"@, jv_view(resp.result)),
        ]);
    }
    r
}

/// Writes an error envelope as a JSON tree.
pub fn error_to_json(err: crate::tool_dto::JsonRpcError) -> (r: JsonValue)
    ensures
        jv_view(r) == spec_error_json(
            err.jsonrpc@,
            id_view(err.id),
            err.error.code as int,
            err.error.message@,
            match err.error.data {
                Some(d) => Some(jv_view(d)),
                None => None,
            },
        ),
{
    let mut detail: Vec<(String, JsonValue)> = Vec::new();
    put(&mut detail, "code", code_json(err.error.code));
    put(&mut detail, "message", JsonValue::Str(err.error.message));
    let ghost data_model: Option<JsonModel> = (match &err.error.data {
        Some(d) => Some(jv_view(*d)),
        None => None,
    });
    match err.error.data {
        Some(d) => {
            put(&mut detail, "data", d);
        },
        None => {
            put(&mut detail, "data", JsonValue::Null);
        },
    }
    let detail_obj = obj_of(detail);
    let mut entries: Vec<(String, JsonValue)> = Vec::new();
    put(&mut entries, "jsonrpc", JsonValue::Str(err.jsonrpc));
    put(&mut entries, "id", id_to_json(&err.id));
    put(&mut entries, "error", detail_obj);
    let r = obj_of(entries);
    proof {
        let want = spec_error_json(
            err.jsonrpc@,
            id_view(err.id),
            err.error.code as int,
            err.error.message@,
            data_model,
        );
        assert(jv_view(detail_obj) matches JsonModel::Obj(ds) && ds =~= seq![
            ("code"@, spec_code_model(err.error.code as int)),
            ("message"@, JsonModel::Str(err.error.message@)),
            (
                "data"@,
                match data_model {
                    Some(d) => d,
                    None => JsonModel::Null,
                },
            ),
        ]);
        assert(jv_view(r) matches JsonModel::Obj(es) && want matches JsonModel::Obj(ws) && es
            =~= ws);
    }
    r
}



// ------------------------------------------------------------------
// taking single fields out of an object

/// The value of one field, taken out of the object by value.
pub fn take_one_field(v: JsonValue, key: &str) -> (r: Option<JsonValue>)
    ensures
        (match r {
            Some(x) => spec_get(v, key@) == Some(x),
            None => spec_get(v, key@) is None,
        }),
{
    let mut found: Option<JsonValue> = None;
    match v {
        JsonValue::Obj(mut entries) => {
            loop
                invariant
                    (match found {
                        Some(x) => spec_get(v, key@) == Some(x),
                        None => spec_get(v, key@) == obj_lookup(entries@, key@),
                    }),
                decreases entries@.len(),
            {
                let ghost prev = entries@;
                match entries.pop() {
                    None => {
                        return found;
                    },
                    Some((k, val)) => {
                        proof {
                            assert(entries@ =~= prev.drop_last());
                            assert(prev.last() == (k, val));
                        }
                        if found.is_none() && str_eq(k.as_str(), key) {
                            found = Some(val);
                        }
                    },
                }
            }
        },
        _ => None,
    }
}

/// The values of two distinct fields, taken out of the object by value.
pub fn take_two_fields(v: JsonValue, key1: &str, key2: &str) -> (r: (
    Option<JsonValue>,
    Option<JsonValue>,
))
    requires
        key1@ != key2@,
    ensures
        (match r.0 {
            Some(x) => spec_get(v, key1@) == Some(x),
            None => spec_get(v, key1@) is None,
        }),
        (match r.1 {
            Some(x) => spec_get(v, key2@) == Some(x),
            None => spec_get(v, key2@) is None,
        }),
{
    let mut found1: Option<JsonValue> = None;
    let mut found2: Option<JsonValue> = None;
    match v {
        JsonValue::Obj(mut entries) => {
            loop
                invariant
                    key1@ != key2@,
                    (match found1 {
                        Some(x) => spec_get(v, key1@) == Some(x),
                        None => spec_get(v, key1@) == obj_lookup(entries@, key1@),
                    }),
                    (match found2 {
                        Some(x) => spec_get(v, key2@) == Some(x),
                        None => spec_get(v, key2@) == obj_lookup(entries@, key2@),
                    }),
                decreases entries@.len(),
            {
                let ghost prev = entries@;
                match entries.pop() {
                    None => {
                        return (found1, found2);
                    },
                    Some((k, val)) => {
                        proof {
                            assert(entries@ =~= prev.drop_last());
                            assert(prev.last() == (k, val));
                        }
                        if found1.is_none() && str_eq(k.as_str(), key1) {
                            found1 = Some(val);
                        } else if found2.is_none() && str_eq(k.as_str(), key2) {
                            found2 = Some(val);
                        }
                    },
                }
            }
        },
        _ => (None, None),
    }
}

/// The values of three distinct fields, taken out of the object by
/// value.
pub fn take_three_fields(v: JsonValue, key1: &str, key2: &str, key3: &str) -> (r: (
    Option<JsonValue>,
    Option<JsonValue>,
    Option<JsonValue>,
))
    requires
        key1@ != key2@,
        key1@ != key3@,
        key2@ != key3@,
    ensures
        (match r.0 {
            Some(x) => spec_get(v, key1@) == Some(x),
            None => spec_get(v, key1@) is None,
        }),
        (match r.1 {
            Some(x) => spec_get(v, key2@) == Some(x),
            None => spec_get(v, key2@) is None,
        }),
        (match r.2 {
            Some(x) => spec_get(v, key3@) == Some(x),
            None => spec_get(v, key3@) is None,
        }),
{
    let mut found1: Option<JsonValue> = None;
    let mut found2: Option<JsonValue> = None;
    let mut found3: Option<JsonValue> = None;
    match v {
        JsonValue::Obj(mut entries) => {
            loop
                invariant
                    key1@ != key2@,
                    key1@ != key3@,
                    key2@ != key3@,
                    (match found1 {
                        Some(x) => spec_get(v, key1@) == Some(x),
                        None => spec_get(v, key1@) == obj_lookup(entries@, key1@),
                    }),
                    (match found2 {
                        Some(x) => spec_get(v, key2@) == Some(x),
                        None => spec_get(v, key2@) == obj_lookup(entries@, key2@),
                    }),
                    (match found3 {
                        Some(x) => spec_get(v, key3@) == Some(x),
                        None => spec_get(v, key3@) == obj_lookup(entries@, key3@),
                    }),
                decreases entries@.len(),
            {
                let ghost prev = entries@;
                match entries.pop() {
                    None => {
                        return (found1, found2, found3);
                    },
                    Some((k, val)) => {
                        proof {
                            assert(entries@ =~= prev.drop_last());
                            assert(prev.last() == (k, val));
                        }
                        if found1.is_none() && str_eq(k.as_str(), key1) {
                            found1 = Some(val);
                        } else if found2.is_none() && str_eq(k.as_str(), key2) {
                            found2 = Some(val);
                        } else if found3.is_none() && str_eq(k.as_str(), key3) {
                            found3 = Some(val);
                        }
                    },
                }
            }
        },
        _ => (None, None, None),
    }
}

// ------------------------------------------------------------------
// the strict tier

/// The envelope part of the strict shape: a string protocol tag, an
/// identifier of a legal shape, and a string method, all required.
pub open spec fn spec_strict_envelope_ok(m: JsonModel) -> bool {
    &&& model_get(m, "jsonrpc"@) matches Some(JsonModel::Str(_))
    &&& (match model_get(m, "id"@) {
        Some(x) => id_of_model(x) is Some,
        None => false,
    })
    &&& model_get(m, "method"@) matches Some(JsonModel::Str(_))
}

/// The strict shape of tool-listing parameters: an object whose cursor,
/// if any, is a string or null.
pub open spec fn spec_tools_list_params_ok(p: JsonModel) -> bool {
    &&& p is Obj
    &&& (match model_get(p, "cursor"@) {
        None => true,
        Some(c) => c is Str || c is Null,
    })
}

/// The strict shape of tool-call parameters: an object with a string
/// name.
pub open spec fn spec_tool_call_params_ok(p: JsonModel) -> bool {
    &&& p is Obj
    &&& model_get(p, "name"@) matches Some(JsonModel::Str(_))
}

/// Reads a strictly-shaped tool-listing request.
pub fn decode_tools_list_request(v: JsonValue) -> (r: Option<JsonRpcRequest<ToolsListParams>>)
    ensures
        r is Some <==> spec_strict_envelope_ok(jv_view(v)) && (match spec_flex_params(jv_view(v)) {
            None => true,
            Some(p) => p is Null || spec_tools_list_params_ok(p),
        }),
        r matches Some(req) ==> {
            &&& model_get(jv_view(v), "jsonrpc"@) == Some(JsonModel::Str(req.jsonrpc@))
            &&& (match model_get(jv_view(v), "id"@) {
                Some(x) => id_of_model(x) == Some(id_view(req.id)),
                None => false,
            })
            &&& model_get(jv_view(v), "method"@) == Some(JsonModel::Str(req.method@))
            &&& (match spec_flex_params(jv_view(v)) {
                None => req.params is None,
                Some(p) => if p is Null {
                    req.params is None
                } else {
                    (match req.params {
                        Some(tp) => (match model_get(p, "cursor"@) {
                            Some(JsonModel::Str(c)) => tp.cursor matches Some(cs) && cs@ == c,
                            Some(JsonModel::Null) => tp.cursor is None,
                            None => tp.cursor is None,
                            _ => false,
                        }),
                        None => false,
                    })
                },
            })
        },
{
    proof {
        lemma_get_view(v, "jsonrpc"@);
        lemma_get_view(v, "id"@);
        lemma_get_view(v, "method"@);
        lemma_get_view(v, "params"@);
    }
    let (f_jsonrpc, f_id, f_method, f_params) = split_request_fields(v);
    let jsonrpc = match f_jsonrpc {
        Some(JsonValue::Str(s)) => s,
        _ => {
            return None;
        },
    };
    let id = match f_id {
        Some(x) => match id_of_json(&x) {
            Some(id) => id,
            None => {
                return None;
            },
        },
        None => {
            return None;
        },
    };
    let method = match f_method {
        Some(JsonValue::Str(s)) => s,
        _ => {
            return None;
        },
    };
    let params: Option<ToolsListParams> = match f_params {
        None => None,
        Some(JsonValue::Null) => None,
        Some(p) => {
            proof {
                lemma_get_view(p, "cursor"@);
            }
            if !(p matches JsonValue::Obj(_)) {
                return None;
            }
            let cursor_field = take_one_field(p, "cursor");
            let cursor = match cursor_field {
                Some(JsonValue::Str(c)) => Some(c),
                Some(JsonValue::Null) => None,
                None => None,
                _ => {
                    return None;
                },
            };
            Some(ToolsListParams { cursor })
        },
    };
    Some(JsonRpcRequest { jsonrpc, id, method, params })
}

/// Reads a strictly-shaped tool-call request.
pub fn decode_tool_call_request(v: JsonValue) -> (r: Option<JsonRpcRequest<ToolCallParams>>)
    ensures
        r is Some <==> spec_strict_envelope_ok(jv_view(v)) && (match spec_flex_params(jv_view(v)) {
            None => true,
            Some(p) => p is Null || spec_tool_call_params_ok(p),
        }),
        r matches Some(req) ==> {
            &&& model_get(jv_view(v), "jsonrpc"@) == Some(JsonModel::Str(req.jsonrpc@))
            &&& (match model_get(jv_view(v), "id"@) {
                Some(x) => id_of_model(x) == Some(id_view(req.id)),
                None => false,
            })
            &&& model_get(jv_view(v), "method"@) == Some(JsonModel::Str(req.method@))
            &&& (match spec_flex_params(jv_view(v)) {
                None => req.params is None,
                Some(p) => if p is Null {
                    req.params is None
                } else {
                    (match req.params {
                        Some(tp) => {
                            &&& model_get(p, "name"@) == Some(JsonModel::Str(tp.name@))
                            &&& (match model_get(p, "arguments"@) {
                                Some(JsonModel::Null) => tp.arguments is None,
                                Some(x) => (match tp.arguments {
                                    Some(a) => jv_view(a) == x,
                                    None => x is Null,
                                }),
                                None => tp.arguments is None,
                            })
                        },
                        None => false,
                    })
                },
            })
        },
{
    proof {
        lemma_get_view(v, "jsonrpc"@);
        lemma_get_view(v, "id"@);
        lemma_get_view(v, "method"@);
        lemma_get_view(v, "params"@);
        reveal_strlit("name");
        reveal_strlit("arguments");
        assert("name"@.len() == 4 && "arguments"@.len() == 9);
    }
    let (f_jsonrpc, f_id, f_method, f_params) = split_request_fields(v);
    let jsonrpc = match f_jsonrpc {
        Some(JsonValue::Str(s)) => s,
        _ => {
            return None;
        },
    };
    let id = match f_id {
        Some(x) => match id_of_json(&x) {
            Some(id) => id,
            None => {
                return None;
            },
        },
        None => {
            return None;
        },
    };
    let method = match f_method {
        Some(JsonValue::Str(s)) => s,
        _ => {
            return None;
        },
    };
    let params: Option<ToolCallParams> = match f_params {
        None => None,
        Some(JsonValue::Null) => None,
        Some(p) => {
            proof {
                lemma_get_view(p, "name"@);
                lemma_get_view(p, "arguments"@);
            }
            if !(p matches JsonValue::Obj(_)) {
                return None;
            }
            let (f_name, f_args) = take_two_fields(p, "name", "arguments");
            let name = match f_name {
                Some(JsonValue::Str(c)) => c,
                _ => {
                    return None;
                },
            };
            let arguments = match f_args {
                Some(JsonValue::Null) => None,
                Some(x) => Some(x),
                None => None,
            };
            Some(ToolCallParams { name, arguments })
        },
    };
    Some(JsonRpcRequest { jsonrpc, id, method, params })
}

// ------------------------------------------------------------------
// writing tool results

/// The JSON model of a content block's annotations.
pub open spec fn spec_annotations_model(a: ContentAnnotations) -> JsonModel {
    JsonModel::Obj(
        (match a.audience {
            Some(ss) => seq![("audience"@, JsonModel::Arr(strs_model(ss@)))],
            None => Seq::empty(),
        }),
    )
}

/// The JSON model of one content block.
pub open spec fn spec_content_model(c: ToolContent) -> JsonModel {
    JsonModel::Obj(
        seq![("type"@, JsonModel::Str(c.content_type@))] + (match c.text {
            Some(t) => seq![("text"@, JsonModel::Str(t@))],
            None => Seq::empty(),
        }) + (match c.data {
            Some(d) => seq![("data"@, JsonModel::Str(d@))],
            None => Seq::empty(),
        }) + (match c.mime_type {
            Some(mt) => seq![("mimeType"@, JsonModel::Str(mt@))],
            None => Seq::empty(),
        }) + (match c.annotations {
            Some(a) => seq![("annotations"@, spec_annotations_model(a))],
            None => Seq::empty(),
        }),
    )
}

/// The JSON models of a sequence of content blocks.
pub open spec fn contents_model(cs: Seq<ToolContent>) -> Seq<JsonModel> {
    Seq::new(
        cs.len(),
        |k: int|
            if 0 <= k < cs.len() {
                spec_content_model(cs[k])
            } else {
                JsonModel::Null
            },
    )
}

/// The JSON model of a whole tool result.
pub open spec fn spec_tool_call_result_model(r: ToolCallResult) -> JsonModel {
    JsonModel::Obj(
        seq![("content"@, JsonModel::Arr(contents_model(r.content@)))] + (match r.is_error {
            Some(b) => seq![("isError"@, JsonModel::Bool(b))],
            None => Seq::empty(),
        }) + (match r.structured_content {
            Some(sc) => seq![("structuredContent"@, jv_view(sc))],
            None => Seq::empty(),
        }),
    )
}

/// Writes one content block as a JSON tree.
fn content_to_json(c: ToolContent) -> (r: JsonValue)
    ensures
        jv_view(r) == spec_content_model(c),
{
    let ghost c0 = c;
    let mut entries: Vec<(String, JsonValue)> = Vec::new();
    put(&mut entries, "type", JsonValue::Str(c.content_type));
    match c.text {
        Some(t) => {
            put(&mut entries, "text", JsonValue::Str(t));
        },
        None => {},
    }
    match c.data {
        Some(d) => {
            put(&mut entries, "data", JsonValue::Str(d));
        },
        None => {},
    }
    match c.mime_type {
        Some(mt) => {
            put(&mut entries, "mimeType", JsonValue::Str(mt));
        },
        None => {},
    }
    match c.annotations {
        Some(a) => {
            let ghost a0 = a;
            let mut inner: Vec<(String, JsonValue)> = Vec::new();
            match a.audience {
                Some(ss) => {
                    let ghost ss0 = ss@;
                    let mut arr: Vec<JsonValue> = Vec::new();
                    let mut k: usize = 0;
                    let n = ss.len();
                    while k < n
                        invariant
                            k <= n,
                            n == ss0.len(),
                            ss@ == ss0,
                            models_of(arr@) == strs_model(ss0.take(k as int)),
                        decreases n - k,
                    {
                        let item = JsonValue::Str(ss[k].clone());
                        proof {
                            crate::json_parse::lemma_models_push(arr@, item);
                            assert(models_of(arr@) + seq![jv_view(item)] =~= models_of(
                                arr@,
                            ).push(jv_view(item)));
                            assert(models_of(arr@).push(jv_view(item)) =~= strs_model(
                                ss0.take(k as int + 1),
                            ));
                        }
                        arr.push(item);
                        k = k + 1;
                    }
                    proof {
                        assert(ss0.take(ss0.len() as int) =~= ss0);
                        lemma_jv_view_arr(arr);
                    }
                    put(&mut inner, "audience", JsonValue::Arr(arr));
                },
                None => {},
            }
            let ann = obj_of(inner);
            proof {
                assert(jv_view(ann) matches JsonModel::Obj(x) && spec_annotations_model(a0)
                    matches JsonModel::Obj(y) && x =~= y);
            }
            put(&mut entries, "annotations", ann);
        },
        None => {},
    }
    let r = obj_of(entries);
    proof {
        assert(jv_view(r) matches JsonModel::Obj(x) && spec_content_model(c0)
            matches JsonModel::Obj(y) && x =~= y);
    }
    r
}

/// Writes a tool result as a JSON tree.
pub fn tool_call_result_to_json(res: ToolCallResult) -> (r: JsonValue)
    ensures
        jv_view(r) == spec_tool_call_result_model(res),
{
    let ghost res0 = res;
    let ghost cs0 = res.content@;
    let mut content = res.content;
    let mut arr: Vec<JsonValue> = Vec::new();
    let mut k: usize = 0;
    let n = content.len();
    while k < n
        invariant
            k <= n,
            n == cs0.len(),
            content@ == cs0.skip(k as int),
            models_of(arr@) == contents_model(cs0.take(k as int)),
        decreases n - k,
    {
        proof {
            assert(cs0.skip(k as int)[0] == cs0[k as int]);
        }
        let c = content.remove(0);
        let item = content_to_json(c);
        proof {
            crate::json_parse::lemma_models_push(arr@, item);
            assert(models_of(arr@) + seq![jv_view(item)] =~= models_of(arr@).push(jv_view(item)));
            assert(models_of(arr@).push(jv_view(item)) =~= contents_model(cs0.take(k as int + 1)));
            assert(content@ =~= cs0.skip(k as int + 1));
        }
        arr.push(item);
        k = k + 1;
    }
    proof {
        assert(cs0.take(cs0.len() as int) =~= cs0);
        lemma_jv_view_arr(arr);
    }
    let mut entries: Vec<(String, JsonValue)> = Vec::new();
    put(&mut entries, "content", JsonValue::Arr(arr));
    match res.is_error {
        Some(b) => {
            put(&mut entries, "isError", JsonValue::Bool(b));
        },
        None => {},
    }
    match res.structured_content {
        Some(sc) => {
            put(&mut entries, "structuredContent", sc);
        },
        None => {},
    }
    let r = obj_of(entries);
    proof {
        assert(jv_view(r) matches JsonModel::Obj(x) && spec_tool_call_result_model(res0)
            matches JsonModel::Obj(y) && x =~= y);
    }
    r
}


} // verus!
