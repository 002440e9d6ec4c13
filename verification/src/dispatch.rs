//! The dispatcher: one transition per request, no state kept between
//! requests.  A request without an identifier is a notification and is
//! answered with an empty object, whatever its method.  The handshake
//! and the tool listing are answered in place; a tool call becomes an
//! invocation for the runner to perform; anything else is a
//! method-not-found error.  [`spec_dispatch`] is the whole routing rule.

use vstd::prelude::*;
use vstd::string::StringExecFns;
use crate::codec::{
    IdModel, decode_flexible, error_to_json, id_view, put, response_to_json, spec_error_json,
    spec_flex_id, spec_flex_method, spec_flex_params, spec_response_json, take_two_fields,
};
use crate::json::{JsonModel, JsonValue, jv_view};
use crate::json_parse::{parse_json, spec_parse_text};
use crate::registry::{
    ToolId, handle_tools_list_internal, spec_tool_for_name, spec_tools_list_json, tool_for_name,
    tools_list_result_to_json,
};
use crate::strutil::str_eq;
use crate::tool_dto::{
    ErrorDetail, JsonRpcError, JsonRpcId, JsonRpcRequest, JsonRpcResponse, ToolCallParams,
    ToolCallResult, ToolsListParams,
};

verus! {

/// A tool call the runner still has to perform.
#[derive(Debug)]
pub struct ToolInvocation {
    pub id: JsonRpcId,
    pub tool: ToolId,
    pub arguments: Option<JsonValue>,
}

/// What the dispatcher decides: a finished response, or an invocation.
#[derive(Debug)]
pub enum DispatchAction {
    Respond(JsonValue),
    Invoke(ToolInvocation),
}

/// The mathematical shape of a dispatch decision.
pub ghost enum DispatchModel {
    RespondM(JsonModel),
    InvokeM(IdModel, ToolId, Option<JsonModel>),
}

/// The model of a dispatch decision.
pub open spec fn action_view(a: DispatchAction) -> DispatchModel {
    match a {
        DispatchAction::Respond(v) => DispatchModel::RespondM(jv_view(v)),
        DispatchAction::Invoke(inv) => DispatchModel::InvokeM(
            id_view(inv.id),
            inv.tool,
            match inv.arguments {
                Some(a) => Some(jv_view(a)),
                None => None,
            },
        ),
    }
}

/// The fixed handshake payload: capabilities, protocol version and
/// server identity.
pub open spec fn spec_initialize_json() -> JsonModel {
    JsonModel::Obj(
        seq![
            (
                "capabilities"@,
                JsonModel::Obj(
                    seq![
                        (
                            "tools"@,
                            JsonModel::Obj(seq![("listChanged"@, JsonModel::Bool(false))]),
                        ),
                    ],
                ),
            ),
            ("protocolVersion"@, JsonModel::Str("2025-06-18"@)),
            (
                "serverInfo"@,
                JsonModel::Obj(
                    seq![
                        ("name"@, JsonModel::Str("local_mcp_servers"@)),
                        ("version"@, JsonModel::Str("0.1.0"@)),
                    ],
                ),
            ),
        ],
    )
}

/// The tool name a call's parameters carry, or the empty name.
pub open spec fn spec_call_name(params: Option<JsonModel>) -> Seq<char> {
    match params {
        Some(p) => match crate::codec::model_get(p, "name"@) {
            Some(JsonModel::Str(s)) => s,
            _ => ""@,
        },
        None => ""@,
    }
}

/// The arguments a call's parameters carry; null counts as absent.
pub open spec fn spec_call_args(params: Option<JsonModel>) -> Option<JsonModel> {
    match params {
        Some(p) => match crate::codec::model_get(p, "arguments"@) {
            Some(JsonModel::Null) => None,
            Some(x) => Some(x),
            None => None,
        },
        None => None,
    }
}

/// The routing rule, whole: what the dispatcher decides for a lenient
/// request with the given identifier, method and parameters.
pub open spec fn spec_dispatch(
    id: Option<IdModel>,
    method: Seq<char>,
    params: Option<JsonModel>,
) -> DispatchModel {
    match id {
        None => DispatchModel::RespondM(JsonModel::Obj(Seq::empty())),
        Some(idm) => if method == "initialize"@ {
            DispatchModel::RespondM(spec_response_json("2.0"@, idm, spec_initialize_json()))
        } else if method == "tools/list"@ {
            DispatchModel::RespondM(spec_response_json("2.0"@, idm, spec_tools_list_json()))
        } else if method == "tools/call"@ {
            match spec_tool_for_name(spec_call_name(params)) {
                Some(tool) => DispatchModel::InvokeM(idm, tool, spec_call_args(params)),
                None => DispatchModel::RespondM(
                    spec_error_json(
                        "2.0"@,
                        idm,
                        -32602,
                        "Unknown tool: "@ + spec_call_name(params),
                        None,
                    ),
                ),
            }
        } else {
            DispatchModel::RespondM(
                spec_error_json("2.0"@, idm, -32601, "Method not found: "@ + method, None),
            )
        },
    }
}

/// Builds the handshake payload.
fn initialize_json() -> (r: JsonValue)
    ensures
        jv_view(r) == spec_initialize_json(),
{
    let mut tools_caps: Vec<(String, JsonValue)> = Vec::new();
    put(&mut tools_caps, "listChanged", JsonValue::Bool(false));
    let mut caps: Vec<(String, JsonValue)> = Vec::new();
    let tools_obj = crate::codec::obj_of(tools_caps);
    proof {
        assert(jv_view(tools_obj) matches JsonModel::Obj(x) && x =~= seq![
            ("listChanged"@, JsonModel::Bool(false)),
        ]);
    }
    put(&mut caps, "tools", tools_obj);
    let caps_obj = crate::codec::obj_of(caps);
    let mut info: Vec<(String, JsonValue)> = Vec::new();
    put(&mut info, "name", crate::codec::jstr("local_mcp_servers"));
    put(&mut info, "version", crate::codec::jstr("0.1.0"));
    let info_obj = crate::codec::obj_of(info);
    let mut top: Vec<(String, JsonValue)> = Vec::new();
    put(&mut top, "capabilities", caps_obj);
    put(&mut top, "protocolVersion", crate::codec::jstr("2025-06-18"));
    put(&mut top, "serverInfo", info_obj);
    let r = crate::codec::obj_of(top);
    proof {
        assert(jv_view(caps_obj) matches JsonModel::Obj(x) && x =~= seq![
            ("tools"@, JsonModel::Obj(seq![("listChanged"@, JsonModel::Bool(false))])),
        ]);
        assert(jv_view(info_obj) matches JsonModel::Obj(x) && x =~= seq![
            ("name"@, JsonModel::Str("local_mcp_servers"@)),
            ("version"@, JsonModel::Str("0.1.0"@)),
        ]);
        assert(jv_view(r) matches JsonModel::Obj(x) && spec_initialize_json()
            matches JsonModel::Obj(y) && x =~= y);
    }
    r
}

/// Routes one lenient request.
pub fn dispatch(req: crate::tool_dto::FlexibleJsonRpcRequest<JsonValue>) -> (r: DispatchAction)
    ensures
        action_view(r) == spec_dispatch(
            (match req.id {
                Some(id) => Some(id_view(id)),
                None => None,
            }),
            req.method@,
            (match req.params {
                Some(p) => Some(jv_view(p)),
                None => None,
            }),
        ),
{
    proof {
        reveal_strlit("");
        assert(""@ =~= Seq::<char>::empty());
    }
    let id = match req.id {
        Some(id) => id,
        None => {
            let r = DispatchAction::Respond(JsonValue::empty_obj());
            proof {
                assert(action_view(r) matches DispatchModel::RespondM(m) && m
                    matches JsonModel::Obj(es) && es =~= Seq::<(Seq<char>, JsonModel)>::empty());
            }
            return r;
        },
    };
    if str_eq(req.method.as_str(), "initialize") {
        let resp = JsonRpcResponse {
            jsonrpc: String::from_str("2.0"),
            id,
            result: initialize_json(),
        };
        DispatchAction::Respond(response_to_json(resp))
    } else if str_eq(req.method.as_str(), "tools/list") {
        let listing = handle_tools_list_internal(
            JsonRpcRequest::<ToolsListParams> {
                jsonrpc: req.jsonrpc,
                id,
                method: req.method,
                params: None,
            },
        );
        let resp = JsonRpcResponse {
            jsonrpc: listing.jsonrpc,
            id: listing.id,
            result: tools_list_result_to_json(listing.result),
        };
        DispatchAction::Respond(response_to_json(resp))
    } else if str_eq(req.method.as_str(), "tools/call") {
        proof {
            reveal_strlit("name");
            reveal_strlit("arguments");
            assert("name"@.len() == 4 && "arguments"@.len() == 9);
        }
        let (name, arguments): (String, Option<JsonValue>) = match req.params {
            Some(p) => {
                proof {
                    crate::codec::lemma_get_view(p, "name"@);
                    crate::codec::lemma_get_view(p, "arguments"@);
                }
                let (f_name, f_args) = take_two_fields(p, "name", "arguments");
                let name = match f_name {
                    Some(JsonValue::Str(s)) => s,
                    _ => String::new(),
                };
                let arguments = match f_args {
                    Some(JsonValue::Null) => None,
                    Some(x) => Some(x),
                    None => None,
                };
                (name, arguments)
            },
            None => (String::new(), None),
        };
        match tool_for_name(name.as_str()) {
            Some(tool) => DispatchAction::Invoke(ToolInvocation { id, tool, arguments }),
            None => {
                let err = JsonRpcError {
                    jsonrpc: String::from_str("2.0"),
                    id,
                    error: ErrorDetail {
                        code: -32602,
                        message: String::from_str("Unknown tool: ").concat(name.as_str()),
                        data: None,
                    },
                };
                DispatchAction::Respond(error_to_json(err))
            },
        }
    } else {
        let err = JsonRpcError {
            jsonrpc: String::from_str("2.0"),
            id,
            error: ErrorDetail {
                code: -32601,
                message: String::from_str("Method not found: ").concat(req.method.as_str()),
                data: None,
            },
        };
        DispatchAction::Respond(error_to_json(err))
    }
}

/// The fixed reply to a body that is not JSON at all.
pub open spec fn spec_parse_error_json() -> JsonModel {
    JsonModel::Obj(
        seq![
            ("jsonrpc"@, JsonModel::Str("2.0"@)),
            ("id"@, JsonModel::Null),
            (
                "error"@,
                JsonModel::Obj(
                    seq![
                        ("code"@, JsonModel::NumOther("-32700"@)),
                        ("message"@, JsonModel::Str("Parse error"@)),
                    ],
                ),
            ),
        ],
    )
}

/// Builds the parse-error reply.
fn parse_error_json() -> (r: JsonValue)
    ensures
        jv_view(r) == spec_parse_error_json(),
{
    let mut detail: Vec<(String, JsonValue)> = Vec::new();
    put(&mut detail, "code", JsonValue::NumOther(String::from_str("-32700")));
    put(&mut detail, "message", crate::codec::jstr("Parse error"));
    let detail_obj = crate::codec::obj_of(detail);
    let mut top: Vec<(String, JsonValue)> = Vec::new();
    put(&mut top, "jsonrpc", crate::codec::jstr("2.0"));
    put(&mut top, "id", JsonValue::Null);
    put(&mut top, "error", detail_obj);
    let r = crate::codec::obj_of(top);
    proof {
        assert(jv_view(detail_obj) matches JsonModel::Obj(x) && x =~= seq![
            ("code"@, JsonModel::NumOther("-32700"@)),
            ("message"@, JsonModel::Str("Parse error"@)),
        ]);
        assert(jv_view(r) matches JsonModel::Obj(x) && spec_parse_error_json()
            matches JsonModel::Obj(y) && x =~= y);
    }
    r
}

/// The generic entry point: reads any body leniently and routes it.  A
/// body that is not JSON gets the fixed parse-error reply.
pub fn handle_generic(body: &str) -> (r: DispatchAction)
    ensures
        (match spec_parse_text(body@) {
            None => action_view(r) == DispatchModel::RespondM(spec_parse_error_json()),
            Some(m) => action_view(r) == spec_dispatch(
                spec_flex_id(m),
                spec_flex_method(m),
                spec_flex_params(m),
            ),
        }),
{
    match parse_json(body) {
        None => DispatchAction::Respond(parse_error_json()),
        Some(v) => {
            let req = decode_flexible(v);
            dispatch(req)
        },
    }
}

// ------------------------------------------------------------------
// the strict tool-call endpoint

/// The tool name of strictly-decoded call parameters, or the empty
/// name.
pub open spec fn spec_strict_call_name(params: Option<ToolCallParams>) -> Seq<char> {
    match params {
        Some(p) => p.name@,
        None => ""@,
    }
}

/// Decides a strictly-decoded tool call: an invocation for a known
/// tool, and an unknown-tool error envelope otherwise, exactly when the
/// name is not in the registry.
pub fn tool_call_decision(request: JsonRpcRequest<ToolCallParams>) -> (r: Result<
    ToolInvocation,
    JsonRpcError,
>)
    ensures
        (match r {
            Ok(inv) => {
                &&& spec_tool_for_name(spec_strict_call_name(request.params)) == Some(inv.tool)
                &&& inv.id == request.id
                &&& inv.arguments == (match request.params {
                    Some(p) => p.arguments,
                    None => None,
                })
            },
            Err(e) => {
                &&& spec_tool_for_name(spec_strict_call_name(request.params)) is None
                &&& e.jsonrpc@ == "2.0"@
                &&& e.id == request.id
                &&& e.error.code == -32602
                &&& e.error.message@ == "Unknown tool: "@ + spec_strict_call_name(request.params)
                &&& e.error.data is None
            },
        }),
{
    proof {
        reveal_strlit("");
        assert(""@ =~= Seq::<char>::empty());
    }
    let (name, arguments): (String, Option<JsonValue>) = match request.params {
        Some(p) => (p.name, p.arguments),
        None => (String::new(), None),
    };
    match tool_for_name(name.as_str()) {
        Some(tool) => Ok(ToolInvocation { id: request.id, tool, arguments }),
        None => Err(
            JsonRpcError {
                jsonrpc: String::from_str("2.0"),
                id: request.id,
                error: ErrorDetail {
                    code: -32602,
                    message: String::from_str("Unknown tool: ").concat(name.as_str()),
                    data: None,
                },
            },
        ),
    }
}

/// Wraps a performed tool call as its success envelope.
pub fn tool_call_response(id: JsonRpcId, result: ToolCallResult) -> (r: JsonRpcResponse<
    ToolCallResult,
>)
    ensures
        r.jsonrpc@ == "2.0"@,
        r.id == id,
        r.result == result,
{
    JsonRpcResponse { jsonrpc: String::from_str("2.0"), id, result }
}

/// Wraps a performed tool call as the generic endpoint's response body.
pub fn wrap_tool_call_response(id: JsonRpcId, result: ToolCallResult) -> (r: JsonValue)
    ensures
        jv_view(r) == spec_response_json(
            "2.0"@,
            id_view(id),
            crate::codec::spec_tool_call_result_model(result),
        ),
{
    let ghost result0 = result;
    let resp = JsonRpcResponse {
        jsonrpc: String::from_str("2.0"),
        id,
        result: crate::codec::tool_call_result_to_json(result),
    };
    response_to_json(resp)
}


/// A request without an identifier is a notification: whatever its
/// method and parameters hold, the dispatcher answers with the empty
/// object and performs no tool work.
pub proof fn lemma_notification_empty(method: Seq<char>, params: Option<JsonModel>)
    ensures
        spec_dispatch(None, method, params) == DispatchModel::RespondM(
            JsonModel::Obj(Seq::empty()),
        ),
{
}

/// A tool call names a tool the registry knows exactly when the
/// dispatcher makes an invocation of it; any other name is answered
/// with the invalid-params error code.
pub proof fn lemma_call_routing(id: IdModel, params: Option<JsonModel>)
    ensures
        (match spec_tool_for_name(spec_call_name(params)) {
            Some(tool) => spec_dispatch(Some(id), "tools/call"@, params)
                == DispatchModel::InvokeM(id, tool, spec_call_args(params)),
            None => spec_dispatch(Some(id), "tools/call"@, params) == DispatchModel::RespondM(
                spec_error_json(
                    "2.0"@,
                    id,
                    -32602,
                    "Unknown tool: "@ + spec_call_name(params),
                    None,
                ),
            ),
        }),
{
    reveal_strlit("initialize");
    reveal_strlit("tools/list");
    reveal_strlit("tools/call");
    assert("initialize"@.len() == 10 && "tools/list"@.len() == 10 && "tools/call"@.len() == 10);
    assert("tools/call"@[0] != "initialize"@[0]);
    assert("tools/call"@[6] != "tools/list"@[6]);
}

} // verus!
