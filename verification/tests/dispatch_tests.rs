//! The dispatcher over the generic and strict tiers, as a client would
//! see it: bodies in, JSON bodies or invocations out.

use local_mcp_servers::codec::{decode_tool_call_request, decode_tools_list_request};
use local_mcp_servers::dispatch::{handle_generic, tool_call_decision, DispatchAction};
use local_mcp_servers::json::JsonValue;
use local_mcp_servers::json_parse::parse_json;
use local_mcp_servers::json_ser::json_to_string;
use local_mcp_servers::registry::ToolId;
use local_mcp_servers::tool_dto::{JsonRpcId, JsonRpcRequest, ToolCallParams};

fn respond_value(action: DispatchAction) -> serde_json::Value {
    match action {
        DispatchAction::Respond(v) => serde_json::from_str(&json_to_string(&v)).unwrap(),
        DispatchAction::Invoke(inv) => panic!("expected a response, got an invocation: {inv:?}"),
    }
}

#[test]
fn invalid_body_gets_parse_error() {
    let v = respond_value(handle_generic("this is not json"));
    assert_eq!(v["jsonrpc"], "2.0");
    assert!(v["id"].is_null());
    assert_eq!(v["error"]["code"], serde_json::Value::from(-32700));
    assert_eq!(v["error"]["message"], "Parse error");
}

#[test]
fn initialize_reports_protocol_and_capabilities() {
    let v = respond_value(handle_generic(r#"{"jsonrpc":"2.0","id":1,"method":"initialize"}"#));
    assert_eq!(v["jsonrpc"], "2.0");
    assert_eq!(v["id"], serde_json::Value::from(1u64));
    assert_eq!(v["result"]["protocolVersion"], "2025-06-18");
    assert_eq!(
        v["result"]["capabilities"]["tools"]["listChanged"],
        serde_json::Value::Bool(false)
    );
    assert_eq!(v["result"]["serverInfo"]["name"], "local_mcp_servers");
}

#[test]
fn notifications_get_empty_object_for_any_method() {
    for body in [
        r#"{"jsonrpc":"2.0","method":"initialize"}"#,
        r#"{"jsonrpc":"2.0","method":"tools/list"}"#,
        r#"{"jsonrpc":"2.0","method":"tools/call","params":{"name":"ping"}}"#,
        r#"{"jsonrpc":"2.0","method":"no-such-method"}"#,
        r#"{"method":"x","id":true}"#,
        r#"{"method":"x","id":1.5}"#,
    ] {
        match handle_generic(body) {
            DispatchAction::Respond(v) => assert_eq!(json_to_string(&v), "{}"),
            DispatchAction::Invoke(_) => panic!("a notification must not invoke a tool"),
        }
    }
}

#[test]
fn unknown_method_gets_method_not_found() {
    let v = respond_value(handle_generic(r#"{"jsonrpc":"2.0","id":"x","method":"frobnicate"}"#));
    assert_eq!(v["error"]["code"], serde_json::Value::from(-32601));
    assert_eq!(v["error"]["message"], "Method not found: frobnicate");
    assert_eq!(v["id"], "x");
}

#[test]
fn unknown_tool_gets_invalid_params_code() {
    let v = respond_value(handle_generic(
        r#"{"jsonrpc":"2.0","id":5,"method":"tools/call","params":{"name":"does-not-exist"}}"#,
    ));
    assert_eq!(v["error"]["code"], serde_json::Value::from(-32602));
    assert_eq!(v["error"]["message"], "Unknown tool: does-not-exist");
}

#[test]
fn known_tool_becomes_invocation() {
    match handle_generic(
        r#"{"jsonrpc":"2.0","id":5,"method":"tools/call","params":{"name":"ping","arguments":{"target":"example.com"}}}"#,
    ) {
        DispatchAction::Invoke(inv) => {
            assert_eq!(inv.tool, ToolId::Ping);
            assert_eq!(inv.id, JsonRpcId::Number(5));
            let args = inv.arguments.expect("arguments should be passed through");
            assert_eq!(args.get("target"), Some(&JsonValue::Str(String::from("example.com"))));
        },
        DispatchAction::Respond(v) => panic!("expected an invocation, got {}", json_to_string(&v)),
    }
}

#[test]
fn tools_list_reports_all_six() {
    let v = respond_value(handle_generic(r#"{"jsonrpc":"2.0","id":2,"method":"tools/list"}"#));
    let tools = v["result"]["tools"].as_array().unwrap();
    assert_eq!(tools.len(), 6);
    let names: Vec<&str> = tools.iter().map(|t| t["name"].as_str().unwrap()).collect();
    assert_eq!(
        names,
        vec!["get_system_type", "get_current_time", "ping", "read ip", "cat file", "list files"]
    );
    assert_eq!(tools[2]["inputSchema"]["type"], "object");
    assert_eq!(tools[2]["inputSchema"]["required"][0], "target");
    assert!(v["result"].get("nextCursor").is_none());
}

#[test]
fn lenient_tier_defaults_missing_fields() {
    // no method at all: treated as unknown, still answered
    let v = respond_value(handle_generic(r#"{"id":9}"#));
    assert_eq!(v["error"]["code"], serde_json::Value::from(-32601));
    assert_eq!(v["error"]["message"], "Method not found: unknown");
}

#[test]
fn strict_tools_list_decode() {
    let v = parse_json(r#"{"jsonrpc":"2.0","id":3,"method":"tools/list","params":{"cursor":"c"}}"#)
        .unwrap();
    let req = decode_tools_list_request(v).unwrap();
    assert_eq!(req.id, JsonRpcId::Number(3));
    assert_eq!(req.method, "tools/list");
    assert_eq!(req.params.unwrap().cursor, Some(String::from("c")));

    // the identifier is required on the strict tier
    let v = parse_json(r#"{"jsonrpc":"2.0","method":"tools/list"}"#).unwrap();
    assert!(decode_tools_list_request(v).is_none());

    // a wrongly-typed cursor is refused
    let v = parse_json(r#"{"jsonrpc":"2.0","id":1,"method":"tools/list","params":{"cursor":7}}"#)
        .unwrap();
    assert!(decode_tools_list_request(v).is_none());
}

#[test]
fn strict_tool_call_decode_and_decision() {
    let v = parse_json(
        r#"{"jsonrpc":"2.0","id":"a","method":"tools/call","params":{"name":"get_current_time"}}"#,
    )
    .unwrap();
    let req = decode_tool_call_request(v).unwrap();
    let inv = tool_call_decision(req).unwrap();
    assert_eq!(inv.tool, ToolId::CurrentTime);
    assert_eq!(inv.id, JsonRpcId::String(String::from("a")));

    // an unknown tool fails with the invalid-params code
    let req = JsonRpcRequest {
        jsonrpc: String::from("2.0"),
        id: JsonRpcId::Null,
        method: String::from("tools/call"),
        params: Some(ToolCallParams { name: String::from("does-not-exist"), arguments: None }),
    };
    let err = tool_call_decision(req).unwrap_err();
    assert_eq!(err.error.code, -32602);
    assert_eq!(err.error.message, "Unknown tool: does-not-exist");

    // missing params count as an empty name
    let req = JsonRpcRequest {
        jsonrpc: String::from("2.0"),
        id: JsonRpcId::Null,
        method: String::from("tools/call"),
        params: None,
    };
    let err = tool_call_decision(req).unwrap_err();
    assert_eq!(err.error.message, "Unknown tool: ");
}

#[test]
fn id_variants_survive_the_round_trip() {
    for (body, expect) in [
        (r#"{"jsonrpc":"2.0","id":"s-1","method":"nope"}"#, serde_json::Value::from("s-1")),
        (r#"{"jsonrpc":"2.0","id":7,"method":"nope"}"#, serde_json::Value::from(7u64)),
        (r#"{"jsonrpc":"2.0","id":null,"method":"nope"}"#, serde_json::Value::Null),
    ] {
        let v = respond_value(handle_generic(body));
        assert_eq!(v["id"], expect);
    }
}
