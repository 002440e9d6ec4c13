//! The wire-facing data types: JSON-RPC envelopes, tool descriptors and
//! tool results.  Their JSON form is produced and read by the codec in
//! [`crate::codec`]; the types themselves hold plain values only.

use vstd::prelude::*;
use vstd::string::StringExecFns;
use crate::json::JsonValue;

verus! {

/// A request identifier: a string, an unsigned integer, or null.  The
/// variant is kept exactly as the client sent it.
#[derive(Debug, Clone, PartialEq)]
pub enum JsonRpcId {
    String(String),
    Number(u64),
    Null,
}

/// A strictly-shaped request: the identifier and method are required.
#[derive(Debug)]
pub struct JsonRpcRequest<T> {
    pub jsonrpc: String,
    pub id: JsonRpcId,
    pub method: String,
    pub params: Option<T>,
}

/// A leniently-shaped request: a missing identifier marks a
/// notification.
#[derive(Debug)]
pub struct FlexibleJsonRpcRequest<T> {
    pub jsonrpc: String,
    pub id: Option<JsonRpcId>,
    pub method: String,
    pub params: Option<T>,
}

/// A successful response envelope.
#[derive(Debug)]
pub struct JsonRpcResponse<T> {
    pub jsonrpc: String,
    pub id: JsonRpcId,
    pub result: T,
}

/// An error response envelope.
#[derive(Debug)]
pub struct JsonRpcError {
    pub jsonrpc: String,
    pub id: JsonRpcId,
    pub error: ErrorDetail,
}

/// The error object inside an error envelope.
#[derive(Debug)]
pub struct ErrorDetail {
    pub code: i32,
    pub message: String,
    pub data: Option<JsonValue>,
}

/// One advertised tool.
#[derive(Debug)]
pub struct Tool {
    pub name: String,
    pub title: Option<String>,
    pub description: String,
    pub input_schema: ToolInputSchema,
    pub output_schema: Option<JsonValue>,
    pub annotations: Option<JsonValue>,
}

/// The input shape a tool declares.
#[derive(Debug)]
pub struct ToolInputSchema {
    pub schema_type: String,
    pub properties: Option<JsonValue>,
    pub required: Option<Vec<String>>,
}

/// Parameters of a tool-listing request.
#[derive(Debug)]
pub struct ToolsListParams {
    pub cursor: Option<String>,
}

/// The result of a tool-listing request: a single page, always.
#[derive(Debug)]
pub struct ToolsListResult {
    pub tools: Vec<Tool>,
    pub next_cursor: Option<String>,
}

/// Parameters of a tool call.
#[derive(Debug)]
pub struct ToolCallParams {
    pub name: String,
    pub arguments: Option<JsonValue>,
}

/// What a tool call returns: content blocks, an error flag, and an
/// optional structured payload.  An error flag never means a transport
/// failure; the envelope around it is still a success.
#[derive(Debug)]
pub struct ToolCallResult {
    pub content: Vec<ToolContent>,
    pub is_error: Option<bool>,
    pub structured_content: Option<JsonValue>,
}

/// One content block of a tool result.
#[derive(Debug)]
pub struct ToolContent {
    pub content_type: String,
    pub text: Option<String>,
    pub data: Option<String>,
    pub mime_type: Option<String>,
    pub annotations: Option<ContentAnnotations>,
}

/// Audience annotations of a content block.
#[derive(Debug)]
pub struct ContentAnnotations {
    pub audience: Option<Vec<String>>,
}

/// A server-sent notification envelope.
#[derive(Debug)]
pub struct Notification {
    pub jsonrpc: String,
    pub method: String,
    pub params: Option<JsonValue>,
}


/// One text content block carrying `text`, with the given error flag
/// and structured payload: the shape every tool result here takes.
pub fn text_tool_result(text: String, is_error: bool, structured: Option<JsonValue>) -> (r:
    ToolCallResult)
    ensures
        r.content@.len() == 1,
        r.content@[0].content_type@ == "text"@,
        r.content@[0].text matches Some(t) && t@ == text@,
        r.content@[0].data is None,
        r.content@[0].mime_type is None,
        r.content@[0].annotations is None,
        r.is_error == Some(is_error),
        r.structured_content == structured,
{
    let mut content: Vec<ToolContent> = Vec::new();
    content.push(
        ToolContent {
            content_type: {
                let mut s = String::new();
                s.append("text");
                s
            },
            text: Some(text),
            data: None,
            mime_type: None,
            annotations: None,
        },
    );
    ToolCallResult { content, is_error: Some(is_error), structured_content: structured }
}



/// A caught tool fault, converted to an error result instead of
/// aborting the request: the message as the text and as the structured
/// payload.
pub fn tool_failure_result(msg: &str) -> (r: ToolCallResult)
    ensures
        r.content@.len() == 1,
        r.content@[0].content_type@ == "text"@,
        r.content@[0].text matches Some(t) && t@ == msg@,
        r.is_error == Some(true),
        r.structured_content matches Some(sc) && sc matches JsonValue::Str(m) && m@ == msg@,
{
    let mut s = String::new();
    s.append(msg);
    let mut s2 = String::new();
    s2.append(msg);
    text_tool_result(s, true, Some(JsonValue::Str(s2)))
}


} // verus!
