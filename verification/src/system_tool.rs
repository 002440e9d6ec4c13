//! The system-type tool: shapes the operating system and architecture
//! names as a tool result.  The names themselves are build constants the
//! runner hands in.

use vstd::prelude::*;
use vstd::string::StringExecFns;
use crate::codec::{obj_of, put};
use crate::json::{JsonModel, JsonValue, jv_view};
use crate::json_ser::{json_string_text, ser_string};
use crate::tool_dto::{ToolCallResult, text_tool_result};

verus! {

/// The system's identity: operating system and architecture.
#[derive(Debug, Clone, PartialEq)]
pub struct SystemInfo {
    pub os: String,
    pub arch: String,
}

/// The structured payload of a system report.
pub open spec fn spec_system_json(os: Seq<char>, arch: Seq<char>) -> JsonModel {
    JsonModel::Obj(seq![("os"@, JsonModel::Str(os)), ("arch"@, JsonModel::Str(arch))])
}

/// The text of a system report: the payload, pretty-written with
/// two-space indents.
pub open spec fn spec_system_text(os: Seq<char>, arch: Seq<char>) -> Seq<char> {
    "{\n  \"os\": "@ + ser_string(os) + ",\n  \"arch\": "@ + ser_string(arch) + "\n}"@
}

/// Reports the system's identity.
pub fn handle_get_system_type(info: SystemInfo) -> (r: ToolCallResult)
    ensures
        r.is_error == Some(false),
        r.content@.len() == 1,
        r.content@[0].content_type@ == "text"@,
        r.content@[0].text matches Some(t) && t@ == spec_system_text(info.os@, info.arch@),
        r.structured_content matches Some(sc) && jv_view(sc) == spec_system_json(
            info.os@,
            info.arch@,
        ),
{
    let text = String::from_str("{\n  \"os\": ").concat(
        json_string_text(info.os.as_str()).as_str(),
    ).concat(",\n  \"arch\": ").concat(json_string_text(info.arch.as_str()).as_str()).concat(
        "\n}",
    );
    let ghost os0 = info.os@;
    let ghost arch0 = info.arch@;
    let mut entries: Vec<(String, JsonValue)> = Vec::new();
    put(&mut entries, "os", JsonValue::Str(info.os));
    put(&mut entries, "arch", JsonValue::Str(info.arch));
    let sc = obj_of(entries);
    proof {
        assert(jv_view(sc) matches JsonModel::Obj(a) && spec_system_json(os0, arch0)
            matches JsonModel::Obj(b) && a =~= b);
    }
    text_tool_result(text, false, Some(sc))
}

} // verus!
