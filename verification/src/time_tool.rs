//! The current-time tool: reads the wall clock through the calendar
//! library and shapes the reading as a tool result.

use vstd::prelude::*;
use vstd::string::StringExecFns;
use crate::codec::{obj_of, put};
use crate::json::{JsonModel, JsonValue, jv_view};
use crate::tool_dto::{ToolCallResult, text_tool_result};

verus! {

/// Relies on `chrono::Local::now` and `DateTime::format`: the local
/// wall-clock time, written as `%Y-%m-%d %H:%M:%S`.  Nothing can be
/// promised of a clock reading.
#[verifier::external_body]
fn local_time_text() -> String {
    chrono::Local::now().format("%Y-%m-%d %H:%M:%S").to_string()
}

/// The structured payload of a time reading.
pub open spec fn spec_time_json(now: Seq<char>) -> JsonModel {
    JsonModel::Obj(
        seq![
            ("timestamp"@, JsonModel::Str(now)),
            ("format"@, JsonModel::Str("YYYY-MM-DD HH:MM:SS"@)),
        ],
    )
}

/// Shapes one clock reading as a tool result.
pub fn time_result(now: String) -> (r: ToolCallResult)
    ensures
        r.is_error == Some(false),
        r.content@.len() == 1,
        r.content@[0].content_type@ == "text"@,
        r.content@[0].text matches Some(t) && t@ == now@,
        r.structured_content matches Some(sc) && jv_view(sc) == spec_time_json(now@),
{
    let ghost n0 = now@;
    let text = now.clone();
    let mut entries: Vec<(String, JsonValue)> = Vec::new();
    put(&mut entries, "timestamp", JsonValue::Str(now));
    put(&mut entries, "format", crate::codec::jstr("YYYY-MM-DD HH:MM:SS"));
    let sc = obj_of(entries);
    proof {
        assert(jv_view(sc) matches JsonModel::Obj(a) && spec_time_json(n0) matches JsonModel::Obj(
            b,
        ) && a =~= b);
    }
    text_tool_result(text, false, Some(sc))
}

/// Reports the current time: whatever the clock read, the text and the
/// structured timestamp agree, and the format tag is fixed.
pub fn handle_get_current_time() -> (r: ToolCallResult)
    ensures
        r.is_error == Some(false),
        r.content@.len() == 1,
        r.content@[0].content_type@ == "text"@,
        r.content@[0].text matches Some(t) && (r.structured_content matches Some(sc) && jv_view(sc)
            == spec_time_json(t@)),
{
    let now = local_time_text();
    time_result(now)
}

} // verus!
