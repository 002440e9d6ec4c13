//! The file tools' decision logic: reading their arguments and shaping
//! file contents or directory listings as tool results.  The file
//! system work is the runner's.

use vstd::prelude::*;
use vstd::string::StringExecFns;
use crate::codec::{model_get, obj_of, put, take_one_field};
use crate::json::{JsonModel, JsonValue, jv_view, models_of};
use crate::json_ser::{json_to_string, spec_ser_value};
use crate::tool_dto::{ToolCallResult, text_tool_result, tool_failure_result};

verus! {

/// One directory entry: name, byte size, modification time (seconds
/// since the epoch, as text) and whether it is a directory.
#[derive(Debug, Clone, PartialEq)]
pub struct FileInfo {
    pub name: String,
    pub size: u64,
    pub modified: String,
    pub is_dir: bool,
}

/// The JSON model of one directory entry.
pub open spec fn spec_file_info_model(f: FileInfo) -> JsonModel {
    JsonModel::Obj(
        seq![
            ("name"@, JsonModel::Str(f.name@)),
            ("size"@, JsonModel::UInt(f.size)),
            ("modified"@, JsonModel::Str(f.modified@)),
            ("is_dir"@, JsonModel::Bool(f.is_dir)),
        ],
    )
}

/// The JSON models of a directory's entries.
pub open spec fn file_infos_model(fs: Seq<FileInfo>) -> Seq<JsonModel> {
    Seq::new(
        fs.len(),
        |k: int|
            if 0 <= k < fs.len() {
                spec_file_info_model(fs[k])
            } else {
                JsonModel::Null
            },
    )
}

/// Writes one directory entry as a JSON tree.
fn file_info_to_json(f: &FileInfo) -> (r: JsonValue)
    ensures
        jv_view(r) == spec_file_info_model(*f),
{
    let mut entries: Vec<(String, JsonValue)> = Vec::new();
    put(&mut entries, "name", JsonValue::Str(f.name.clone()));
    put(&mut entries, "size", JsonValue::UInt(f.size));
    put(&mut entries, "modified", JsonValue::Str(f.modified.clone()));
    put(&mut entries, "is_dir", JsonValue::Bool(f.is_dir));
    let r = obj_of(entries);
    proof {
        assert(jv_view(r) matches JsonModel::Obj(a) && spec_file_info_model(*f)
            matches JsonModel::Obj(b) && a =~= b);
    }
    r
}

/// Writes a directory's entries as a JSON array.
fn file_infos_to_json(fs: &Vec<FileInfo>) -> (r: JsonValue)
    ensures
        jv_view(r) == JsonModel::Arr(file_infos_model(fs@)),
{
    let mut arr: Vec<JsonValue> = Vec::new();
    let mut k: usize = 0;
    while k < fs.len()
        invariant
            k <= fs@.len(),
            models_of(arr@) == file_infos_model(fs@.subrange(0, k as int)),
        decreases fs@.len() - k,
    {
        let item = file_info_to_json(&fs[k]);
        proof {
            crate::json_parse::lemma_models_push(arr@, item);
            assert(models_of(arr@) + seq![jv_view(item)] =~= models_of(arr@).push(jv_view(item)));
            assert(models_of(arr@).push(jv_view(item)) =~= file_infos_model(
                fs@.subrange(0, k as int + 1),
            ));
        }
        arr.push(item);
        k = k + 1;
    }
    proof {
        assert(fs@.subrange(0, fs@.len() as int) =~= fs@);
        crate::json::lemma_jv_view_arr(arr);
    }
    JsonValue::Arr(arr)
}

// ------------------------------------------------------------------
// reading a file

/// What the file-reading tool decides before any file work.
#[derive(Debug)]
pub enum ReadFilePlan {
    /// A finished result: the arguments were unusable.
    Reply(ToolCallResult),
    /// Read this path.
    Read(String),
}

/// The path named by the arguments, when they are an object with a
/// string `file_path` field.
pub open spec fn spec_file_path_arg(m: JsonModel) -> Option<Seq<char>> {
    match model_get(m, "file_path"@) {
        Some(JsonModel::Str(s)) => Some(s),
        _ => None,
    }
}

/// Reads the file tool's arguments.
pub fn read_file_plan(args: Option<JsonValue>) -> (r: ReadFilePlan)
    ensures
        (match args {
            None => r matches ReadFilePlan::Reply(res) && res.is_error == Some(true) && (
            res.content[0].text matches Some(t) && t@ == "缺少参数"@),
            Some(v) => (match spec_file_path_arg(jv_view(v)) {
                Some(p) => r matches ReadFilePlan::Read(fp) && fp@ == p,
                None => r matches ReadFilePlan::Reply(res) && res.is_error == Some(true) && (
                res.content[0].text matches Some(t) && t@ == "查询路径有误"@),
            }),
        }),
{
    let v = match args {
        Some(v) => v,
        None => {
            return ReadFilePlan::Reply(tool_failure_result("缺少参数"));
        },
    };
    proof {
        crate::codec::lemma_get_view(v, "file_path"@);
    }
    match take_one_field(v, "file_path") {
        Some(JsonValue::Str(s)) => ReadFilePlan::Read(s),
        _ => ReadFilePlan::Reply(tool_failure_result("查询路径有误")),
    }
}

/// Shapes a finished read: the contents verbatim on success, the
/// failure's words otherwise, never a transport failure.
pub fn read_file_result(file_path: String, outcome: Result<String, String>) -> (r: ToolCallResult)
    ensures
        r.content@.len() == 1,
        r.content@[0].content_type@ == "text"@,
        (match outcome {
            Ok(contents) => {
                &&& r.is_error == Some(false)
                &&& r.content@[0].text matches Some(t) && t@ == contents@
                &&& r.structured_content matches Some(sc) && jv_view(sc) == JsonModel::Obj(
                    seq![
                        ("file_path"@, JsonModel::Str(file_path@)),
                        ("contents"@, JsonModel::Str(contents@)),
                    ],
                )
            },
            Err(e) => {
                &&& r.is_error == Some(true)
                &&& r.content@[0].text matches Some(t) && t@ == "读取文件失败: "@ + e@
                &&& r.structured_content matches Some(sc) && sc matches JsonValue::Str(m) && m@
                    == "读取文件失败: "@ + e@
            },
        }),
{
    match outcome {
        Ok(contents) => {
            let ghost fp0 = file_path@;
            let ghost c0 = contents@;
            let text = contents.clone();
            let mut entries: Vec<(String, JsonValue)> = Vec::new();
            put(&mut entries, "file_path", JsonValue::Str(file_path));
            put(&mut entries, "contents", JsonValue::Str(contents));
            let sc = obj_of(entries);
            proof {
                assert(jv_view(sc) matches JsonModel::Obj(a) && a =~= seq![
                    ("file_path"@, JsonModel::Str(fp0)),
                    ("contents"@, JsonModel::Str(c0)),
                ]);
            }
            text_tool_result(text, false, Some(sc))
        },
        Err(e) => {
            let msg = String::from_str("读取文件失败: ").concat(e.as_str());
            tool_failure_result(msg.as_str())
        },
    }
}

// ------------------------------------------------------------------
// listing a directory

/// What the listing tool decides before any file work.
#[derive(Debug)]
pub enum ListFilesPlan {
    /// A finished result: the arguments were unusable.
    Reply(ToolCallResult),
    /// List this directory.
    List(String),
}

/// The directory named by the arguments, when they are an object with a
/// string `dir_path` field.
pub open spec fn spec_dir_path_arg(m: JsonModel) -> Option<Seq<char>> {
    match model_get(m, "dir_path"@) {
        Some(JsonModel::Str(s)) => Some(s),
        _ => None,
    }
}

/// Reads the listing tool's arguments.
pub fn list_files_plan(args: Option<JsonValue>) -> (r: ListFilesPlan)
    ensures
        (match args {
            None => r matches ListFilesPlan::Reply(res) && res.is_error == Some(true) && (
            res.content[0].text matches Some(t) && t@ == "参数传递错误"@),
            Some(v) => (match spec_dir_path_arg(jv_view(v)) {
                Some(p) => r matches ListFilesPlan::List(dp) && dp@ == p,
                None => r matches ListFilesPlan::Reply(res) && res.is_error == Some(true) && (
                res.content[0].text matches Some(t) && t@ == "参数传递错误"@),
            }),
        }),
{
    let v = match args {
        Some(v) => v,
        None => {
            return ListFilesPlan::Reply(tool_failure_result("参数传递错误"));
        },
    };
    proof {
        crate::codec::lemma_get_view(v, "dir_path"@);
    }
    match take_one_field(v, "dir_path") {
        Some(JsonValue::Str(s)) => ListFilesPlan::List(s),
        _ => ListFilesPlan::Reply(tool_failure_result("参数传递错误")),
    }
}

/// Shapes a finished listing: the entries as JSON text, and the same
/// entries under `files` in the structured payload.
pub fn list_files_result(files: Vec<FileInfo>) -> (r: ToolCallResult)
    ensures
        r.is_error == Some(false),
        r.content@.len() == 1,
        r.content@[0].content_type@ == "text"@,
        r.content@[0].text matches Some(t) && t@ == spec_ser_value(
            JsonModel::Arr(file_infos_model(files@)),
        ),
        r.structured_content matches Some(sc) && jv_view(sc) == JsonModel::Obj(
            seq![("files"@, JsonModel::Arr(file_infos_model(files@)))],
        ),
{
    let arr = file_infos_to_json(&files);
    let text = json_to_string(&arr);
    let ghost fs0 = files@;
    let mut entries: Vec<(String, JsonValue)> = Vec::new();
    put(&mut entries, "files", arr);
    let sc = obj_of(entries);
    proof {
        assert(jv_view(sc) matches JsonModel::Obj(a) && a =~= seq![
            ("files"@, JsonModel::Arr(file_infos_model(fs0))),
        ]);
    }
    text_tool_result(text, false, Some(sc))
}

} // verus!
