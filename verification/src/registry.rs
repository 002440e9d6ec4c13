//! The tool registry: the fixed set of tools, their descriptors, and the
//! name table the dispatcher routes by.  Built per request, never
//! mutated, and pinned exactly by [`spec_tools_list_json`].

use vstd::prelude::*;
use vstd::string::StringExecFns;
use crate::codec::put;
use crate::json::{JsonModel, JsonValue, entry_models_of, jv_view, strs_model};
use crate::tool_dto::{
    JsonRpcRequest, JsonRpcResponse, Tool, ToolInputSchema, ToolsListParams, ToolsListResult,
};
use crate::strutil::str_eq;

verus! {

/// The tools the registry knows, one routing key each.
#[derive(Debug, Clone, Copy, PartialEq, Eq, Structural)]
pub enum ToolId {
    SystemType,
    CurrentTime,
    Ping,
    ReadIp,
    CatFile,
    ListFiles,
}

/// The registry's name table.
pub open spec fn spec_tool_for_name(n: Seq<char>) -> Option<ToolId> {
    if n == "get_system_type"@ {
        Some(ToolId::SystemType)
    } else if n == "get_current_time"@ {
        Some(ToolId::CurrentTime)
    } else if n == "ping"@ {
        Some(ToolId::Ping)
    } else if n == "read ip"@ {
        Some(ToolId::ReadIp)
    } else if n == "cat file"@ {
        Some(ToolId::CatFile)
    } else if n == "list files"@ {
        Some(ToolId::ListFiles)
    } else {
        None
    }
}

/// Looks a tool up by name.
pub fn tool_for_name(name: &str) -> (r: Option<ToolId>)
    ensures
        r == spec_tool_for_name(name@),
{
    if str_eq(name, "get_system_type") {
        Some(ToolId::SystemType)
    } else if str_eq(name, "get_current_time") {
        Some(ToolId::CurrentTime)
    } else if str_eq(name, "ping") {
        Some(ToolId::Ping)
    } else if str_eq(name, "read ip") {
        Some(ToolId::ReadIp)
    } else if str_eq(name, "cat file") {
        Some(ToolId::CatFile)
    } else if str_eq(name, "list files") {
        Some(ToolId::ListFiles)
    } else {
        None
    }
}

// ------------------------------------------------------------------
// the JSON form of the registry's descriptors

/// One property declaration: a type tag and a description.
pub open spec fn spec_prop(ty: Seq<char>, desc: Seq<char>) -> JsonModel {
    JsonModel::Obj(seq![("type"@, JsonModel::Str(ty)), ("description"@, JsonModel::Str(desc))])
}

/// One descriptor: name, title, description, and an object input shape
/// with the given properties and, optionally, one required property.
pub open spec fn spec_tool_json(
    name: Seq<char>,
    title: Seq<char>,
    desc: Seq<char>,
    props: JsonModel,
    required: Option<Seq<char>>,
) -> JsonModel {
    JsonModel::Obj(
        seq![
            ("name"@, JsonModel::Str(name)),
            ("title"@, JsonModel::Str(title)),
            ("description"@, JsonModel::Str(desc)),
            (
                "inputSchema"@,
                JsonModel::Obj(
                    seq![("type"@, JsonModel::Str("object"@)), ("properties"@, props)] + (
                    match required {
                        Some(f) => seq![
                            ("required"@, JsonModel::Arr(seq![JsonModel::Str(f)])),
                        ],
                        None => Seq::empty(),
                    }),
                ),
            ),
        ],
    )
}

/// The descriptor of the system-type tool.
pub open spec fn spec_tool_system() -> JsonModel {
    spec_tool_json(
        "get_system_type"@,
        "系统类型信息"@,
        "获取当前运行系统的类型信息,包括操作系统、架构"@,
        JsonModel::Obj(Seq::empty()),
        None,
    )
}

/// The descriptor of the current-time tool.
pub open spec fn spec_tool_time() -> JsonModel {
    spec_tool_json(
        "get_current_time"@,
        "当前时间"@,
        "获取当前时间"@,
        JsonModel::Obj(Seq::empty()),
        None,
    )
}

/// The descriptor of the ping tool.
pub open spec fn spec_tool_ping() -> JsonModel {
    spec_tool_json(
        "ping"@,
        "Ping"@,
        "Ping 工具,测试网络连通性"@,
        JsonModel::Obj(
            seq![
                ("target"@, spec_prop("string"@, "要ping的地址,支持URL,IP:端口,IP地址,域名"@)),
            ],
        ),
        Some("target"@),
    )
}

/// The descriptor of the address-lookup tool.
pub open spec fn spec_tool_read_ip() -> JsonModel {
    spec_tool_json(
        "read ip"@,
        "查询IP"@,
        "查询域名解析IP及延迟；不传参数时返回本机公网IP"@,
        JsonModel::Obj(
            seq![
                ("domain"@, spec_prop("string"@, "要解析的域名，可选"@)),
                ("dns"@, spec_prop("string"@, "自定义DNS服务器，支持 ip 或 ip:port，可选"@)),
                ("port"@, spec_prop("number"@, "用于测延迟的端口，默认80，可选"@)),
            ],
        ),
        None,
    )
}

/// The descriptor of the file-reading tool.
pub open spec fn spec_tool_cat() -> JsonModel {
    spec_tool_json(
        "cat file"@,
        "读取文件"@,
        "读取文件内容"@,
        JsonModel::Obj(seq![("file_path"@, spec_prop("string"@, "要读取的文件路径"@))]),
        Some("file_path"@),
    )
}

/// The descriptor of the directory-listing tool.
pub open spec fn spec_tool_ls() -> JsonModel {
    spec_tool_json(
        "list files"@,
        "列出文件"@,
        "列出文件"@,
        JsonModel::Obj(seq![("dir_path"@, spec_prop("string"@, "要列出的文件夹路径"@))]),
        Some("dir_path"@),
    )
}

/// The whole tool-listing result, as JSON: the single page of six
/// descriptors and no further cursor.
pub open spec fn spec_tools_list_json() -> JsonModel {
    JsonModel::Obj(
        seq![
            (
                "tools"@,
                JsonModel::Arr(
                    seq![
                        spec_tool_system(),
                        spec_tool_time(),
                        spec_tool_ping(),
                        spec_tool_read_ip(),
                        spec_tool_cat(),
                        spec_tool_ls(),
                    ],
                ),
            ),
        ],
    )
}

/// Every name the registry lists routes to a tool.
pub proof fn lemma_listed_tools_dispatchable()
    ensures
        spec_tool_for_name("get_system_type"@) == Some(ToolId::SystemType),
        spec_tool_for_name("get_current_time"@) == Some(ToolId::CurrentTime),
        spec_tool_for_name("ping"@) == Some(ToolId::Ping),
        spec_tool_for_name("read ip"@) == Some(ToolId::ReadIp),
        spec_tool_for_name("cat file"@) == Some(ToolId::CatFile),
        spec_tool_for_name("list files"@) == Some(ToolId::ListFiles),
{
    reveal_strlit("get_system_type");
    reveal_strlit("get_current_time");
    reveal_strlit("ping");
    reveal_strlit("read ip");
    reveal_strlit("cat file");
    reveal_strlit("list files");
    assert("get_system_type"@.len() == 15 && "get_current_time"@.len() == 16 && "ping"@.len() == 4
        && "read ip"@.len() == 7 && "cat file"@.len() == 8 && "list files"@.len() == 10);
}

// ------------------------------------------------------------------
// the descriptors as data, and their JSON writing

/// The JSON model of one descriptor value.
pub open spec fn spec_tool_model(t: Tool) -> JsonModel {
    JsonModel::Obj(
        seq![
            ("name"@, JsonModel::Str(t.name@)),
            (
                "title"@,
                match t.title {
                    Some(s) => JsonModel::Str(s@),
                    None => JsonModel::Null,
                },
            ),
            ("description"@, JsonModel::Str(t.description@)),
            ("inputSchema"@, spec_schema_model(t.input_schema)),
        ] + (match t.output_schema {
            Some(o) => seq![("outputSchema"@, jv_view(o))],
            None => Seq::empty(),
        }) + (match t.annotations {
            Some(a) => seq![("annotations"@, jv_view(a))],
            None => Seq::empty(),
        }),
    )
}

/// The JSON model of an input-shape declaration.
pub open spec fn spec_schema_model(s: ToolInputSchema) -> JsonModel {
    JsonModel::Obj(
        seq![("type"@, JsonModel::Str(s.schema_type@))] + (match s.properties {
            Some(p) => seq![("properties"@, jv_view(p))],
            None => Seq::empty(),
        }) + (match s.required {
            Some(rq) => seq![("required"@, JsonModel::Arr(strs_model(rq@)))],
            None => Seq::empty(),
        }),
    )
}

/// The JSON model of a tool-listing result.
pub open spec fn spec_tools_result_model(r: ToolsListResult) -> JsonModel {
    JsonModel::Obj(
        seq![("tools"@, JsonModel::Arr(tools_model(r.tools@)))] + (match r.next_cursor {
            Some(c) => seq![("nextCursor"@, JsonModel::Str(c@))],
            None => Seq::empty(),
        }),
    )
}

/// A sequence of descriptors, as JSON models.
pub open spec fn tools_model(ts: Seq<Tool>) -> Seq<JsonModel> {
    Seq::new(
        ts.len(),
        |k: int|
            if 0 <= k < ts.len() {
                spec_tool_model(ts[k])
            } else {
                JsonModel::Null
            },
    )
}


// ------------------------------------------------------------------
// building the registry and writing it

/// Builds one descriptor.
fn mk_tool(
    name: &str,
    title: &str,
    desc: &str,
    properties: JsonValue,
    required: Option<&str>,
) -> (t: Tool)
    ensures
        spec_tool_model(t) == spec_tool_json(
            name@,
            title@,
            desc@,
            jv_view(properties),
            match required {
                Some(f) => Some(f@),
                None => None,
            },
        ),
{
    let ghost props_model = jv_view(properties);
    let req_vec: Option<Vec<String>> = match required {
        Some(f) => {
            let mut rq: Vec<String> = Vec::new();
            rq.push(String::from_str(f));
            Some(rq)
        },
        None => None,
    };
    let t = Tool {
        name: String::from_str(name),
        title: Some(String::from_str(title)),
        description: String::from_str(desc),
        input_schema: ToolInputSchema {
            schema_type: String::from_str("object"),
            properties: Some(properties),
            required: req_vec,
        },
        output_schema: None,
        annotations: None,
    };
    proof {
        let want = spec_tool_json(name@, title@, desc@, props_model, (match required {
            Some(f) => Some(f@),
            None => None,
        }));
        match required {
            Some(f) => {
                assert(t.input_schema.required matches Some(rq) && strs_model(rq@) =~= seq![
                    JsonModel::Str(f@),
                ]);
                assert(spec_schema_model(t.input_schema) matches JsonModel::Obj(a) && a =~= seq![
                    ("type"@, JsonModel::Str("object"@)),
                    ("properties"@, props_model),
                ] + seq![("required"@, JsonModel::Arr(seq![JsonModel::Str(f@)]))]);
            },
            None => {
                assert(spec_schema_model(t.input_schema) matches JsonModel::Obj(a) && a =~= seq![
                    ("type"@, JsonModel::Str("object"@)),
                    ("properties"@, props_model),
                ] + Seq::empty());
            },
        }
        assert(spec_tool_model(t) matches JsonModel::Obj(a) && want matches JsonModel::Obj(b) && a
            =~= b);
    }
    t
}

/// Writes one descriptor as a JSON tree.
fn tool_to_json(t: Tool) -> (r: JsonValue)
    ensures
        jv_view(r) == spec_tool_model(t),
{
    let ghost t0 = t;
    let mut entries: Vec<(String, JsonValue)> = Vec::new();
    put(&mut entries, "name", JsonValue::Str(t.name));
    match t.title {
        Some(s) => {
            put(&mut entries, "title", JsonValue::Str(s));
        },
        None => {
            put(&mut entries, "title", JsonValue::Null);
        },
    }
    put(&mut entries, "description", JsonValue::Str(t.description));
    put(&mut entries, "inputSchema", schema_to_json(t.input_schema));
    match t.output_schema {
        Some(o) => {
            put(&mut entries, "outputSchema", o);
        },
        None => {},
    }
    match t.annotations {
        Some(a) => {
            put(&mut entries, "annotations", a);
        },
        None => {},
    }
    let r = crate::codec::obj_of(entries);
    proof {
        assert(jv_view(r) matches JsonModel::Obj(a) && spec_tool_model(t0) matches JsonModel::Obj(
            b,
        ) && a =~= b);
    }
    r
}

/// Writes an input-shape declaration as a JSON tree.
fn schema_to_json(s: ToolInputSchema) -> (r: JsonValue)
    ensures
        jv_view(r) == spec_schema_model(s),
{
    let ghost s0 = s;
    let mut entries: Vec<(String, JsonValue)> = Vec::new();
    put(&mut entries, "type", JsonValue::Str(s.schema_type));
    match s.properties {
        Some(p) => {
            put(&mut entries, "properties", p);
        },
        None => {},
    }
    match s.required {
        Some(rq) => {
            let ghost rq0 = rq@;
            let mut arr: Vec<JsonValue> = Vec::new();
            let mut k: usize = 0;
            let n = rq.len();
            let mut rest = rq;
            while k < n
                invariant
                    k <= n,
                    n == rq0.len(),
                    rest@ == rq0,
                    crate::json::models_of(arr@) == strs_model(rq0.take(k as int)),
                decreases n - k,
            {
                let item = JsonValue::Str(rest[k].clone());
                proof {
                    crate::json_parse::lemma_models_push(arr@, item);
                    assert(crate::json::models_of(arr@).push(jv_view(item)) =~= strs_model(
                        rq0.take(k as int + 1),
                    ));
                    assert(crate::json::models_of(arr@) + seq![jv_view(item)]
                        =~= crate::json::models_of(arr@).push(jv_view(item)));
                }
                arr.push(item);
                k = k + 1;
            }
            proof {
                assert(rq0.take(rq0.len() as int) =~= rq0);
                crate::json::lemma_jv_view_arr(arr);
            }
            put(&mut entries, "required", JsonValue::Arr(arr));
        },
        None => {},
    }
    let r = crate::codec::obj_of(entries);
    proof {
        assert(jv_view(r) matches JsonModel::Obj(a) && spec_schema_model(s0) matches JsonModel::Obj(
            b,
        ) && a =~= b);
    }
    r
}

/// Writes a tool-listing result as a JSON tree.
pub fn tools_list_result_to_json(res: ToolsListResult) -> (r: JsonValue)
    ensures
        jv_view(r) == spec_tools_result_model(res),
{
    let ghost res0 = res;
    let ghost ts0 = res.tools@;
    let mut tools = res.tools;
    let mut arr: Vec<JsonValue> = Vec::new();
    let mut k: usize = 0;
    let n = tools.len();
    while k < n
        invariant
            k <= n,
            n == ts0.len(),
            tools@ == ts0.skip(k as int),
            crate::json::models_of(arr@) == tools_model(ts0.take(k as int)),
        decreases n - k,
    {
        proof {
            assert(ts0.skip(k as int)[0] == ts0[k as int]);
        }
        let t = tools.remove(0);
        let item = tool_to_json(t);
        proof {
            crate::json_parse::lemma_models_push(arr@, item);
            assert(crate::json::models_of(arr@) + seq![jv_view(item)]
                =~= crate::json::models_of(arr@).push(jv_view(item)));
            assert(crate::json::models_of(arr@).push(jv_view(item)) =~= tools_model(
                ts0.take(k as int + 1),
            ));
            assert(tools@ =~= ts0.skip(k as int + 1));
        }
        arr.push(item);
        k = k + 1;
    }
    proof {
        assert(ts0.take(ts0.len() as int) =~= ts0);
        crate::json::lemma_jv_view_arr(arr);
    }
    let mut entries: Vec<(String, JsonValue)> = Vec::new();
    put(&mut entries, "tools", JsonValue::Arr(arr));
    match res.next_cursor {
        Some(c) => {
            put(&mut entries, "nextCursor", JsonValue::Str(c));
        },
        None => {},
    }
    let r = crate::codec::obj_of(entries);
    proof {
        assert(jv_view(r) matches JsonModel::Obj(a) && spec_tools_result_model(res0)
            matches JsonModel::Obj(b) && a =~= b);
    }
    r
}

/// Lists every registered tool: the single page, no further cursor.
pub fn handle_tools_list_internal(
    request: JsonRpcRequest<ToolsListParams>,
) -> (r: JsonRpcResponse<ToolsListResult>)
    ensures
        r.jsonrpc@ == "2.0"@,
        r.id == request.id,
        r.result.next_cursor is None,
        r.result.tools@.len() == 6,
        spec_tools_result_model(r.result) == spec_tools_list_json(),
{
    proof {
        assert(entry_models_of(Seq::<(String, JsonValue)>::empty()) =~= Seq::<
            (Seq<char>, JsonModel),
        >::empty());
    }
    let t1 = mk_tool(
        "get_system_type",
        "系统类型信息",
        "获取当前运行系统的类型信息,包括操作系统、架构",
        crate::codec::obj_of(Vec::new()),
        None,
    );
    let t2 = mk_tool(
        "get_current_time",
        "当前时间",
        "获取当前时间",
        crate::codec::obj_of(Vec::new()),
        None,
    );
    let mut p_ping: Vec<(String, JsonValue)> = Vec::new();
    put(&mut p_ping, "target", prop_json("string", "要ping的地址,支持URL,IP:端口,IP地址,域名"));
    proof {
        assert(entry_models_of(p_ping@) =~= seq![
            ("target"@, spec_prop("string"@, "要ping的地址,支持URL,IP:端口,IP地址,域名"@)),
        ]);
    }
    let t3 = mk_tool(
        "ping",
        "Ping",
        "Ping 工具,测试网络连通性",
        crate::codec::obj_of(p_ping),
        Some("target"),
    );
    let mut p_rip: Vec<(String, JsonValue)> = Vec::new();
    put(&mut p_rip, "domain", prop_json("string", "要解析的域名，可选"));
    put(&mut p_rip, "dns", prop_json("string", "自定义DNS服务器，支持 ip 或 ip:port，可选"));
    put(&mut p_rip, "port", prop_json("number", "用于测延迟的端口，默认80，可选"));
    proof {
        assert(entry_models_of(p_rip@) =~= seq![
            ("domain"@, spec_prop("string"@, "要解析的域名，可选"@)),
            ("dns"@, spec_prop("string"@, "自定义DNS服务器，支持 ip 或 ip:port，可选"@)),
            ("port"@, spec_prop("number"@, "用于测延迟的端口，默认80，可选"@)),
        ]);
    }
    let t4 = mk_tool(
        "read ip",
        "查询IP",
        "查询域名解析IP及延迟；不传参数时返回本机公网IP",
        crate::codec::obj_of(p_rip),
        None,
    );
    let mut p_cat: Vec<(String, JsonValue)> = Vec::new();
    put(&mut p_cat, "file_path", prop_json("string", "要读取的文件路径"));
    proof {
        assert(entry_models_of(p_cat@) =~= seq![
            ("file_path"@, spec_prop("string"@, "要读取的文件路径"@)),
        ]);
    }
    let t5 = mk_tool(
        "cat file",
        "读取文件",
        "读取文件内容",
        crate::codec::obj_of(p_cat),
        Some("file_path"),
    );
    let mut p_ls: Vec<(String, JsonValue)> = Vec::new();
    put(&mut p_ls, "dir_path", prop_json("string", "要列出的文件夹路径"));
    proof {
        assert(entry_models_of(p_ls@) =~= seq![
            ("dir_path"@, spec_prop("string"@, "要列出的文件夹路径"@)),
        ]);
    }
    let t6 = mk_tool(
        "list files",
        "列出文件",
        "列出文件",
        crate::codec::obj_of(p_ls),
        Some("dir_path"),
    );
    proof {
        assert(spec_tool_model(t1) == spec_tool_system());
        assert(spec_tool_model(t2) == spec_tool_time());
        assert(spec_tool_model(t3) == spec_tool_ping());
        assert(spec_tool_model(t4) == spec_tool_read_ip());
        assert(spec_tool_model(t5) == spec_tool_cat());
        assert(spec_tool_model(t6) == spec_tool_ls());
    }
    let mut tools: Vec<Tool> = Vec::new();
    tools.push(t1);
    tools.push(t2);
    tools.push(t3);
    tools.push(t4);
    tools.push(t5);
    tools.push(t6);
    let result = ToolsListResult { tools, next_cursor: None };
    proof {
        assert(tools_model(result.tools@) =~= seq![
            spec_tool_system(),
            spec_tool_time(),
            spec_tool_ping(),
            spec_tool_read_ip(),
            spec_tool_cat(),
            spec_tool_ls(),
        ]);
        assert(spec_tools_result_model(result) matches JsonModel::Obj(a) && spec_tools_list_json()
            matches JsonModel::Obj(b) && a =~= b);
    }
    JsonRpcResponse { jsonrpc: String::from_str("2.0"), id: request.id, result }
}

/// Builds one property declaration.
fn prop_json(ty: &str, desc: &str) -> (r: JsonValue)
    ensures
        jv_view(r) == spec_prop(ty@, desc@),
{
    let mut entries: Vec<(String, JsonValue)> = Vec::new();
    put(&mut entries, "type", crate::codec::jstr(ty));
    put(&mut entries, "description", crate::codec::jstr(desc));
    let r = crate::codec::obj_of(entries);
    proof {
        assert(jv_view(r) matches JsonModel::Obj(a) && spec_prop(ty@, desc@)
            matches JsonModel::Obj(b) && a =~= b);
    }
    r
}


} // verus!
