//! The tools' decision logic: target parsing, ranking, the stream
//! schedule, and the shaped results.

use local_mcp_servers::file_tools::{
    list_files_plan, list_files_result, read_file_plan, read_file_result, FileInfo, ListFilesPlan,
    ReadFilePlan,
};
use local_mcp_servers::ip::{is_ip_literal, parse_u16};
use local_mcp_servers::json::JsonValue;
use local_mcp_servers::json_parse::parse_json;
use local_mcp_servers::json_ser::json_to_string;
use local_mcp_servers::ping::{parse_target, ping_plan, ping_result, PingOutcome, PingPlan};
use local_mcp_servers::random_string::{
    default_include_special, default_length, generate_random_string, handle_random_string_tool,
    RandomStringParams,
};
use local_mcp_servers::read_ip::{
    error_result, extract_ip_field, extract_ip_text, latency_record, public_ip_result,
    public_ip_services, rank_records, read_ip_plan, read_ip_success_result, resolver_plan,
    IpLatency, ReadIpPlan, ReadIpStatus, ResolverChoice,
};
use local_mcp_servers::sse::{sse_accept_ok, sse_event_at, SseEventKind};
use local_mcp_servers::system_tool::{handle_get_system_type, SystemInfo};
use local_mcp_servers::time_tool::time_result;
use local_mcp_servers::registry::{tool_for_name, ToolId};

fn structured(r: &local_mcp_servers::tool_dto::ToolCallResult) -> serde_json::Value {
    let sc = r.structured_content.as_ref().expect("structured payload expected");
    serde_json::from_str(&json_to_string(sc)).unwrap()
}

// ---- the ping probe's target parsing

#[test]
fn parse_target_url_gets_scheme_port() {
    assert_eq!(parse_target("https://example.com").unwrap(), "example.com:443");
    assert_eq!(parse_target("http://example.com").unwrap(), "example.com:80");
    assert_eq!(parse_target("https://example.com:8443/x").unwrap(), "example.com:8443");
}

#[test]
fn parse_target_bare_forms() {
    assert_eq!(parse_target("example.com").unwrap(), "example.com:80");
    assert_eq!(parse_target("1.2.3.4").unwrap(), "1.2.3.4:80");
    assert_eq!(parse_target("host.example.com:9090").unwrap(), "host.example.com:9090");
}

#[test]
fn parse_target_rejects_blank_and_nonsense() {
    assert_eq!(parse_target("").unwrap_err(), "目标地址不能为空");
    assert_eq!(parse_target("   ").unwrap_err(), "目标地址不能为空");
    assert_eq!(parse_target("nodotnocolon").unwrap_err(), "无效的目标地址格式");
}

#[test]
fn ip_literals() {
    assert!(is_ip_literal("1.2.3.4"));
    assert!(is_ip_literal("255.255.255.255"));
    assert!(!is_ip_literal("256.1.1.1"));
    assert!(!is_ip_literal("01.2.3.4"));
    assert!(is_ip_literal("::"));
    assert!(is_ip_literal("::1"));
    assert!(is_ip_literal("2001:db8::8a2e:370:7334"));
    assert!(is_ip_literal("1:2:3:4:5:6:7:8"));
    assert!(is_ip_literal("::ffff:1.2.3.4"));
    assert!(!is_ip_literal("1:2:3:4:5:6:7:8:9"));
    assert!(!is_ip_literal("1::2::3"));
    assert!(!is_ip_literal("example.com"));
}

#[test]
fn ports_parse_like_unsigned_integers() {
    assert_eq!(parse_u16(&"80".chars().collect()), Some(80));
    assert_eq!(parse_u16(&"+80".chars().collect()), Some(80));
    assert_eq!(parse_u16(&"0080".chars().collect()), Some(80));
    assert_eq!(parse_u16(&"65535".chars().collect()), Some(65535));
    assert_eq!(parse_u16(&"65536".chars().collect()), None);
    assert_eq!(parse_u16(&"".chars().collect()), None);
    assert_eq!(parse_u16(&"-1".chars().collect()), None);
    assert_eq!(parse_u16(&"8a".chars().collect()), None);
}

// ---- the ping probe's results

#[test]
fn ping_plan_paths() {
    match ping_plan(None) {
        PingPlan::Reply(res) => {
            assert_eq!(res.is_error, Some(true));
            assert_eq!(res.content[0].text.as_deref(), Some("缺少参数"));
            assert_eq!(structured(&res)["status"], "missing_arguments");
        },
        PingPlan::Probe(_) => panic!("missing arguments must not probe"),
    }
    match ping_plan(parse_json(r#"{"nope":1}"#)) {
        PingPlan::Reply(res) => {
            assert_eq!(structured(&res)["status"], "invalid_format");
        },
        PingPlan::Probe(_) => panic!("malformed arguments must not probe"),
    }
    match ping_plan(parse_json(r#"{"target":"https://example.com"}"#)) {
        PingPlan::Probe(t) => assert_eq!(t, "example.com:443"),
        PingPlan::Reply(_) => panic!("a readable target must probe"),
    }
    match ping_plan(parse_json(r#"{"target":""}"#)) {
        PingPlan::Reply(res) => {
            let sc = structured(&res);
            assert_eq!(sc["status"], "invalid_format");
            assert_eq!(sc["error"], "目标地址不能为空");
            assert_eq!(sc["target"], "");
        },
        PingPlan::Probe(_) => panic!("a blank target must not probe"),
    }
}

#[test]
fn ping_result_shapes() {
    let ok = ping_result(String::from("h:80"), PingOutcome::Connected(12));
    assert_eq!(ok.is_error, Some(false));
    assert_eq!(ok.content[0].text.as_deref(), Some("连接成功 - 目标: h:80 延迟: 12ms"));
    let sc = structured(&ok);
    assert_eq!(sc["status"], "success");
    assert_eq!(sc["connected"], serde_json::Value::Bool(true));
    assert_eq!(sc["timeout"], serde_json::Value::Bool(false));
    assert_eq!(sc["latency_ms"], serde_json::Value::from(12u64));

    let failed = ping_result(String::from("h:80"), PingOutcome::Failed(3));
    assert_eq!(failed.is_error, Some(true));
    assert_eq!(structured(&failed)["status"], "connection_failed");

    let out = ping_result(String::from("h:80"), PingOutcome::TimedOut);
    assert_eq!(out.is_error, Some(true));
    let sc = structured(&out);
    assert_eq!(sc["status"], "timeout");
    assert_eq!(sc["timeout"], serde_json::Value::Bool(true));
    // the timeout reports the whole budget, not an elapsed time
    assert_eq!(sc["latency_ms"], serde_json::Value::from(5000u64));
}

// ---- resolve-and-rank

fn rec(ip: &str, lat: Option<u64>) -> IpLatency {
    latency_record(String::from(ip), true, lat)
}


#[test]
fn ranking_sorts_and_caps_at_three() {
    let records = vec![
        rec("a", Some(40)),
        rec("b", None),
        rec("c", Some(10)),
        rec("d", Some(30)),
        rec("e", Some(20)),
    ];
    let top = rank_records(&records);
    assert_eq!(top.len(), 3);
    assert_eq!(top[0].ip, "c");
    assert_eq!(top[1].ip, "e");
    assert_eq!(top[2].ip, "d");
    let lat: Vec<u64> = top.iter().map(|r| r.latency_ms.unwrap()).collect();
    let mut sorted = lat.clone();
    sorted.sort();
    assert_eq!(lat, sorted);
}

#[test]
fn ranking_is_stable_on_equal_latencies() {
    let records = vec![rec("first", Some(5)), rec("second", Some(5))];
    let top = rank_records(&records);
    assert_eq!(top[0].ip, "first");
    assert_eq!(top[1].ip, "second");
}

#[test]
fn unreachable_domain_is_still_a_success() {
    let records = vec![rec("a", None), rec("b", None)];
    let res = read_ip_success_result(
        String::from("example.com"),
        String::from("1.1.1.1,8.8.8.8"),
        records,
    );
    assert_eq!(res.is_error, Some(false));
    let sc = structured(&res);
    assert_eq!(sc["status"], "success");
    assert_eq!(sc["top_ips"], serde_json::Value::Array(vec![]));
    let text = res.content[0].text.as_deref().unwrap();
    assert!(!text.is_empty());
    assert_eq!(text, "域名 example.com 解析到的IP均不可达或超时");
}

#[test]
fn reachable_domain_lists_the_best_three() {
    let records = vec![rec("9.9.9.9", Some(7)), rec("8.8.8.8", Some(3))];
    let res =
        read_ip_success_result(String::from("example.com"), String::from("1.1.1.1"), records);
    let sc = structured(&res);
    assert_eq!(sc["records"].as_array().unwrap().len(), 2);
    let top = sc["top_ips"].as_array().unwrap();
    assert_eq!(top.len(), 2);
    assert_eq!(top[0]["ip"], "8.8.8.8");
    assert_eq!(top[0]["latency_ms"], serde_json::Value::from(3u64));
    assert_eq!(
        res.content[0].text.as_deref().unwrap(),
        "域名 example.com 延迟最低的三个IP: 8.8.8.8(v4): 3ms, 9.9.9.9(v4): 7ms"
    );
}

#[test]
fn read_ip_plan_paths() {
    assert!(matches!(read_ip_plan(None), ReadIpPlan::FetchPublicIp));
    assert!(matches!(read_ip_plan(parse_json("{}")), ReadIpPlan::FetchPublicIp));
    match read_ip_plan(parse_json(r#"{"domain":"example.com","port":8080}"#)) {
        ReadIpPlan::Resolve { domain, resolver, dns_used, port } => {
            assert_eq!(domain, "example.com");
            assert!(matches!(resolver, ResolverChoice::Default));
            assert_eq!(dns_used, "1.1.1.1,8.8.8.8");
            assert_eq!(port, 8080);
        },
        other => panic!("expected a resolution, got {other:?}"),
    }
    match read_ip_plan(parse_json(r#"{"domain":"example.com","dns":"9.9.9.9"}"#)) {
        ReadIpPlan::Resolve { resolver, dns_used, port, .. } => {
            match resolver {
                ResolverChoice::Custom { host, v6, port } => {
                    assert_eq!(host, "9.9.9.9");
                    assert!(!v6);
                    assert_eq!(port, 53);
                },
                ResolverChoice::Default => panic!("a custom server was given"),
            }
            assert_eq!(dns_used, "9.9.9.9:53");
            assert_eq!(port, 80);
        },
        other => panic!("expected a resolution, got {other:?}"),
    }
    match read_ip_plan(parse_json(r#"{"domain":"example.com","dns":"not-an-ip"}"#)) {
        ReadIpPlan::Reply(res) => {
            assert_eq!(res.content[0].text.as_deref(), Some("无效的DNS地址"));
            assert_eq!(structured(&res)["status"], "invalid_arguments");
        },
        other => panic!("expected an error, got {other:?}"),
    }
    match read_ip_plan(parse_json(r#"{"domain":5}"#)) {
        ReadIpPlan::Reply(res) => {
            assert_eq!(structured(&res)["status"], "invalid_arguments");
        },
        other => panic!("expected an error, got {other:?}"),
    }
}

#[test]
fn resolver_plan_reads_socket_forms() {
    let (choice, text) = resolver_plan(Some("8.8.8.8:5353")).unwrap();
    match choice {
        ResolverChoice::Custom { host, v6, port } => {
            assert_eq!(host, "8.8.8.8");
            assert!(!v6);
            assert_eq!(port, 5353);
        },
        ResolverChoice::Default => panic!(),
    }
    assert_eq!(text, "8.8.8.8:5353");
    let (choice, text) = resolver_plan(Some("[::1]:53")).unwrap();
    match choice {
        ResolverChoice::Custom { host, v6, port } => {
            assert_eq!(host, "::1");
            assert!(v6);
            assert_eq!(port, 53);
        },
        ResolverChoice::Default => panic!(),
    }
    assert_eq!(text, "[::1]:53");
}

#[test]
fn public_ip_paths() {
    let services = public_ip_services();
    assert_eq!(services.len(), 2);
    assert_eq!(services[0].0, "https://api.ipify.org?format=json");
    assert_eq!(services[0].1, "ip");

    assert_eq!(extract_ip_field(r#"{"ip":"1.2.3.4"}"#, "ip"), Some(String::from("1.2.3.4")));
    assert_eq!(extract_ip_field(r#"{"ip":5}"#, "ip"), None);
    assert_eq!(extract_ip_field("not json", "ip"), None);
    assert_eq!(extract_ip_text("  1.2.3.4\n"), Some(String::from("1.2.3.4")));
    assert_eq!(extract_ip_text(" \n "), None);

    let ok = public_ip_result(Some(String::from("1.2.3.4")));
    assert_eq!(ok.is_error, Some(false));
    assert_eq!(ok.content[0].text.as_deref(), Some("公网IP: 1.2.3.4"));
    assert_eq!(structured(&ok)["public_ip"], "1.2.3.4");

    let bad = public_ip_result(None);
    assert_eq!(bad.is_error, Some(true));
    assert_eq!(structured(&bad)["status"], "network_error");
}

#[test]
fn error_result_shape() {
    let res = error_result("boom", ReadIpStatus::ResolveFailed);
    assert_eq!(res.is_error, Some(true));
    assert_eq!(res.content[0].text.as_deref(), Some("boom"));
    let sc = structured(&res);
    assert_eq!(sc["error"], "boom");
    assert_eq!(sc["status"], "resolve_failed");
}

// ---- the event stream

#[test]
fn sse_schedule_is_handshake_then_heartbeats() {
    let (kind, due, data) = sse_event_at(0);
    assert_eq!(kind, SseEventKind::Initialize);
    assert_eq!(due, 0);
    let handshake: serde_json::Value = serde_json::from_str(&data).unwrap();
    assert_eq!(handshake["result"]["protocolVersion"], "2025-06-18");

    let (kind, due, data) = sse_event_at(1);
    assert_eq!(kind, SseEventKind::Heartbeat);
    assert_eq!(due, 30_000);
    assert_eq!(data, "ping");

    let (kind, due, _) = sse_event_at(2);
    assert_eq!(kind, SseEventKind::Heartbeat);
    assert_eq!(due, 60_000);
}

#[test]
fn sse_accept_header_gate() {
    assert!(sse_accept_ok("*/*"));
    assert!(sse_accept_ok("text/event-stream"));
    assert!(sse_accept_ok("application/json, text/event-stream"));
    assert!(sse_accept_ok("application/json, */*"));
    assert!(!sse_accept_ok("application/json"));
    assert!(sse_accept_ok("text/html"));
}

// ---- the remaining tools

#[test]
fn system_report_shape() {
    let res = handle_get_system_type(SystemInfo {
        os: String::from("linux"),
        arch: String::from("x86_64"),
    });
    assert_eq!(res.is_error, Some(false));
    assert_eq!(
        res.content[0].text.as_deref(),
        Some("{\n  \"os\": \"linux\",\n  \"arch\": \"x86_64\"\n}")
    );
    let sc = structured(&res);
    assert_eq!(sc["os"], "linux");
    assert_eq!(sc["arch"], "x86_64");
}

#[test]
fn time_result_shape() {
    let res = time_result(String::from("2024-01-02 03:04:05"));
    assert_eq!(res.content[0].text.as_deref(), Some("2024-01-02 03:04:05"));
    let sc = structured(&res);
    assert_eq!(sc["timestamp"], "2024-01-02 03:04:05");
    assert_eq!(sc["format"], "YYYY-MM-DD HH:MM:SS");
}

#[test]
fn file_tool_paths() {
    match read_file_plan(parse_json(r#"{"file_path":"/tmp/x"}"#)) {
        ReadFilePlan::Read(p) => assert_eq!(p, "/tmp/x"),
        ReadFilePlan::Reply(_) => panic!(),
    }
    match read_file_plan(None) {
        ReadFilePlan::Reply(res) => assert_eq!(res.content[0].text.as_deref(), Some("缺少参数")),
        ReadFilePlan::Read(_) => panic!(),
    }
    let ok = read_file_result(String::from("/tmp/x"), Ok(String::from("hello")));
    assert_eq!(ok.is_error, Some(false));
    assert_eq!(ok.content[0].text.as_deref(), Some("hello"));
    let sc = structured(&ok);
    assert_eq!(sc["file_path"], "/tmp/x");
    assert_eq!(sc["contents"], "hello");
    let bad = read_file_result(String::from("/tmp/x"), Err(String::from("denied")));
    assert_eq!(bad.is_error, Some(true));
    assert_eq!(bad.content[0].text.as_deref(), Some("读取文件失败: denied"));
}

#[test]
fn list_files_shape() {
    match list_files_plan(parse_json(r#"{"dir_path":"/tmp"}"#)) {
        ListFilesPlan::List(p) => assert_eq!(p, "/tmp"),
        ListFilesPlan::Reply(_) => panic!(),
    }
    let res = list_files_result(vec![FileInfo {
        name: String::from("a.txt"),
        size: 10,
        modified: String::from("1700000000"),
        is_dir: false,
    }]);
    assert_eq!(res.is_error, Some(false));
    let text: serde_json::Value =
        serde_json::from_str(res.content[0].text.as_deref().unwrap()).unwrap();
    assert_eq!(text[0]["name"], "a.txt");
    assert_eq!(text[0]["size"], serde_json::Value::from(10u64));
    assert_eq!(text[0]["is_dir"], serde_json::Value::Bool(false));
    let sc = structured(&res);
    assert_eq!(sc["files"][0]["modified"], "1700000000");
}

#[test]
fn random_string_tool() {
    assert_eq!(default_length(), 16);
    assert!(!default_include_special());
    let d = RandomStringParams::default();
    assert_eq!(d.length, 16);
    assert!(!d.include_special);

    let s = generate_random_string(20, Some(false));
    assert_eq!(s.chars().count(), 20);
    assert!(s.chars().all(|c| c.is_ascii_alphanumeric()));
    // the length is clamped
    assert_eq!(generate_random_string(0, None).chars().count(), 1);
    assert_eq!(generate_random_string(10_000, None).chars().count(), 4096);

    let res = handle_random_string_tool(parse_json(r#"{"length":8}"#));
    assert_eq!(res.is_error, Some(false));
    assert_eq!(res.content[0].text.as_deref().unwrap().chars().count(), 8);
    let res = handle_random_string_tool(parse_json(r#"{"length":0}"#));
    assert_eq!(res.is_error, Some(true));
    assert_eq!(res.content[0].text.as_deref(), Some("字符串长度必须为1到4096!"));
    let res = handle_random_string_tool(None);
    assert_eq!(res.content[0].text.as_deref(), Some("缺少参数"));
}

#[test]
fn registry_names_route() {
    assert_eq!(tool_for_name("ping"), Some(ToolId::Ping));
    assert_eq!(tool_for_name("read ip"), Some(ToolId::ReadIp));
    assert_eq!(tool_for_name("cat file"), Some(ToolId::CatFile));
    assert_eq!(tool_for_name("list files"), Some(ToolId::ListFiles));
    assert_eq!(tool_for_name("get_system_type"), Some(ToolId::SystemType));
    assert_eq!(tool_for_name("get_current_time"), Some(ToolId::CurrentTime));
    assert_eq!(tool_for_name("nope"), None);
}

#[test]
fn current_time_text_matches_its_structured_timestamp() {
    let res = local_mcp_servers::time_tool::handle_get_current_time();
    assert_eq!(res.is_error, Some(false));
    let text = res.content[0].text.clone().unwrap();
    let sc = structured(&res);
    assert_eq!(sc["timestamp"], serde_json::Value::String(text.clone()));
    assert_eq!(sc["format"], "YYYY-MM-DD HH:MM:SS");
    // the reading looks like a date-time: digits and the fixed separators
    assert!(text.len() >= 19);
    assert_eq!(&text[4..5], "-");
    assert_eq!(&text[13..14], ":");
}

#[test]
fn resolution_failures_have_their_own_statuses() {
    let res = local_mcp_servers::read_ip::resolve_error_result("no answer");
    assert_eq!(res.is_error, Some(true));
    assert_eq!(res.content[0].text.as_deref(), Some("解析域名失败: no answer"));
    assert_eq!(structured(&res)["status"], "resolve_failed");

    let res = local_mcp_servers::read_ip::no_records_result();
    assert_eq!(res.content[0].text.as_deref(), Some("未获取到任何IP地址"));
    assert_eq!(structured(&res)["status"], "resolve_failed");
}

#[test]
fn codec_is_stable_on_reparse() {
    let text = r#"{"jsonrpc":"2.0","id":"x","method":"tools/call","params":{"name":"ping","arguments":{"target":"a.b"}}}"#;
    let v1 = parse_json(text).unwrap();
    let out1 = json_to_string(&v1);
    let v2 = parse_json(&out1).unwrap();
    assert_eq!(v1, v2);
    assert_eq!(json_to_string(&v2), out1);
}
