//! The ping probe's decision logic: reading a loosely-specified target
//! into `host:port`, and shaping the probe's outcome as a tool result.
//! The TCP connect itself is the runner's: it hands the outcome back as
//! a plain value.

use vstd::prelude::*;
use vstd::string::StringExecFns;
use crate::codec::{model_get, obj_of, put};
use crate::ip::{spec_is_ip, is_ipv4_chars, is_ipv6_chars, parse_u16, spec_parse_u16};
use crate::json::{JsonModel, JsonValue, jv_view};
use crate::json_parse::copy_range;
use crate::json_ser::{spec_dec_u64, u64_dec_string};
use crate::strutil::{all_space, is_blank, str_eq, str_to_chars};
use crate::tool_dto::{ToolCallResult, text_tool_result};

verus! {

/// The connect attempt's whole timeout budget, in milliseconds.
pub const PING_TIMEOUT_MS: u64 = 5000;

/// The status tags a ping can end with.
#[derive(Debug, Clone, Copy, PartialEq, Eq, Structural)]
pub enum PingStatus {
    Success,
    ConnectionFailed,
    Timeout,
    InvalidFormat,
    MissingArguments,
}

/// The wire text of a status tag.
pub open spec fn spec_status_text(st: PingStatus) -> Seq<char> {
    match st {
        PingStatus::Success => "success"@,
        PingStatus::ConnectionFailed => "connection_failed"@,
        PingStatus::Timeout => "timeout"@,
        PingStatus::InvalidFormat => "invalid_format"@,
        PingStatus::MissingArguments => "missing_arguments"@,
    }
}

/// Writes a status tag.
pub fn status_text(st: PingStatus) -> (r: String)
    ensures
        r@ == spec_status_text(st),
{
    match st {
        PingStatus::Success => String::from_str("success"),
        PingStatus::ConnectionFailed => String::from_str("connection_failed"),
        PingStatus::Timeout => String::from_str("timeout"),
        PingStatus::InvalidFormat => String::from_str("invalid_format"),
        PingStatus::MissingArguments => String::from_str("missing_arguments"),
    }
}

/// What URL reading yields on a target: its host, explicit port and
/// scheme, present exactly when the text is a URL with a host.
pub uninterp spec fn url_host_port_of(s: Seq<char>) -> Option<(Seq<char>, Option<u16>, Seq<char>)>;

/// Relies on `url::Url::parse`, `Url::host_str`, `Url::port` and
/// `Url::scheme`: the outcome depends on the text alone, and is present
/// exactly when the text parses as a URL whose host part exists.
#[verifier::external_body]
fn url_host_port(target: &str) -> (r: Option<(String, Option<u16>, String)>)
    ensures
        (match r {
            Some(p) => url_host_port_of(target@) == Some((p.0@, p.1, p.2@)),
            None => url_host_port_of(target@) is None,
        }),
{
    match url::Url::parse(target) {
        Ok(u) => match u.host_str() {
            Some(h) => {
                let port = u.port();
                let scheme = u.scheme().to_owned();
                Some((h.to_owned(), port, scheme))
            },
            None => None,
        },
        Err(_) => None,
    }
}

/// The first position at or after `i` holding `c`, or the length.
pub open spec fn find_char(s: Seq<char>, c: char, i: int) -> int
    decreases s.len() - i,
{
    if 0 <= i < s.len() {
        if s[i] == c {
            i
        } else {
            find_char(s, c, i + 1)
        }
    } else {
        s.len() as int
    }
}

/// Finds `c` at or after `i`.
pub fn find_char_exec(s: &Vec<char>, c: char, i: usize) -> (r: usize)
    requires
        i <= s@.len(),
    ensures
        r as int == find_char(s@, c, i as int),
        i <= r <= s@.len(),
{
    let mut j = i;
    while j < s.len() && s[j] != c
        invariant
            i <= j <= s@.len(),
            find_char(s@, c, i as int) == find_char(s@, c, j as int),
        decreases s@.len() - j,
    {
        j = j + 1;
    }
    j
}

/// What a target means: a URL's host with its explicit or
/// scheme-implied port; an explicit `host:port` whose port reads as a
/// 16-bit number; a bare IP literal or dotted name, defaulting to port
/// 80; a blank or unreadable target is an error.
pub open spec fn spec_parse_target(s: Seq<char>) -> Result<Seq<char>, Seq<char>> {
    if all_space(s) {
        Err("目标地址不能为空"@)
    } else {
        match url_host_port_of(s) {
            Some(hps) => {
                let port: u16 = (match hps.1 {
                    Some(p) => p,
                    None => if hps.2 == "https"@ {
                        443
                    } else {
                        80
                    },
                });
                Ok(hps.0 + seq![':'] + spec_dec_u64(port as nat))
            },
            None => {
                let k = find_char(s, ':', 0);
                if k < s.len() && find_char(s, ':', k + 1) == s.len() && spec_parse_u16(
                    s.subrange(k + 1, s.len() as int),
                ) is Some {
                    Ok(s)
                } else if spec_is_ip(s) {
                    Ok(s + ":80"@)
                } else if find_char(s, ':', 0) == s.len() && find_char(s, '.', 0) < s.len() {
                    Ok(s + ":80"@)
                } else {
                    Err("无效的目标地址格式"@)
                }
            },
        }
    }
}

/// Reads a target as `host:port`.
pub fn parse_target(target: &str) -> (r: Result<String, String>)
    ensures
        (match r {
            Ok(t) => spec_parse_target(target@) == Ok::<Seq<char>, Seq<char>>(t@),
            Err(e) => spec_parse_target(target@) == Err::<Seq<char>, Seq<char>>(e@),
        }),
{
    proof {
        reveal_strlit(":");
        assert(":"@ =~= seq![':']);
    }
    if is_blank(target) {
        return Err(String::from_str("目标地址不能为空"));
    }
    match url_host_port(target) {
        Some((host, portopt, scheme)) => {
            let port: u16 = match portopt {
                Some(p) => p,
                None => if str_eq(scheme.as_str(), "https") {
                    443
                } else {
                    80
                },
            };
            let out = host.concat(":").concat(u64_dec_string(port as u64).as_str());
            Ok(out)
        },
        None => {
            let cs = str_to_chars(target);
            let k = find_char_exec(&cs, ':', 0);
            if k < cs.len() {
                let k2 = find_char_exec(&cs, ':', k + 1);
                if k2 == cs.len() {
                    let port_part = copy_range(&cs, k + 1, cs.len());
                    if parse_u16(&port_part).is_some() {
                        return Ok(String::from_str(target));
                    }
                }
            }
            let v4 = is_ipv4_chars(&cs);
            let v6 = is_ipv6_chars(&cs);
            if v4 || v6 {
                return Ok(String::from_str(target).concat(":80"));
            }
            if k == cs.len() {
                let d = find_char_exec(&cs, '.', 0);
                if d < cs.len() {
                    return Ok(String::from_str(target).concat(":80"));
                }
            }
            Err(String::from_str("无效的目标地址格式"))
        },
    }
}

// ------------------------------------------------------------------
// shaping outcomes

/// What the runner's connect attempt came to.
#[derive(Debug, Clone, Copy, PartialEq, Eq, Structural)]
pub enum PingOutcome {
    /// Connected, with the measured latency in milliseconds.
    Connected(u64),
    /// Refused or failed before the timeout, after this many
    /// milliseconds.
    Failed(u64),
    /// No outcome within the timeout budget.
    TimedOut,
}

/// The structured payload of a finished probe.
pub open spec fn spec_ping_json(
    target: Seq<char>,
    latency: u64,
    st: PingStatus,
    connected: bool,
    timeout: bool,
) -> JsonModel {
    JsonModel::Obj(
        seq![
            ("target"@, JsonModel::Str(target)),
            ("latency_ms"@, JsonModel::UInt(latency)),
            ("status"@, JsonModel::Str(spec_status_text(st))),
            ("connected"@, JsonModel::Bool(connected)),
            ("timeout"@, JsonModel::Bool(timeout)),
        ],
    )
}

/// The structured payload of a probe that never ran.
pub open spec fn spec_ping_error_json(
    error: Seq<char>,
    target: Option<Seq<char>>,
    st: PingStatus,
) -> JsonModel {
    JsonModel::Obj(
        seq![("error"@, JsonModel::Str(error))] + (match target {
            Some(t) => seq![("target"@, JsonModel::Str(t))],
            None => Seq::empty(),
        }) + seq![("status"@, JsonModel::Str(spec_status_text(st)))],
    )
}

/// Builds the structured payload of a finished probe.
fn ping_json(target: String, latency: u64, st: PingStatus, connected: bool, timeout: bool) -> (r:
    JsonValue)
    ensures
        jv_view(r) == spec_ping_json(target@, latency, st, connected, timeout),
{
    let ghost t0 = target@;
    let mut entries: Vec<(String, JsonValue)> = Vec::new();
    put(&mut entries, "target", JsonValue::Str(target));
    put(&mut entries, "latency_ms", JsonValue::UInt(latency));
    put(&mut entries, "status", JsonValue::Str(status_text(st)));
    put(&mut entries, "connected", JsonValue::Bool(connected));
    put(&mut entries, "timeout", JsonValue::Bool(timeout));
    let r = obj_of(entries);
    proof {
        assert(jv_view(r) matches JsonModel::Obj(a) && spec_ping_json(
            t0,
            latency,
            st,
            connected,
            timeout,
        ) matches JsonModel::Obj(b) && a =~= b);
    }
    r
}

/// Builds the structured payload of a probe that never ran.
fn ping_error_json(error: String, target: Option<String>, st: PingStatus) -> (r: JsonValue)
    ensures
        jv_view(r) == spec_ping_error_json(error@, (match target {
            Some(t) => Some(t@),
            None => None,
        }), st),
{
    let ghost e0 = error@;
    let ghost tg0: Option<Seq<char>> = (match &target {
        Some(t) => Some(t@),
        None => None,
    });
    let mut entries: Vec<(String, JsonValue)> = Vec::new();
    put(&mut entries, "error", JsonValue::Str(error));
    match target {
        Some(t) => {
            put(&mut entries, "target", JsonValue::Str(t));
        },
        None => {},
    }
    put(&mut entries, "status", JsonValue::Str(status_text(st)));
    let r = obj_of(entries);
    proof {
        assert(jv_view(r) matches JsonModel::Obj(a) && spec_ping_error_json(e0, tg0, st)
            matches JsonModel::Obj(b) && a =~= b);
    }
    r
}

/// Shapes the outcome of a probe against `target` as a tool result:
/// only a connection sets no error flag; a timeout reports the whole
/// budget as its latency figure.
pub fn ping_result(target: String, outcome: PingOutcome) -> (r: ToolCallResult)
    ensures
        r.content@.len() == 1,
        r.content@[0].content_type@ == "text"@,
        (match outcome {
            PingOutcome::Connected(ms) => {
                &&& r.is_error == Some(false)
                &&& r.content@[0].text matches Some(t) && t@ == "连接成功 - 目标: "@ + target@
                    + " 延迟: "@ + spec_dec_u64(ms as nat) + "ms"@
                &&& r.structured_content matches Some(sc) && jv_view(sc) == spec_ping_json(
                    target@,
                    ms,
                    PingStatus::Success,
                    true,
                    false,
                )
            },
            PingOutcome::Failed(ms) => {
                &&& r.is_error == Some(true)
                &&& r.content@[0].text matches Some(t) && t@ == "连接失败 - 目标: "@ + target@
                    + " 尝试时间: "@ + spec_dec_u64(ms as nat) + "ms"@
                &&& r.structured_content matches Some(sc) && jv_view(sc) == spec_ping_json(
                    target@,
                    ms,
                    PingStatus::ConnectionFailed,
                    false,
                    false,
                )
            },
            PingOutcome::TimedOut => {
                &&& r.is_error == Some(true)
                &&& r.content@[0].text matches Some(t) && t@ == "连接超时 - 目标: "@ + target@
                    + " 超时时间: "@ + spec_dec_u64(PING_TIMEOUT_MS as nat) + "ms"@
                &&& r.structured_content matches Some(sc) && jv_view(sc) == spec_ping_json(
                    target@,
                    PING_TIMEOUT_MS,
                    PingStatus::Timeout,
                    false,
                    true,
                )
            },
        }),
{
    match outcome {
        PingOutcome::Connected(ms) => {
            let text = String::from_str("连接成功 - 目标: ").concat(target.as_str()).concat(
                " 延迟: ",
            ).concat(u64_dec_string(ms).as_str()).concat("ms");
            let sc = ping_json(target, ms, PingStatus::Success, true, false);
            text_tool_result(text, false, Some(sc))
        },
        PingOutcome::Failed(ms) => {
            let text = String::from_str("连接失败 - 目标: ").concat(target.as_str()).concat(
                " 尝试时间: ",
            ).concat(u64_dec_string(ms).as_str()).concat("ms");
            let sc = ping_json(target, ms, PingStatus::ConnectionFailed, false, false);
            text_tool_result(text, true, Some(sc))
        },
        PingOutcome::TimedOut => {
            let text = String::from_str("连接超时 - 目标: ").concat(target.as_str()).concat(
                " 超时时间: ",
            ).concat(u64_dec_string(PING_TIMEOUT_MS).as_str()).concat("ms");
            let sc = ping_json(target, PING_TIMEOUT_MS, PingStatus::Timeout, false, true);
            text_tool_result(text, true, Some(sc))
        },
    }
}

// ------------------------------------------------------------------
// reading the arguments

/// The target named by the arguments, when they are an object with a
/// string `target` field.
pub open spec fn spec_ping_args(m: JsonModel) -> Option<Seq<char>> {
    match model_get(m, "target"@) {
        Some(JsonModel::Str(s)) => Some(s),
        _ => None,
    }
}

/// A result of the missing-arguments shape.
pub open spec fn is_missing_args_result(r: ToolCallResult) -> bool {
    &&& r.content.len() == 1
    &&& r.content[0].content_type@ == "text"@
    &&& r.content[0].text matches Some(t) && t@ == "缺少参数"@
    &&& r.is_error == Some(true)
    &&& r.structured_content matches Some(sc) && jv_view(sc) == spec_ping_error_json(
        "缺少参数"@,
        None,
        PingStatus::MissingArguments,
    )
}

/// A result of the malformed-arguments shape.
pub open spec fn is_invalid_args_result(r: ToolCallResult) -> bool {
    &&& r.content.len() == 1
    &&& r.content[0].content_type@ == "text"@
    &&& r.content[0].text matches Some(t) && t@ == "参数格式错误，需要包含 target 字段"@
    &&& r.is_error == Some(true)
    &&& r.structured_content matches Some(sc) && jv_view(sc) == spec_ping_error_json(
        "参数格式错误，需要包含 target 字段"@,
        None,
        PingStatus::InvalidFormat,
    )
}

/// A result of the unreadable-target shape.
pub open spec fn is_bad_target_result(r: ToolCallResult, target: Seq<char>, msg: Seq<char>) -> bool {
    &&& r.content.len() == 1
    &&& r.content[0].content_type@ == "text"@
    &&& r.content[0].text matches Some(t) && t@ == msg
    &&& r.is_error == Some(true)
    &&& r.structured_content matches Some(sc) && jv_view(sc) == spec_ping_error_json(
        msg,
        Some(target),
        PingStatus::InvalidFormat,
    )
}

/// What the ping tool decides before any network work.
#[derive(Debug)]
pub enum PingPlan {
    /// A finished result: the arguments or the target were unusable.
    Reply(ToolCallResult),
    /// Probe this `host:port`.
    Probe(String),
}

/// Reads the ping tool's arguments and decides: no arguments and
/// malformed arguments are answered at once; a readable target becomes
/// a probe for the runner.
pub fn ping_plan(args: Option<JsonValue>) -> (r: PingPlan)
    ensures
        (match args {
            None => r matches PingPlan::Reply(res) && is_missing_args_result(res),
            Some(v) => (match spec_ping_args(jv_view(v)) {
                None => r matches PingPlan::Reply(res) && is_invalid_args_result(res),
                Some(t) => (match spec_parse_target(t) {
                    Ok(pt) => r matches PingPlan::Probe(s) && s@ == pt,
                    Err(m) => r matches PingPlan::Reply(res) && is_bad_target_result(res, t, m),
                }),
            }),
        }),
{
    let v = match args {
        Some(v) => v,
        None => {
            let msg = String::from_str("缺少参数");
            let sc = ping_error_json(msg.clone(), None, PingStatus::MissingArguments);
            return PingPlan::Reply(text_tool_result(msg, true, Some(sc)));
        },
    };
    proof {
        crate::codec::lemma_get_view(v, "target"@);
    }
    let target = match crate::codec::take_one_field(v, "target") {
        Some(JsonValue::Str(s)) => s,
        _ => {
            let msg = String::from_str("参数格式错误，需要包含 target 字段");
            let sc = ping_error_json(msg.clone(), None, PingStatus::InvalidFormat);
            return PingPlan::Reply(text_tool_result(msg, true, Some(sc)));
        },
    };
    match parse_target(target.as_str()) {
        Ok(pt) => PingPlan::Probe(pt),
        Err(msg) => {
            let sc = ping_error_json(msg.clone(), Some(target), PingStatus::InvalidFormat);
            PingPlan::Reply(text_tool_result(msg, true, Some(sc)))
        },
    }
}

} // verus!
