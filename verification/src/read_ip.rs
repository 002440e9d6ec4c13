//! The resolve-and-rank tool's decision logic: reading its arguments,
//! choosing the resolver, ranking the probed addresses, and shaping the
//! results.  The DNS queries, the HTTP address-echo calls and the
//! latency probes are the runner's; they come back as plain records.

use vstd::prelude::*;
use vstd::string::StringExecFns;
use crate::codec::{model_get, obj_of, put};
use crate::ip::{is_ipv4_chars, is_ipv6_chars, parse_u16, spec_is_ipv4, spec_is_ipv6, spec_parse_u16};
use crate::json::{JsonModel, JsonValue, jv_view, models_of};
use crate::json_parse::{copy_range, spec_parse_text};
use crate::json_ser::{spec_dec_u64, u64_dec_string};
use crate::ping::{find_char, find_char_exec};
use crate::strutil::{spec_trim, str_to_chars, trim_chars};
use crate::tool_dto::{ToolCallResult, text_tool_result};

verus! {

/// Each probe's timeout budget, in milliseconds.
pub const PROBE_TIMEOUT_MS: u64 = 2000;

/// One resolved address with its measured latency.
#[derive(Debug, PartialEq)]
pub struct IpLatency {
    pub ip: String,
    pub version: String,
    pub latency_ms: Option<u64>,
    pub reachable: bool,
}

impl IpLatency {
    /// A copy of the record.
    pub fn duplicate(&self) -> (r: IpLatency)
        ensures
            r == *self,
    {
        IpLatency {
            ip: self.ip.clone(),
            version: self.version.clone(),
            latency_ms: self.latency_ms,
            reachable: self.reachable,
        }
    }
}

/// Shapes one probe outcome: reachable exactly when a latency was
/// measured, the family tag v4 or v6.
pub fn latency_record(ip: String, is_v4: bool, latency: Option<u64>) -> (r: IpLatency)
    ensures
        r.ip == ip,
        r.version@ == (if is_v4 {
            "v4"@
        } else {
            "v6"@
        }),
        r.latency_ms == latency,
        r.reachable == (latency is Some),
{
    IpLatency {
        ip,
        version: if is_v4 {
            String::from_str("v4")
        } else {
            String::from_str("v6")
        },
        latency_ms: latency,
        reachable: match latency {
            Some(_) => true,
            None => false,
        },
    }
}

/// The status tags this tool can end with.
#[derive(Debug, Clone, Copy, PartialEq, Eq, Structural)]
pub enum ReadIpStatus {
    Success,
    InvalidArguments,
    ResolveFailed,
    NetworkError,
}

/// The wire text of a status tag.
pub open spec fn spec_rip_status_text(st: ReadIpStatus) -> Seq<char> {
    match st {
        ReadIpStatus::Success => "success"@,
        ReadIpStatus::InvalidArguments => "invalid_arguments"@,
        ReadIpStatus::ResolveFailed => "resolve_failed"@,
        ReadIpStatus::NetworkError => "network_error"@,
    }
}

/// Writes a status tag.
pub fn rip_status_text(st: ReadIpStatus) -> (r: String)
    ensures
        r@ == spec_rip_status_text(st),
{
    match st {
        ReadIpStatus::Success => String::from_str("success"),
        ReadIpStatus::InvalidArguments => String::from_str("invalid_arguments"),
        ReadIpStatus::ResolveFailed => String::from_str("resolve_failed"),
        ReadIpStatus::NetworkError => String::from_str("network_error"),
    }
}

/// The structured payload of a failed call.
pub open spec fn spec_rip_error_json(message: Seq<char>, st: ReadIpStatus) -> JsonModel {
    JsonModel::Obj(
        seq![
            ("error"@, JsonModel::Str(message)),
            ("status"@, JsonModel::Str(spec_rip_status_text(st))),
        ],
    )
}

/// A failed call: the message as text, the message and status tag in
/// the structured payload, the error flag set.
pub fn error_result(message: &str, status: ReadIpStatus) -> (r: ToolCallResult)
    ensures
        r.content@.len() == 1,
        r.content@[0].content_type@ == "text"@,
        r.content@[0].text matches Some(t) && t@ == message@,
        r.is_error == Some(true),
        r.structured_content matches Some(sc) && jv_view(sc) == spec_rip_error_json(
            message@,
            status,
        ),
{
    let mut entries: Vec<(String, JsonValue)> = Vec::new();
    put(&mut entries, "error", crate::codec::jstr(message));
    put(&mut entries, "status", JsonValue::Str(rip_status_text(status)));
    let sc = obj_of(entries);
    proof {
        assert(jv_view(sc) matches JsonModel::Obj(a) && spec_rip_error_json(message@, status)
            matches JsonModel::Obj(b) && a =~= b);
    }
    text_tool_result(String::from_str(message), true, Some(sc))
}

// ------------------------------------------------------------------
// ranking

/// A record counts for ranking when it was reachable with a measured
/// latency.
pub open spec fn keepable(r: IpLatency) -> bool {
    r.reachable && r.latency_ms is Some
}

/// The ranking key.
pub open spec fn lat_key(r: IpLatency) -> u64 {
    match r.latency_ms {
        Some(m) => m,
        None => 0,
    }
}

/// The records that count for ranking, in their original order.
pub open spec fn spec_keep(s: Seq<IpLatency>) -> Seq<IpLatency>
    decreases s.len(),
{
    if s.len() == 0 {
        Seq::empty()
    } else if keepable(s.last()) {
        spec_keep(s.drop_last()).push(s.last())
    } else {
        spec_keep(s.drop_last())
    }
}

/// Inserts one record behind every record that is not slower: a stable
/// insertion.
pub open spec fn insert_lat(s: Seq<IpLatency>, x: IpLatency) -> Seq<IpLatency>
    decreases s.len(),
{
    if s.len() == 0 {
        seq![x]
    } else if lat_key(s.last()) <= lat_key(x) {
        s.push(x)
    } else {
        insert_lat(s.drop_last(), x).push(s.last())
    }
}

/// Sorts by latency, stably, ascending.
pub open spec fn sort_by_latency(s: Seq<IpLatency>) -> Seq<IpLatency>
    decreases s.len(),
{
    if s.len() == 0 {
        Seq::empty()
    } else {
        insert_lat(sort_by_latency(s.drop_last()), s.last())
    }
}

/// Non-decreasing by latency.
pub open spec fn sorted_by_latency(s: Seq<IpLatency>) -> bool {
    forall|i: int, j: int| 0 <= i < j < s.len() ==> lat_key(#[trigger] s[i]) <= lat_key(
        #[trigger] s[j],
    )
}

/// The ranked best: reachable records with a latency, sorted ascending,
/// the first three kept.
pub open spec fn spec_top_ips(records: Seq<IpLatency>) -> Seq<IpLatency> {
    let sorted = sort_by_latency(spec_keep(records));
    if sorted.len() <= 3 {
        sorted
    } else {
        sorted.subrange(0, 3)
    }
}

proof fn lemma_insert_lat_props(s: Seq<IpLatency>, x: IpLatency)
    requires
        sorted_by_latency(s),
    ensures
        sorted_by_latency(insert_lat(s, x)),
        insert_lat(s, x).len() == s.len() + 1,
        insert_lat(s, x).to_multiset() == s.push(x).to_multiset(),
        forall|k: int|
            0 <= k < insert_lat(s, x).len() ==> (#[trigger] insert_lat(s, x)[k] == x || s.contains(
                insert_lat(s, x)[k],
            )),
    decreases s.len(),
{
    s.push(x).to_multiset_ensures();
    if s.len() == 0 {
        assert(insert_lat(s, x) =~= s.push(x));
    } else if lat_key(s.last()) <= lat_key(x) {
        assert forall|k: int| 0 <= k < s.push(x).len() implies lat_key(#[trigger] s.push(x)[k])
            <= lat_key(x) by {
            if k < s.len() {
                assert(s.push(x)[k] == s[k]);
                if k < s.len() - 1 {
                    assert(lat_key(s[k]) <= lat_key(s[s.len() - 1]));
                }
            }
        }
        assert(forall|k: int| 0 <= k < s.len() ==> s.contains(#[trigger] s[k]));
        assert(forall|k: int| 0 <= k < s.push(x).len() ==> (#[trigger] s.push(x)[k] == x
            || s.contains(s.push(x)[k])));
    } else {
        let pre = s.drop_last();
        assert(sorted_by_latency(pre)) by {
            assert(forall|i: int, j: int|
                0 <= i < j < pre.len() ==> lat_key(#[trigger] pre[i]) <= lat_key(
                    #[trigger] pre[j],
                )) by {
                assert(forall|i: int| 0 <= i < pre.len() ==> pre[i] == s[i]);
            }
        }
        lemma_insert_lat_props(pre, x);
        let inner = insert_lat(pre, x);
        let whole = insert_lat(s, x);
        assert(whole == inner.push(s.last()));
        assert forall|i: int, j: int| 0 <= i < j < whole.len() implies lat_key(#[trigger] whole[i])
            <= lat_key(#[trigger] whole[j]) by {
            if j < inner.len() {
                assert(whole[i] == inner[i] && whole[j] == inner[j]);
            } else {
                assert(whole[j] == s.last());
                assert(whole[i] == inner[i]);
                if inner[i] == x {
                    assert(lat_key(x) <= lat_key(s.last()));
                } else {
                    assert(pre.contains(inner[i]));
                    let w = choose|w: int| 0 <= w < pre.len() && pre[w] == inner[i];
                    assert(lat_key(s[w]) <= lat_key(s.last()));
                }
            }
        }
        assert(whole.to_multiset() =~= s.push(x).to_multiset()) by {
            inner.to_multiset_ensures();
            pre.to_multiset_ensures();
            s.to_multiset_ensures();
            assert(pre.push(s.last()) =~= s);
            assert(whole.to_multiset() == inner.to_multiset().insert(s.last()));
            assert(inner.to_multiset() == pre.to_multiset().insert(x));
            assert(s.to_multiset() == pre.to_multiset().insert(s.last()));
            assert(s.push(x).to_multiset() == s.to_multiset().insert(x));
            assert(pre.to_multiset().insert(x).insert(s.last()) =~= pre.to_multiset().insert(
                s.last(),
            ).insert(x));
        }
        assert forall|k: int| 0 <= k < whole.len() implies (#[trigger] whole[k] == x || s.contains(
            whole[k],
        )) by {
            if k < inner.len() {
                assert(whole[k] == inner[k]);
                if inner[k] != x {
                    assert(pre.contains(inner[k]));
                    let w = choose|w: int| 0 <= w < pre.len() && pre[w] == inner[k];
                    assert(s[w] == inner[k]);
                }
            } else {
                assert(whole[k] == s.last());
            }
        }
    }
}

/// Every ranked set is at most three long, sorted ascending by latency,
/// and drawn from the reachable records with a measured latency.
pub proof fn lemma_top_ips_sorted(records: Seq<IpLatency>)
    ensures
        spec_top_ips(records).len() <= 3,
        sorted_by_latency(spec_top_ips(records)),
        forall|k: int|
            0 <= k < spec_top_ips(records).len() ==> keepable(#[trigger] spec_top_ips(records)[k]),
    decreases records.len(),
{
    lemma_sort_props(spec_keep(records));
    lemma_keep_keepable(records);
    let sorted = sort_by_latency(spec_keep(records));
    let top = spec_top_ips(records);
    assert forall|k: int| 0 <= k < top.len() implies keepable(#[trigger] top[k]) by {
        assert(top[k] == sorted[k]);
        assert(sorted.contains(sorted[k]) || true);
        lemma_sort_membership(spec_keep(records), k);
    }
}

/// A sorted run of kept records stays sorted and keeps exactly the kept
/// records.
proof fn lemma_sort_props(s: Seq<IpLatency>)
    ensures
        sorted_by_latency(sort_by_latency(s)),
        sort_by_latency(s).len() == s.len(),
    decreases s.len(),
{
    if s.len() > 0 {
        lemma_sort_props(s.drop_last());
        lemma_insert_lat_props(sort_by_latency(s.drop_last()), s.last());
    }
}

/// Every sorted element comes from the unsorted run.
proof fn lemma_sort_membership(s: Seq<IpLatency>, k: int)
    requires
        0 <= k < sort_by_latency(s).len(),
    ensures
        s.contains(sort_by_latency(s)[k]),
    decreases s.len(),
{
    lemma_sort_props(s);
    if s.len() > 0 {
        let pre = sort_by_latency(s.drop_last());
        lemma_sort_props(s.drop_last());
        lemma_insert_lat_props(pre, s.last());
        let x = sort_by_latency(s)[k];
        if x == s.last() {
            assert(s[s.len() - 1] == x);
        } else {
            assert(pre.contains(x));
            let w = choose|w: int| 0 <= w < pre.len() && pre[w] == x;
            lemma_sort_membership(s.drop_last(), w);
            let u = choose|u: int| 0 <= u < s.drop_last().len() && s.drop_last()[u] == x;
            assert(s[u] == x);
        }
    }
}

/// Every kept record counts for ranking.
proof fn lemma_keep_keepable(s: Seq<IpLatency>)
    ensures
        forall|k: int| 0 <= k < spec_keep(s).len() ==> keepable(#[trigger] spec_keep(s)[k]),
        spec_keep(s).len() <= s.len(),
        (forall|k: int| 0 <= k < s.len() ==> !keepable(#[trigger] s[k])) ==> spec_keep(s).len()
            == 0,
    decreases s.len(),
{
    if s.len() > 0 {
        lemma_keep_keepable(s.drop_last());
        assert(forall|k: int| 0 <= k < s.drop_last().len() ==> s.drop_last()[k] == s[k]);
    }
}

/// Ranks the records: the reachable ones with a latency, sorted
/// ascending, at most the first three.
pub fn rank_records(records: &Vec<IpLatency>) -> (top: Vec<IpLatency>)
    ensures
        top@ == spec_top_ips(records@),
        top@.len() <= 3,
        sorted_by_latency(top@),
{
    let ghost rs = records@;
    let mut kept: Vec<IpLatency> = Vec::new();
    let mut i: usize = 0;
    proof {
        assert(rs.subrange(0, 0) =~= Seq::<IpLatency>::empty());
    }
    while i < records.len()
        invariant
            i <= rs.len(),
            records@ == rs,
            kept@ == spec_keep(rs.subrange(0, i as int)),
        decreases rs.len() - i,
    {
        proof {
            assert(rs.subrange(0, i as int + 1).drop_last() =~= rs.subrange(0, i as int));
            assert(rs.subrange(0, i as int + 1).last() == rs[i as int]);
        }
        let keep = records[i].reachable && records[i].latency_ms.is_some();
        if keep {
            kept.push(records[i].duplicate());
        }
        i = i + 1;
    }
    proof {
        assert(rs.subrange(0, rs.len() as int) =~= rs);
    }
    let ghost kept0 = kept@;
    let mut sorted: Vec<IpLatency> = Vec::new();
    let mut k: usize = 0;
    let n = kept.len();
    proof {
        assert(kept0.subrange(0, 0) =~= Seq::<IpLatency>::empty());
    }
    while k < n
        invariant
            k <= n,
            n == kept0.len(),
            kept@ == kept0,
            sorted@ == sort_by_latency(kept0.subrange(0, k as int)),
            sorted_by_latency(sorted@),
        decreases n - k,
    {
        proof {
            assert(kept0.subrange(0, k as int + 1).drop_last() =~= kept0.subrange(0, k as int));
            assert(kept0.subrange(0, k as int + 1).last() == kept0[k as int]);
        }
        let x = kept[k].duplicate();
        let mut p = sorted.len();
        while p > 0 && lat_key_exec(&sorted[p - 1]) > lat_key_exec(&x)
            invariant
                p <= sorted@.len(),
                forall|t: int| p <= t < sorted@.len() ==> lat_key(#[trigger] sorted@[t]) > lat_key(
                    x,
                ),
            decreases p,
        {
            p = p - 1;
        }
        proof {
            lemma_insert_lat_at(sorted@, x, p as int);
        }
        sorted.insert(p, x);
        proof {
            assert(sorted@ =~= sort_by_latency(kept0.subrange(0, k as int + 1)));
            lemma_sort_props(kept0.subrange(0, k as int + 1));
        }
        k = k + 1;
    }
    proof {
        assert(kept0.subrange(0, kept0.len() as int) =~= kept0);
    }
    sorted.truncate(3);
    proof {
        lemma_sort_props(kept0);
        assert(sorted@ == spec_top_ips(rs));
        lemma_top_ips_sorted(rs);
    }
    sorted
}

/// The ranking key, read off a record.
fn lat_key_exec(r: &IpLatency) -> (k: u64)
    ensures
        k == lat_key(*r),
{
    match r.latency_ms {
        Some(m) => m,
        None => 0,
    }
}

/// A stable insertion lands exactly at the first position, from the
/// end, whose earlier records are not slower.
proof fn lemma_insert_lat_at(s: Seq<IpLatency>, x: IpLatency, p: int)
    requires
        sorted_by_latency(s),
        0 <= p <= s.len(),
        forall|t: int| p <= t < s.len() ==> lat_key(#[trigger] s[t]) > lat_key(x),
        p > 0 ==> lat_key(s[p - 1]) <= lat_key(x),
    ensures
        insert_lat(s, x) == s.subrange(0, p) + seq![x] + s.subrange(p, s.len() as int),
    decreases s.len(),
{
    if s.len() == 0 {
        assert(insert_lat(s, x) =~= s.subrange(0, 0) + seq![x] + s.subrange(0, 0));
    } else if lat_key(s.last()) <= lat_key(x) {
        assert(p == s.len());
        assert(insert_lat(s, x) =~= s.subrange(0, p) + seq![x] + s.subrange(p, s.len() as int));
    } else {
        let pre = s.drop_last();
        assert(p < s.len());
        assert(sorted_by_latency(pre)) by {
            assert(forall|t: int| 0 <= t < pre.len() ==> pre[t] == s[t]);
        }
        assert(forall|t: int| p <= t < pre.len() ==> lat_key(#[trigger] pre[t]) > lat_key(x)) by {
            assert(forall|t: int| 0 <= t < pre.len() ==> pre[t] == s[t]);
        }
        assert(p > 0 ==> lat_key(pre[p - 1]) <= lat_key(x));
        lemma_insert_lat_at(pre, x, p);
        assert(insert_lat(s, x) == insert_lat(pre, x).push(s.last()));
        assert((pre.subrange(0, p) + seq![x] + pre.subrange(p, pre.len() as int)).push(s.last())
            =~= s.subrange(0, p) + seq![x] + s.subrange(p, s.len() as int));
    }
}


// ------------------------------------------------------------------
// the resolver choice

/// What a custom DNS argument means: a bare version-4 or version-6
/// address implying port 53, or an explicit `address:port` /
/// `[address]:port`.
pub open spec fn spec_parse_dns(s: Seq<char>) -> Option<(Seq<char>, bool, u16)> {
    let k = find_char(s, ':', 0);
    if k < s.len() && find_char(s, ':', k + 1) == s.len() && spec_is_ipv4(s.subrange(0, k))
        && spec_parse_u16(s.subrange(k + 1, s.len() as int)) is Some {
        Some(
            (
                s.subrange(0, k),
                false,
                (match spec_parse_u16(s.subrange(k + 1, s.len() as int)) {
                    Some(p) => p,
                    None => 0,
                }),
            ),
        )
    } else if s.len() > 0 && s[0] == '[' && {
        let j = find_char(s, ']', 0);
        1 <= j && j < s.len() && spec_is_ipv6(s.subrange(1, j)) && j + 1 < s.len() && s[j + 1]
            == ':' && spec_parse_u16(s.subrange(j + 2, s.len() as int)) is Some
    } {
        let j = find_char(s, ']', 0);
        Some(
            (
                s.subrange(1, j),
                true,
                (match spec_parse_u16(s.subrange(j + 2, s.len() as int)) {
                    Some(p) => p,
                    None => 0,
                }),
            ),
        )
    } else if spec_is_ipv4(s) {
        Some((s, false, 53))
    } else if spec_is_ipv6(s) {
        Some((s, true, 53))
    } else {
        None
    }
}

/// The written form of a resolver address: `address:port`, the address
/// bracketed for version 6.
pub open spec fn spec_dns_text(host: Seq<char>, v6: bool, port: u16) -> Seq<char> {
    if v6 {
        "["@ + host + "]:"@ + spec_dec_u64(port as nat)
    } else {
        host + seq![':'] + spec_dec_u64(port as nat)
    }
}

/// Reads a custom DNS argument.
pub fn parse_dns(dns: &str) -> (r: Option<(String, bool, u16)>)
    ensures
        (match r {
            Some(p) => spec_parse_dns(dns@) == Some((p.0@, p.1, p.2)),
            None => spec_parse_dns(dns@) is None,
        }),
{
    let cs = str_to_chars(dns);
    let k = find_char_exec(&cs, ':', 0);
    if k < cs.len() {
        let k2 = find_char_exec(&cs, ':', k + 1);
        if k2 == cs.len() {
            let host_part = copy_range(&cs, 0, k);
            let port_part = copy_range(&cs, k + 1, cs.len());
            if is_ipv4_chars(&host_part) {
                match parse_u16(&port_part) {
                    Some(p) => {
                        return Some((crate::strutil::chars_to_string(&host_part), false, p));
                    },
                    None => {},
                }
            }
        }
    }
    if cs.len() > 0 && cs[0] == '[' {
        let j = find_char_exec(&cs, ']', 0);
        if 1 <= j && j < cs.len() {
            let inner = copy_range(&cs, 1, j);
            if is_ipv6_chars(&inner) && j + 1 < cs.len() && cs[j + 1] == ':' {
                let port_part = copy_range(&cs, j + 2, cs.len());
                match parse_u16(&port_part) {
                    Some(p) => {
                        return Some((crate::strutil::chars_to_string(&inner), true, p));
                    },
                    None => {},
                }
            }
        }
    }
    if is_ipv4_chars(&cs) {
        return Some((String::from_str(dns), false, 53));
    }
    if is_ipv6_chars(&cs) {
        return Some((String::from_str(dns), true, 53));
    }
    None
}

/// Which resolver to use: a custom server, or the fixed pair of public
/// recursive resolvers.
#[derive(Debug)]
pub enum ResolverChoice {
    Custom { host: String, v6: bool, port: u16 },
    Default,
}

/// The fixed resolver pair's identity text.
pub open spec fn spec_default_dns_text() -> Seq<char> {
    "1.1.1.1,8.8.8.8"@
}

/// Chooses the resolver for an optional DNS argument: the fixed public
/// pair without one; an unreadable one fails as invalid arguments.
pub fn resolver_plan(dns: Option<&str>) -> (r: Result<(ResolverChoice, String), ToolCallResult>)
    ensures
        (match dns {
            None => r matches Ok(p) && p.0 is Default && p.1@ == spec_default_dns_text(),
            Some(d) => (match spec_parse_dns(d@) {
                Some(t) => r matches Ok(p) && (p.0 matches ResolverChoice::Custom {
                    host,
                    v6,
                    port,
                } && host@ == t.0 && v6 == t.1 && port == t.2) && p.1@ == spec_dns_text(
                    t.0,
                    t.1,
                    t.2,
                ),
                None => r matches Err(res) && res.is_error == Some(true) && res.content.len() == 1
                    && (res.content[0].text matches Some(t) && t@ == "无效的DNS地址"@) && (
                res.structured_content matches Some(sc) && jv_view(sc) == spec_rip_error_json(
                    "无效的DNS地址"@,
                    ReadIpStatus::InvalidArguments,
                )),
            }),
        }),
{
    let d = match dns {
        Some(d) => d,
        None => {
            return Ok((ResolverChoice::Default, String::from_str("1.1.1.1,8.8.8.8")));
        },
    };
    match parse_dns(d) {
        Some((host, v6, port)) => {
            let text = if v6 {
                String::from_str("[").concat(host.as_str()).concat("]:").concat(
                    u64_dec_string(port as u64).as_str(),
                )
            } else {
                proof {
                    reveal_strlit(":");
                    assert(":"@ =~= seq![':']);
                }
                host.clone().concat(":").concat(u64_dec_string(port as u64).as_str())
            };
            Ok((ResolverChoice::Custom { host, v6, port }, text))
        },
        None => Err(error_result("无效的DNS地址", ReadIpStatus::InvalidArguments)),
    }
}

// ------------------------------------------------------------------
// the arguments and the plan

/// What the arguments mean: an optional domain, an optional DNS server
/// and an optional port, each a field of the right shape or absent.
pub open spec fn spec_read_ip_args(m: JsonModel) -> Option<
    (Option<Seq<char>>, Option<Seq<char>>, Option<u16>),
> {
    if !(m is Obj) {
        None
    } else {
        let dom = (match model_get(m, "domain"@) {
            None => Some(None::<Seq<char>>),
            Some(JsonModel::Null) => Some(None::<Seq<char>>),
            Some(JsonModel::Str(s)) => Some(Some(s)),
            _ => None,
        });
        let dns = (match model_get(m, "dns"@) {
            None => Some(None::<Seq<char>>),
            Some(JsonModel::Null) => Some(None::<Seq<char>>),
            Some(JsonModel::Str(s)) => Some(Some(s)),
            _ => None,
        });
        let port = (match model_get(m, "port"@) {
            None => Some(None::<u16>),
            Some(JsonModel::Null) => Some(None::<u16>),
            Some(JsonModel::UInt(n)) => if n <= 65535 {
                Some(Some(n as u16))
            } else {
                None
            },
            _ => None,
        });
        match (dom, dns, port) {
            (Some(a), Some(b), Some(c)) => Some((a, b, c)),
            _ => None,
        }
    }
}

/// What the tool decides before any network work.
#[derive(Debug)]
pub enum ReadIpPlan {
    /// A finished result: the arguments were unusable.
    Reply(ToolCallResult),
    /// Ask the address-echo services for the public address.
    FetchPublicIp,
    /// Resolve the domain and probe every record on `port`.
    Resolve { domain: String, resolver: ResolverChoice, dns_used: String, port: u16 },
}

/// Reads the tool's arguments and decides: no domain asks for the
/// public address; a domain brings a resolution with the chosen
/// resolver; malformed arguments or an unreadable DNS server are
/// answered at once.
pub fn read_ip_plan(args: Option<JsonValue>) -> (r: ReadIpPlan)
    ensures
        (match args {
            None => r is FetchPublicIp,
            Some(v) => (match spec_read_ip_args(jv_view(v)) {
                None => r matches ReadIpPlan::Reply(res) && res.is_error == Some(true) && (
                res.content[0].text matches Some(t) && t@ == "参数格式错误"@) && (
                res.structured_content matches Some(sc) && jv_view(sc) == spec_rip_error_json(
                    "参数格式错误"@,
                    ReadIpStatus::InvalidArguments,
                )),
                Some((dom, dns, port)) => (match dom {
                    None => r is FetchPublicIp,
                    Some(d) => {
                        let eport: u16 = (match port {
                            Some(p) => p,
                            None => 80,
                        });
                        match dns {
                            None => r matches ReadIpPlan::Resolve {
                                domain,
                                resolver,
                                dns_used,
                                port,
                            } && domain@ == d && resolver is Default && dns_used@
                                == spec_default_dns_text() && port == eport,
                            Some(ds) => (match spec_parse_dns(ds) {
                                Some(t) => r matches ReadIpPlan::Resolve {
                                    domain,
                                    resolver,
                                    dns_used,
                                    port,
                                } && domain@ == d && (resolver matches ResolverChoice::Custom {
                                    host,
                                    v6,
                                    port,
                                } && host@ == t.0 && v6 == t.1 && port == t.2) && dns_used@
                                    == spec_dns_text(t.0, t.1, t.2) && port == eport,
                                None => r matches ReadIpPlan::Reply(res) && res.is_error == Some(
                                    true,
                                ) && (res.content[0].text matches Some(t) && t@
                                    == "无效的DNS地址"@) && (res.structured_content matches Some(
                                    sc,
                                ) && jv_view(sc) == spec_rip_error_json(
                                    "无效的DNS地址"@,
                                    ReadIpStatus::InvalidArguments,
                                )),
                            }),
                        }
                    },
                }),
            }),
        }),
{
    let v = match args {
        Some(v) => v,
        None => {
            return ReadIpPlan::FetchPublicIp;
        },
    };
    proof {
        crate::codec::lemma_get_view(v, "domain"@);
        crate::codec::lemma_get_view(v, "dns"@);
        crate::codec::lemma_get_view(v, "port"@);
        reveal_strlit("domain");
        reveal_strlit("dns");
        reveal_strlit("port");
        assert("domain"@.len() == 6 && "dns"@.len() == 3 && "port"@.len() == 4);
    }
    if !(v matches JsonValue::Obj(_)) {
        return ReadIpPlan::Reply(error_result("参数格式错误", ReadIpStatus::InvalidArguments));
    }
    let (f_dom, f_dns, f_port) = crate::codec::take_three_fields(v, "domain", "dns", "port");
    let dom: Option<String> = match f_dom {
        None => None,
        Some(JsonValue::Null) => None,
        Some(JsonValue::Str(s)) => Some(s),
        _ => {
            return ReadIpPlan::Reply(
                error_result("参数格式错误", ReadIpStatus::InvalidArguments),
            );
        },
    };
    let dns: Option<String> = match f_dns {
        None => None,
        Some(JsonValue::Null) => None,
        Some(JsonValue::Str(s)) => Some(s),
        _ => {
            return ReadIpPlan::Reply(
                error_result("参数格式错误", ReadIpStatus::InvalidArguments),
            );
        },
    };
    let port: Option<u16> = match f_port {
        None => None,
        Some(JsonValue::Null) => None,
        Some(JsonValue::UInt(n)) => if n <= 65535 {
            Some(n as u16)
        } else {
            return ReadIpPlan::Reply(
                error_result("参数格式错误", ReadIpStatus::InvalidArguments),
            );
        },
        _ => {
            return ReadIpPlan::Reply(
                error_result("参数格式错误", ReadIpStatus::InvalidArguments),
            );
        },
    };
    let domain = match dom {
        Some(d) => d,
        None => {
            return ReadIpPlan::FetchPublicIp;
        },
    };
    let eport: u16 = match port {
        Some(p) => p,
        None => 80,
    };
    match resolver_plan(match &dns {
        Some(d) => Some(d.as_str()),
        None => None,
    }) {
        Ok((resolver, dns_used)) => ReadIpPlan::Resolve { domain, resolver, dns_used, port: eport },
        Err(res) => ReadIpPlan::Reply(res),
    }
}



// ------------------------------------------------------------------
// shaping results

/// The JSON model of one latency record; an unmeasured latency is
/// written as null.
pub open spec fn spec_latrec_model(r: IpLatency) -> JsonModel {
    JsonModel::Obj(
        seq![
            ("ip"@, JsonModel::Str(r.ip@)),
            ("version"@, JsonModel::Str(r.version@)),
            (
                "latency_ms"@,
                match r.latency_ms {
                    Some(m) => JsonModel::UInt(m),
                    None => JsonModel::Null,
                },
            ),
            ("reachable"@, JsonModel::Bool(r.reachable)),
        ],
    )
}

/// The JSON models of a run of latency records.
pub open spec fn latrecs_model(rs: Seq<IpLatency>) -> Seq<JsonModel> {
    Seq::new(
        rs.len(),
        |k: int|
            if 0 <= k < rs.len() {
                spec_latrec_model(rs[k])
            } else {
                JsonModel::Null
            },
    )
}

/// Writes one latency record as a JSON tree.
fn latrec_to_json(r: &IpLatency) -> (out: JsonValue)
    ensures
        jv_view(out) == spec_latrec_model(*r),
{
    let mut entries: Vec<(String, JsonValue)> = Vec::new();
    put(&mut entries, "ip", JsonValue::Str(r.ip.clone()));
    put(&mut entries, "version", JsonValue::Str(r.version.clone()));
    match r.latency_ms {
        Some(m) => {
            put(&mut entries, "latency_ms", JsonValue::UInt(m));
        },
        None => {
            put(&mut entries, "latency_ms", JsonValue::Null);
        },
    }
    put(&mut entries, "reachable", JsonValue::Bool(r.reachable));
    let out = obj_of(entries);
    proof {
        assert(jv_view(out) matches JsonModel::Obj(a) && spec_latrec_model(*r)
            matches JsonModel::Obj(b) && a =~= b);
    }
    out
}

/// Writes a run of latency records as a JSON array.
fn latrecs_to_json(rs: &Vec<IpLatency>) -> (out: JsonValue)
    ensures
        jv_view(out) == JsonModel::Arr(latrecs_model(rs@)),
{
    let mut arr: Vec<JsonValue> = Vec::new();
    let mut k: usize = 0;
    while k < rs.len()
        invariant
            k <= rs@.len(),
            models_of(arr@) == latrecs_model(rs@.subrange(0, k as int)),
        decreases rs@.len() - k,
    {
        let item = latrec_to_json(&rs[k]);
        proof {
            crate::json_parse::lemma_models_push(arr@, item);
            assert(models_of(arr@) + seq![jv_view(item)] =~= models_of(arr@).push(jv_view(item)));
            assert(models_of(arr@).push(jv_view(item)) =~= latrecs_model(
                rs@.subrange(0, k as int + 1),
            ));
        }
        arr.push(item);
        k = k + 1;
    }
    proof {
        assert(rs@.subrange(0, rs@.len() as int) =~= rs@);
        crate::json::lemma_jv_view_arr(arr);
    }
    JsonValue::Arr(arr)
}

/// The public-address success payload.
pub open spec fn spec_public_ip_json(ip: Seq<char>) -> JsonModel {
    JsonModel::Obj(
        seq![("public_ip"@, JsonModel::Str(ip)), ("status"@, JsonModel::Str("success"@))],
    )
}

/// Shapes the public-address outcome: the first usable answer, or a
/// network error when every service failed.
pub fn public_ip_result(ip: Option<String>) -> (r: ToolCallResult)
    ensures
        (match ip {
            Some(a) => {
                &&& r.is_error == Some(false)
                &&& r.content@.len() == 1
                &&& r.content@[0].text matches Some(t) && t@ == "公网IP: "@ + a@
                &&& r.structured_content matches Some(sc) && jv_view(sc) == spec_public_ip_json(a@)
            },
            None => {
                &&& r.is_error == Some(true)
                &&& r.content@.len() == 1
                &&& r.content@[0].text matches Some(t) && t@ == "获取公网IP失败"@
                &&& r.structured_content matches Some(sc) && jv_view(sc) == spec_rip_error_json(
                    "获取公网IP失败"@,
                    ReadIpStatus::NetworkError,
                )
            },
        }),
{
    match ip {
        Some(a) => {
            let text = String::from_str("公网IP: ").concat(a.as_str());
            let mut entries: Vec<(String, JsonValue)> = Vec::new();
            let ghost a0 = a@;
            put(&mut entries, "public_ip", JsonValue::Str(a));
            put(&mut entries, "status", crate::codec::jstr("success"));
            let sc = obj_of(entries);
            proof {
                assert(jv_view(sc) matches JsonModel::Obj(x) && spec_public_ip_json(a0)
                    matches JsonModel::Obj(y) && x =~= y);
            }
            text_tool_result(text, false, Some(sc))
        },
        None => error_result("获取公网IP失败", ReadIpStatus::NetworkError),
    }
}

/// Shapes a resolution failure, keeping the resolver's own words.
pub fn resolve_error_result(detail: &str) -> (r: ToolCallResult)
    ensures
        r.is_error == Some(true),
        r.content@.len() == 1,
        r.content@[0].text matches Some(t) && t@ == "解析域名失败: "@ + detail@,
        r.structured_content matches Some(sc) && jv_view(sc) == spec_rip_error_json(
            "解析域名失败: "@ + detail@,
            ReadIpStatus::ResolveFailed,
        ),
{
    let msg = String::from_str("解析域名失败: ").concat(detail);
    error_result(msg.as_str(), ReadIpStatus::ResolveFailed)
}

/// Shapes a resolution that yielded no records at all.
pub fn no_records_result() -> (r: ToolCallResult)
    ensures
        r.is_error == Some(true),
        r.content@.len() == 1,
        r.content@[0].text matches Some(t) && t@ == "未获取到任何IP地址"@,
        r.structured_content matches Some(sc) && jv_view(sc) == spec_rip_error_json(
            "未获取到任何IP地址"@,
            ReadIpStatus::ResolveFailed,
        ),
{
    error_result("未获取到任何IP地址", ReadIpStatus::ResolveFailed)
}

/// The text line of one ranked record.
pub open spec fn spec_top_item_text(r: IpLatency) -> Seq<char> {
    r.ip@ + "("@ + r.version@ + "): "@ + spec_dec_u64(lat_key(r) as nat) + "ms"@
}

/// The ranked records' text lines, joined by commas.
pub open spec fn spec_top_list_text(top: Seq<IpLatency>) -> Seq<char>
    decreases top.len(),
{
    if top.len() == 0 {
        Seq::empty()
    } else if top.len() == 1 {
        spec_top_item_text(top[0])
    } else {
        spec_top_list_text(top.drop_last()) + ", "@ + spec_top_item_text(top.last())
    }
}

/// The whole success payload of a resolution.
pub open spec fn spec_read_ip_success_json(
    domain: Seq<char>,
    dns_used: Seq<char>,
    records: Seq<IpLatency>,
) -> JsonModel {
    JsonModel::Obj(
        seq![
            ("domain"@, JsonModel::Str(domain)),
            ("dns_used"@, JsonModel::Str(dns_used)),
            ("records"@, JsonModel::Arr(latrecs_model(records))),
            ("top_ips"@, JsonModel::Arr(latrecs_model(spec_top_ips(records)))),
            ("status"@, JsonModel::Str("success"@)),
        ],
    )
}

/// If no record was reachable with a latency, the ranked set is empty.
pub proof fn lemma_unreachable_empty(records: Seq<IpLatency>)
    requires
        forall|k: int| 0 <= k < records.len() ==> !keepable(#[trigger] records[k]),
    ensures
        spec_top_ips(records).len() == 0,
{
    lemma_keep_keepable(records);
    lemma_sort_props(spec_keep(records));
}

/// Shapes a finished resolution: always a success, the full record set
/// and the ranked best three in the structured payload; when nothing
/// was reachable the ranked set is empty and the text says so.
pub fn read_ip_success_result(domain: String, dns_used: String, records: Vec<IpLatency>) -> (r:
    ToolCallResult)
    ensures
        r.is_error == Some(false),
        r.content@.len() == 1,
        r.content@[0].content_type@ == "text"@,
        r.structured_content matches Some(sc) && jv_view(sc) == spec_read_ip_success_json(
            domain@,
            dns_used@,
            records@,
        ),
        spec_top_ips(records@).len() == 0 ==> (r.content@[0].text matches Some(t) && t@
            == "域名 "@ + domain@ + " 解析到的IP均不可达或超时"@),
        spec_top_ips(records@).len() > 0 ==> (r.content@[0].text matches Some(t) && t@ == "域名 "@
            + domain@ + " 延迟最低的三个IP: "@ + spec_top_list_text(spec_top_ips(records@))),
{
    let top = rank_records(&records);
    let ghost top0 = top@;
    let text = if top.len() == 0 {
        String::from_str("域名 ").concat(domain.as_str()).concat(" 解析到的IP均不可达或超时")
    } else {
        let mut list = String::new();
        let mut k: usize = 0;
        while k < top.len()
            invariant
                k <= top@.len(),
                top@ == top0,
                k == 0 ==> list@ == Seq::<char>::empty(),
                k > 0 ==> list@ == spec_top_list_text(top0.subrange(0, k as int)),
            decreases top@.len() - k,
        {
            proof {
                assert(top0.subrange(0, k as int + 1).drop_last() =~= top0.subrange(0, k as int));
                assert(top0.subrange(0, k as int + 1).last() == top0[k as int]);
            }
            if k > 0 {
                list = list.concat(", ");
            }
            let item = top[k].ip.clone().concat("(").concat(top[k].version.as_str()).concat(
                "): ",
            ).concat(u64_dec_string(lat_key_exec(&top[k])).as_str()).concat("ms");
            proof {
                assert(item@ == spec_top_item_text(top0[k as int]));
                if k == 0 {
                    assert(top0.subrange(0, 1).len() == 1);
                }
            }
            list = list.concat(item.as_str());
            k = k + 1;
        }
        proof {
            assert(top0.subrange(0, top0.len() as int) =~= top0);
        }
        String::from_str("域名 ").concat(domain.as_str()).concat(" 延迟最低的三个IP: ").concat(
            list.as_str(),
        )
    };
    let ghost d0 = domain@;
    let ghost u0 = dns_used@;
    let recs_json = latrecs_to_json(&records);
    let top_json = latrecs_to_json(&top);
    let mut entries: Vec<(String, JsonValue)> = Vec::new();
    put(&mut entries, "domain", JsonValue::Str(domain));
    put(&mut entries, "dns_used", JsonValue::Str(dns_used));
    put(&mut entries, "records", recs_json);
    put(&mut entries, "top_ips", top_json);
    put(&mut entries, "status", crate::codec::jstr("success"));
    let sc = obj_of(entries);
    proof {
        assert(jv_view(sc) matches JsonModel::Obj(a) && spec_read_ip_success_json(
            d0,
            u0,
            records@,
        ) matches JsonModel::Obj(b) && a =~= b);
    }
    text_tool_result(text, false, Some(sc))
}



// ------------------------------------------------------------------
// the public-address lookup chain

/// The fixed, ordered address-echo services: each a URL and the JSON
/// field holding the address.
pub fn public_ip_services() -> (r: Vec<(String, String)>)
    ensures
        r@.len() == 2,
        r@[0].0@ == "https://api.ipify.org?format=json"@,
        r@[0].1@ == "ip"@,
        r@[1].0@ == "https://ifconfig.co/json"@,
        r@[1].1@ == "ip"@,
{
    let mut r: Vec<(String, String)> = Vec::new();
    r.push((String::from_str("https://api.ipify.org?format=json"), String::from_str("ip")));
    r.push((String::from_str("https://ifconfig.co/json"), String::from_str("ip")));
    r
}

/// The plaintext fallback service.
pub fn public_ip_text_service() -> (r: String)
    ensures
        r@ == "https://ipv4.icanhazip.com"@,
{
    String::from_str("https://ipv4.icanhazip.com")
}

/// Reads one service's JSON body: the string under `key`, if the body
/// is JSON with one.
pub fn extract_ip_field(body: &str, key: &str) -> (r: Option<String>)
    ensures
        (match spec_parse_text(body@) {
            Some(m) => (match model_get(m, key@) {
                Some(JsonModel::Str(a)) => r matches Some(s) && s@ == a,
                _ => r is None,
            }),
            None => r is None,
        }),
{
    match crate::json_parse::parse_json(body) {
        Some(v) => {
            proof {
                crate::codec::lemma_get_view(v, key@);
            }
            match crate::codec::take_one_field(v, key) {
                Some(JsonValue::Str(s)) => Some(s),
                _ => None,
            }
        },
        None => None,
    }
}

/// Reads the plaintext fallback's body: the trimmed text, if any is
/// left.
pub fn extract_ip_text(body: &str) -> (r: Option<String>)
    ensures
        (if spec_trim(body@).len() > 0 {
            r matches Some(s) && s@ == spec_trim(body@)
        } else {
            r is None
        }),
{
    let t = trim_chars(body);
    if t.as_str().unicode_len() > 0 {
        Some(t)
    } else {
        None
    }
}


} // verus!
