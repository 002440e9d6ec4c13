//! The event stream channel's decisions: whether an Accept header lets
//! the stream begin, and the schedule of its events — one handshake at
//! once, then a heartbeat every thirty seconds.  The runner owns the
//! connection and the clock; it asks [`sse_event_at`] what to emit and
//! when.

use vstd::prelude::*;
use vstd::string::StrSliceExecFns;
use vstd::string::StringExecFns;
use crate::strutil::str_to_chars;

verus! {

/// Seconds between heartbeats.
pub const HEARTBEAT_SECS: u64 = 30;

/// Seconds between protocol-level keep-alive comments.
pub const KEEPALIVE_SECS: u64 = 15;

/// `sub` occurs in `s`.
pub open spec fn contains_seq(s: Seq<char>, sub: Seq<char>) -> bool {
    exists|i: int| 0 <= i && i + sub.len() <= s.len() && #[trigger] s.subrange(i, i + sub.len()) == sub
}

/// Substring search.
pub fn str_contains(s: &str, sub: &str) -> (r: bool)
    ensures
        r == contains_seq(s@, sub@),
{
    let cs = str_to_chars(s);
    let cn = str_to_chars(sub);
    let n = cs.len();
    let m = cn.len();
    if m == 0 {
        proof {
            assert(contains_seq(s@, sub@)) by {
                assert(s@.subrange(0, 0 + sub@.len() as int) =~= sub@);
            }
        }
        return true;
    }
    if m > n {
        proof {
            assert(!contains_seq(s@, sub@)) by {
                if contains_seq(s@, sub@) {
                    let i = choose|i: int|
                        0 <= i && i + sub@.len() <= s@.len() && #[trigger] s@.subrange(
                            i,
                            i + sub@.len(),
                        ) == sub@;
                }
            }
        }
        return false;
    }
    let mut i: usize = 0;
    while i <= n - m
        invariant
            1 <= m <= n,
            n == s@.len(),
            m == sub@.len(),
            cs@ == s@,
            cn@ == sub@,
            i <= n - m + 1,
            forall|t: int| 0 <= t < i ==> #[trigger] s@.subrange(t, t + sub@.len()) != sub@,
        decreases n - i,
    {
        let mut k: usize = 0;
        let mut ok = true;
        while k < m
            invariant
                m <= n,
                i + m <= n,
                n == s@.len(),
                m == sub@.len(),
                cs@ == s@,
                cn@ == sub@,
                k <= m,
                ok ==> forall|t: int| 0 <= t < k ==> s@[i + t] == sub@[t],
                !ok ==> s@.subrange(i as int, i as int + sub@.len()) != sub@,
            decreases m - k,
        {
            if cs[i + k] != cn[k] {
                proof {
                    assert(s@.subrange(i as int, i as int + sub@.len())[k as int] == s@[i + k]);
                }
                ok = false;
                k = m;
            } else {
                k = k + 1;
            }
        }
        if ok {
            proof {
                assert(s@.subrange(i as int, i as int + sub@.len()) =~= sub@);
            }
            return true;
        }
        i = i + 1;
    }
    proof {
        assert(!contains_seq(s@, sub@)) by {
            if contains_seq(s@, sub@) {
                let w = choose|w: int|
                    0 <= w && w + sub@.len() <= s@.len() && #[trigger] s@.subrange(
                        w,
                        w + sub@.len(),
                    ) == sub@;
                assert(s@.subrange(w, w + sub@.len()) != sub@);
            }
        }
    }
    false
}

/// An Accept header refuses the stream only when it names JSON while
/// naming neither the event-stream type nor a wildcard.
pub open spec fn spec_accept_ok(accept: Seq<char>) -> bool {
    !(contains_seq(accept, "application/json"@) && !contains_seq(accept, "text/event-stream"@)
        && !contains_seq(accept, "*/*"@))
}

/// Decides whether the stream may begin for this Accept header.
pub fn sse_accept_ok(accept: &str) -> (r: bool)
    ensures
        r == spec_accept_ok(accept@),
{
    let json = str_contains(accept, "application/json");
    let es = str_contains(accept, "text/event-stream");
    let any = str_contains(accept, "*/*");
    !(json && !es && !any)
}

/// The kinds of event the stream emits.
#[derive(Debug, Clone, Copy, PartialEq, Eq, Structural)]
pub enum SseEventKind {
    Initialize,
    Heartbeat,
}

/// The handshake payload's text.
pub open spec fn spec_sse_handshake() -> Seq<char> {
    "{\"jsonrpc\":\"2.0\",\"id\":null,\"result\":{\"capabilities\":{\"tools\":{\"listChanged\":false}},\"protocolVersion\":\"2025-06-18\",\"serverInfo\":{\"name\":\"local_mcp_servers\",\"version\":\"0.1.0\"}}}"@
}

/// The handshake payload the stream opens with.
pub fn sse_initial_payload() -> (r: String)
    ensures
        r@ == spec_sse_handshake(),
{
    String::from_str(
        "{\"jsonrpc\":\"2.0\",\"id\":null,\"result\":{\"capabilities\":{\"tools\":{\"listChanged\":false}},\"protocolVersion\":\"2025-06-18\",\"serverInfo\":{\"name\":\"local_mcp_servers\",\"version\":\"0.1.0\"}}}",
    )
}

/// The stream's schedule: the event with index `n`, its kind, its data,
/// and the moment it is due, in milliseconds from the connection's
/// start.  Event zero is the one handshake, due at once; every later
/// event is a heartbeat, the `n`-th due after `n` heartbeat periods and
/// never before.
pub fn sse_event_at(n: u64) -> (r: (SseEventKind, u128, String))
    ensures
        n == 0 ==> r.0 == SseEventKind::Initialize && r.1 == 0 && r.2@ == spec_sse_handshake(),
        n >= 1 ==> r.0 == SseEventKind::Heartbeat && r.1 == n as nat * (HEARTBEAT_SECS as nat)
            * 1000 && r.2@ == "ping"@,
{
    if n == 0 {
        (SseEventKind::Initialize, 0, sse_initial_payload())
    } else {
        proof {
            assert(n as int * 30 * 1000 <= 0xFFFFFFFFFFFFFFFFu64 * 30000) by (nonlinear_arith)
                requires
                    n <= 0xFFFFFFFFFFFFFFFFu64,
            ;
        }
        let due: u128 = (n as u128) * (HEARTBEAT_SECS as u128) * 1000;
        (SseEventKind::Heartbeat, due, String::from_str("ping"))
    }
}

/// The stream emits exactly one handshake, first; each following event
/// is a heartbeat, due one whole period after the one before it and
/// never earlier than its own period times its rank.
pub proof fn lemma_sse_schedule(n: u64)
    ensures
        n == 0 ==> spec_sse_due(n) == 0,
        n >= 1 ==> spec_sse_due(n) == n * 30000,
        n >= 1 ==> spec_sse_due(n) == spec_sse_due((n - 1) as u64) + 30000,
        spec_sse_kind(n) == (if n == 0 {
            SseEventKind::Initialize
        } else {
            SseEventKind::Heartbeat
        }),
        forall|m: u64| m < n ==> spec_sse_due(m) < spec_sse_due(n),
{
    assert forall|m: u64| m < n implies spec_sse_due(m) < spec_sse_due(n) by {
        if m == 0 {
            assert(spec_sse_due(n) == n * 30000 >= 30000) by (nonlinear_arith)
                requires
                    n >= 1,
            ;
        } else {
            assert(m * 30000 < n * 30000) by (nonlinear_arith)
                requires
                    m < n,
                    m >= 1,
            ;
        }
    }
}

/// When the event with index `n` is due, in milliseconds.
pub open spec fn spec_sse_due(n: u64) -> int {
    if n == 0 {
        0
    } else {
        n * 30000
    }
}

/// What kind the event with index `n` has.
pub open spec fn spec_sse_kind(n: u64) -> SseEventKind {
    if n == 0 {
        SseEventKind::Initialize
    } else {
        SseEventKind::Heartbeat
    }
}

} // verus!
