//! The random-string tool: a character set fixed by the arguments, a
//! length clamped to a sane range, and draws through the random number
//! generator, each proved to land inside the set.

use vstd::prelude::*;
use vstd::string::StringExecFns;
use crate::codec::{model_get, take_two_fields};
use crate::json::{JsonModel, JsonValue, jv_view};
use crate::strutil::{chars_to_string, str_to_chars};
use crate::tool_dto::{ToolCallResult, text_tool_result, tool_failure_result};

verus! {

/// Parameters of the random-string tool.
#[derive(Debug, Clone, PartialEq)]
pub struct RandomStringParams {
    pub length: usize,
    pub include_special: bool,
}

/// The length used when none is given.
pub fn default_length() -> (r: usize)
    ensures
        r == 16,
{
    16
}

/// The special-character choice used when none is given.
pub fn default_include_special() -> (r: bool)
    ensures
        !r,
{
    false
}

impl Default for RandomStringParams {
    /// The default parameters: sixteen characters, no specials.
    fn default() -> (r: Self)
        ensures
            r.length == 16,
            !r.include_special,
    {
        RandomStringParams { length: default_length(), include_special: default_include_special() }
    }
}

/// The characters a generated string draws from: letters, digits, and
/// the special set when asked for.
pub open spec fn spec_charset(include_special: bool) -> Seq<char> {
    Seq::new(
        26,
        |i: int|
            if 0 <= i < 26 {
                ((65 + i) as u8) as char
            } else {
                'A'
            },
    ) + Seq::new(
        26,
        |i: int|
            if 0 <= i < 26 {
                ((97 + i) as u8) as char
            } else {
                'a'
            },
    ) + Seq::new(
        10,
        |i: int|
            if 0 <= i < 10 {
                ((48 + i) as u8) as char
            } else {
                '0'
            },
    ) + (if include_special {
        "!@#$%^&*()_+-=[]{}|;:,.<>?"@
    } else {
        Seq::empty()
    })
}

/// Builds the character set.
fn charset(include_special: bool) -> (r: Vec<char>)
    ensures
        r@ == spec_charset(include_special),
        r@.len() >= 62,
{
    let mut r: Vec<char> = Vec::new();
    let mut i: usize = 0;
    while i < 26
        invariant
            i <= 26,
            r@.len() == i,
            forall|k: int| 0 <= k < i ==> r@[k] == ((65 + k) as u8) as char,
        decreases 26 - i,
    {
        r.push(((65 + i) as u8) as char);
        i = i + 1;
    }
    let mut j: usize = 0;
    while j < 26
        invariant
            j <= 26,
            r@.len() == 26 + j,
            forall|k: int| 0 <= k < 26 ==> r@[k] == ((65 + k) as u8) as char,
            forall|k: int| 26 <= k < 26 + j ==> r@[k] == ((97 + (k - 26)) as u8) as char,
        decreases 26 - j,
    {
        r.push(((97 + j) as u8) as char);
        j = j + 1;
    }
    let mut d: usize = 0;
    while d < 10
        invariant
            d <= 10,
            r@.len() == 52 + d,
            forall|k: int| 0 <= k < 26 ==> r@[k] == ((65 + k) as u8) as char,
            forall|k: int| 26 <= k < 52 ==> r@[k] == ((97 + (k - 26)) as u8) as char,
            forall|k: int| 52 <= k < 52 + d ==> r@[k] == ((48 + (k - 52)) as u8) as char,
        decreases 10 - d,
    {
        r.push(((48 + d) as u8) as char);
        d = d + 1;
    }
    if include_special {
        let sp = str_to_chars("!@#$%^&*()_+-=[]{}|;:,.<>?");
        let mut t: usize = 0;
        let ghost base = r@;
        while t < sp.len()
            invariant
                t <= sp@.len(),
                sp@ == "!@#$%^&*()_+-=[]{}|;:,.<>?"@,
                r@ == base + sp@.subrange(0, t as int),
            decreases sp@.len() - t,
        {
            r.push(sp[t]);
            t = t + 1;
            proof {
                assert(r@ =~= base + sp@.subrange(0, t as int));
            }
        }
        proof {
            assert(sp@.subrange(0, sp@.len() as int) =~= sp@);
            assert(r@ =~= spec_charset(include_special));
        }
    } else {
        proof {
            assert(r@ =~= spec_charset(include_special));
        }
    }
    r
}

/// Relies on `rand::random_range`: a draw from the thread-local random
/// number generator; nothing holds of it beyond its range.
#[verifier::external_body]
fn rand_below(n: usize) -> (r: usize)
    requires
        n > 0,
    ensures
        r < n,
{
    rand::random_range(0..n)
}

/// The requested length, clamped to one through 4096.
pub open spec fn spec_clamped_len(length: usize) -> int {
    if length < 1 {
        1
    } else if length > 4096 {
        4096
    } else {
        length as int
    }
}

/// Draws a random string: the clamped length, every character from the
/// set the arguments chose.
pub fn generate_random_string(length: usize, include_special: Option<bool>) -> (r: String)
    ensures
        r@.len() == spec_clamped_len(length),
        forall|k: int|
            0 <= k < r@.len() ==> spec_charset(
                (match include_special {
                    Some(b) => b,
                    None => false,
                }),
            ).contains(#[trigger] r@[k]),
{
    let sp = match include_special {
        Some(b) => b,
        None => false,
    };
    let cs = charset(sp);
    let n = if length < 1 {
        1
    } else if length > 4096 {
        4096
    } else {
        length
    };
    let mut out: Vec<char> = Vec::new();
    let mut k: usize = 0;
    while k < n
        invariant
            k <= n,
            cs@ == spec_charset(sp),
            cs@.len() >= 62,
            out@.len() == k,
            forall|t: int| 0 <= t < k ==> spec_charset(sp).contains(#[trigger] out@[t]),
        decreases n - k,
    {
        let idx = rand_below(cs.len());
        let c = cs[idx];
        proof {
            assert(spec_charset(sp)[idx as int] == c);
        }
        out.push(c);
        k = k + 1;
    }
    chars_to_string(&out)
}

/// Reads the tool's arguments and draws the string: out-of-range
/// lengths and malformed arguments are answered as errors, never a
/// fault.
pub fn handle_random_string_tool(args: Option<JsonValue>) -> (r: ToolCallResult)
    ensures
        r.content@.len() == 1,
        (match args {
            None => r.is_error == Some(true) && (r.content@[0].text matches Some(t) && t@
                == "缺少参数"@),
            Some(v) => {
                let m = jv_view(v);
                if !(m is Obj) || !(match model_get(m, "length"@) {
                    None => true,
                    Some(JsonModel::UInt(_)) => true,
                    _ => false,
                }) || !(match model_get(m, "include_special"@) {
                    None => true,
                    Some(JsonModel::Bool(_)) => true,
                    _ => false,
                }) {
                    r.is_error == Some(true) && (r.content@[0].text matches Some(t) && t@
                        == "参数格式错误"@)
                } else {
                    let len = (match model_get(m, "length"@) {
                        Some(JsonModel::UInt(n)) => n,
                        _ => 16,
                    });
                    if len < 1 || len > 4096 {
                        r.is_error == Some(true) && (r.content@[0].text matches Some(t) && t@
                            == "字符串长度必须为1到4096!"@) && r.structured_content is None
                    } else {
                        r.is_error == Some(false) && (r.content@[0].text matches Some(t) && t@.len()
                            == len) && r.structured_content is None
                    }
                }
            },
        }),
{
    let v = match args {
        Some(v) => v,
        None => {
            let msg = String::from_str("缺少参数");
            let sc = JsonValue::Str(msg.clone());
            return text_tool_result(msg, true, Some(sc));
        },
    };
    proof {
        crate::codec::lemma_get_view(v, "length"@);
        crate::codec::lemma_get_view(v, "include_special"@);
        reveal_strlit("length");
        reveal_strlit("include_special");
        assert("length"@.len() == 6 && "include_special"@.len() == 15);
    }
    if !(v matches JsonValue::Obj(_)) {
        return tool_failure_result("参数格式错误");
    }
    let (f_len, f_sp) = take_two_fields(v, "length", "include_special");
    let length: u64 = match f_len {
        None => 16,
        Some(JsonValue::UInt(n)) => n,
        _ => {
            return tool_failure_result("参数格式错误");
        },
    };
    let include_special: bool = match f_sp {
        None => false,
        Some(JsonValue::Bool(b)) => b,
        _ => {
            return tool_failure_result("参数格式错误");
        },
    };
    if length < 1 || length > 4096 {
        return text_tool_result(String::from_str("字符串长度必须为1到4096!"), true, None);
    }
    let text = generate_random_string(length as usize, Some(include_special));
    text_tool_result(text, false, None)
}

} // verus!
