//! The JSON reader of the envelope codec.
//!
//! The grammar is standard JSON: the four whitespace characters, `null`,
//! `true`, `false`, numbers, strings with the usual escapes including
//! `\uXXXX` and surrogate pairs, arrays and objects, with nesting bounded
//! by [`MAX_DEPTH`].  The spec functions below define the accepted text
//! and its model; the exec parser is proved to return exactly that model.

use vstd::prelude::*;
use crate::json::{JsonModel, JsonValue, entry_models_of, jv_view, lemma_jv_view_arr, lemma_jv_view_obj, models_of};
use crate::strutil::{char_from_u32, chars_to_string, str_to_chars};

verus! {

/// Nesting deeper than this is rejected, so that reading cannot exhaust
/// the stack.
pub const MAX_DEPTH: u32 = 128;

/// JSON insignificant whitespace.
pub open spec fn is_ws(c: char) -> bool {
    c == ' ' || c == '\t' || c == '\n' || c == '\r'
}

/// A decimal digit.
pub open spec fn is_digit(c: char) -> bool {
    48 <= c as u32 && c as u32 <= 57
}

/// A hexadecimal digit.
pub open spec fn is_hex_digit(c: char) -> bool {
    is_digit(c) || (97 <= c as u32 && c as u32 <= 102) || (65 <= c as u32 && c as u32 <= 70)
}

/// The numeric value of one decimal digit.
pub open spec fn digit_of(c: char) -> nat {
    (c as u32 - 48) as nat
}

/// The numeric value of one hexadecimal digit.
pub open spec fn hex_digit_of(c: char) -> nat {
    if is_digit(c) {
        (c as u32 - 48) as nat
    } else if 97 <= c as u32 && c as u32 <= 102 {
        (c as u32 - 87) as nat
    } else {
        (c as u32 - 55) as nat
    }
}

/// The value of a sequence of decimal digits.
pub open spec fn digits_val(ds: Seq<char>) -> nat
    decreases ds.len(),
{
    if ds.len() == 0 {
        0
    } else {
        digits_val(ds.drop_last()) * 10 + digit_of(ds.last())
    }
}

/// The first position at or after `i` that does not hold a decimal digit.
pub open spec fn scan_digits(s: Seq<char>, i: int) -> int
    decreases s.len() - i,
{
    if 0 <= i < s.len() && is_digit(s[i]) {
        scan_digits(s, i + 1)
    } else {
        i
    }
}

pub proof fn lemma_scan_digits(s: Seq<char>, i: int)
    requires
        0 <= i <= s.len(),
    ensures
        i <= scan_digits(s, i) <= s.len(),
        forall|k: int| i <= k < scan_digits(s, i) ==> is_digit(s[k]),
        scan_digits(s, i) < s.len() ==> !is_digit(s[scan_digits(s, i)]),
    decreases s.len() - i,
{
    if i < s.len() && is_digit(s[i]) {
        lemma_scan_digits(s, i + 1);
    }
}

/// Everything from `i` on is whitespace.
pub open spec fn all_ws_from(s: Seq<char>, i: int) -> bool {
    forall|k: int| i <= k < s.len() ==> is_ws(#[trigger] s[k])
}

/// The value of four hexadecimal digits starting at `i`.
pub open spec fn hex4_val(s: Seq<char>, i: int) -> nat {
    ((hex_digit_of(s[i]) * 16 + hex_digit_of(s[i + 1])) * 16 + hex_digit_of(s[i + 2])) * 16
        + hex_digit_of(s[i + 3])
}

/// Four hexadecimal digits stand at `i`.
pub open spec fn hex4_at(s: Seq<char>, i: int) -> bool {
    i + 4 <= s.len() && is_hex_digit(s[i]) && is_hex_digit(s[i + 1]) && is_hex_digit(s[i + 2])
        && is_hex_digit(s[i + 3])
}

/// The character for a single-character escape, if the escape is legal.
pub open spec fn escape_char(e: char) -> Option<char> {
    if e == '"' {
        Some('"')
    } else if e == '\\' {
        Some('\\')
    } else if e == '/' {
        Some('/')
    } else if e == 'b' {
        Some(8u32 as char)
    } else if e == 'f' {
        Some(12u32 as char)
    } else if e == 'n' {
        Some('\n')
    } else if e == 'r' {
        Some('\r')
    } else if e == 't' {
        Some('\t')
    } else {
        None
    }
}

/// Reads the rest of a JSON string, `i` standing just after the opening
/// quote; yields the content and the position after the closing quote.
pub open spec fn spec_parse_string_rest(s: Seq<char>, i: int) -> Option<(Seq<char>, int)>
    decreases s.len() - i,
{
    if i < 0 || i >= s.len() {
        None
    } else {
        let c = s[i];
        if c == '"' {
            Some((Seq::empty(), i + 1))
        } else if c == '\\' {
            if i + 1 >= s.len() {
                None
            } else {
                let e = s[i + 1];
                if e == 'u' {
                    if hex4_at(s, i + 2) {
                        let cp = hex4_val(s, i + 2);
                        if 0xD800 <= cp && cp <= 0xDBFF {
                            // a high surrogate must be followed by a low one
                            if i + 12 <= s.len() && s[i + 6] == '\\' && s[i + 7] == 'u'
                                && hex4_at(s, i + 8) && 0xDC00 <= hex4_val(s, i + 8)
                                && hex4_val(s, i + 8) <= 0xDFFF {
                                let lo = hex4_val(s, i + 8);
                                let ch = (0x10000 + (cp - 0xD800) * 0x400 + (lo - 0xDC00)) as u32;
                                match spec_parse_string_rest(s, i + 12) {
                                    Some((rest, j)) => Some((seq![ch as char] + rest, j)),
                                    None => None,
                                }
                            } else {
                                None
                            }
                        } else if 0xDC00 <= cp && cp <= 0xDFFF {
                            None
                        } else {
                            match spec_parse_string_rest(s, i + 6) {
                                Some((rest, j)) => Some((seq![(cp as u32) as char] + rest, j)),
                                None => None,
                            }
                        }
                    } else {
                        None
                    }
                } else {
                    match escape_char(e) {
                        Some(ch) => match spec_parse_string_rest(s, i + 2) {
                            Some((rest, j)) => Some((seq![ch] + rest, j)),
                            None => None,
                        },
                        None => None,
                    }
                }
            }
        } else if (c as u32) < 0x20 {
            None
        } else {
            match spec_parse_string_rest(s, i + 1) {
                Some((rest, j)) => Some((seq![c] + rest, j)),
                None => None,
            }
        }
    }
}

/// The position after the exponent part that begins with the marker at
/// `j`, if that part is well formed.
pub open spec fn exp_end(s: Seq<char>, j: int) -> Option<int> {
    let k = if j + 1 < s.len() && (s[j + 1] == '+' || s[j + 1] == '-') {
        j + 2
    } else {
        j + 1
    };
    if k < s.len() && is_digit(s[k]) {
        Some(scan_digits(s, k))
    } else {
        None
    }
}

/// Reads a number whose first character stands at `i`.  An unsigned
/// integer in 64-bit range becomes [`JsonModel::UInt`]; any other number
/// keeps its literal text.
pub open spec fn spec_parse_number(s: Seq<char>, i: int) -> Option<(JsonModel, int)> {
    let neg = 0 <= i < s.len() && s[i] == '-';
    let j0 = if neg {
        i + 1
    } else {
        i
    };
    if 0 <= j0 < s.len() && is_digit(s[j0]) {
        let j1 = if s[j0] == '0' {
            j0 + 1
        } else {
            scan_digits(s, j0)
        };
        let has_frac = j1 + 1 < s.len() && s[j1] == '.' && is_digit(s[j1 + 1]);
        let j2 = if has_frac {
            scan_digits(s, j1 + 1)
        } else {
            j1
        };
        let has_exp = j2 < s.len() && (s[j2] == 'e' || s[j2] == 'E') && exp_end(s, j2) is Some;
        let j3 = if has_exp {
            match exp_end(s, j2) {
                Some(e) => e,
                None => j2,
            }
        } else {
            j2
        };
        if !neg && !has_frac && !has_exp && digits_val(s.subrange(j0, j1)) <= u64::MAX {
            Some((JsonModel::UInt(digits_val(s.subrange(j0, j1)) as u64), j1))
        } else {
            Some((JsonModel::NumOther(s.subrange(i, j3)), j3))
        }
    } else {
        None
    }
}

/// The literal `lit` stands at `i`.
pub open spec fn lit_at(s: Seq<char>, i: int, lit: Seq<char>) -> bool {
    0 <= i && i + lit.len() <= s.len() && s.subrange(i, i + lit.len()) == lit
}

/// Reads one JSON value whose first character stands at or after `i`,
/// leading whitespace allowed.
pub open spec fn spec_parse_value(s: Seq<char>, i: int, depth: nat) -> Option<(JsonModel, int)>
    decreases depth, s.len() - i, 0int,
{
    if i < 0 || i >= s.len() {
        None
    } else if is_ws(s[i]) {
        spec_parse_value(s, i + 1, depth)
    } else {
        let c = s[i];
        if c == 'n' {
            if lit_at(s, i, "null"@) {
                Some((JsonModel::Null, i + 4))
            } else {
                None
            }
        } else if c == 't' {
            if lit_at(s, i, "true"@) {
                Some((JsonModel::Bool(true), i + 4))
            } else {
                None
            }
        } else if c == 'f' {
            if lit_at(s, i, "false"@) {
                Some((JsonModel::Bool(false), i + 5))
            } else {
                None
            }
        } else if c == '"' {
            match spec_parse_string_rest(s, i + 1) {
                Some((t, j)) => Some((JsonModel::Str(t), j)),
                None => None,
            }
        } else if c == '[' {
            if depth == 0 {
                None
            } else {
                match spec_parse_items_first(s, i + 1, (depth - 1) as nat) {
                    Some((items, j)) => Some((JsonModel::Arr(items), j)),
                    None => None,
                }
            }
        } else if c == '{' {
            if depth == 0 {
                None
            } else {
                match spec_parse_members_first(s, i + 1, (depth - 1) as nat) {
                    Some((entries, j)) => Some((JsonModel::Obj(entries), j)),
                    None => None,
                }
            }
        } else if c == '-' || is_digit(c) {
            spec_parse_number(s, i)
        } else {
            None
        }
    }
}

/// Reads the items of an array from just after `[`: either a closing
/// bracket at once, or a first value.
pub open spec fn spec_parse_items_first(s: Seq<char>, i: int, depth: nat) -> Option<
    (Seq<JsonModel>, int),
>
    decreases depth, s.len() - i, 2int,
{
    if i < 0 || i >= s.len() {
        None
    } else if is_ws(s[i]) {
        spec_parse_items_first(s, i + 1, depth)
    } else if s[i] == ']' {
        Some((Seq::empty(), i + 1))
    } else {
        match spec_parse_value(s, i, depth) {
            Some((v, j)) => if i < j && j <= s.len() {
                match spec_parse_items_after(s, j, depth) {
                    Some((rest, k)) => Some((seq![v] + rest, k)),
                    None => None,
                }
            } else {
                None
            },
            None => None,
        }
    }
}

/// After one array item: a comma brings the next item, a bracket ends
/// the array.
pub open spec fn spec_parse_items_after(s: Seq<char>, i: int, depth: nat) -> Option<
    (Seq<JsonModel>, int),
>
    decreases depth, s.len() - i, 2int,
{
    if i < 0 || i >= s.len() {
        None
    } else if is_ws(s[i]) {
        spec_parse_items_after(s, i + 1, depth)
    } else if s[i] == ']' {
        Some((Seq::empty(), i + 1))
    } else if s[i] == ',' {
        match spec_parse_value(s, i + 1, depth) {
            Some((v, j)) => if i < j && j <= s.len() {
                match spec_parse_items_after(s, j, depth) {
                    Some((rest, k)) => Some((seq![v] + rest, k)),
                    None => None,
                }
            } else {
                None
            },
            None => None,
        }
    } else {
        None
    }
}

/// Reads the members of an object from just after `{`: either a closing
/// brace at once, or a first `"key": value` pair.
pub open spec fn spec_parse_members_first(s: Seq<char>, i: int, depth: nat) -> Option<
    (Seq<(Seq<char>, JsonModel)>, int),
>
    decreases depth, s.len() - i, 2int,
{
    if i < 0 || i >= s.len() {
        None
    } else if is_ws(s[i]) {
        spec_parse_members_first(s, i + 1, depth)
    } else if s[i] == '}' {
        Some((Seq::empty(), i + 1))
    } else if s[i] == '"' {
        match spec_parse_string_rest(s, i + 1) {
            Some((key, j)) => if i < j && j <= s.len() {
                spec_parse_member_value(s, j, depth, key)
            } else {
                None
            },
            None => None,
        }
    } else {
        None
    }
}

/// After a member key: a colon, then the member's value, then the rest
/// of the object.
pub open spec fn spec_parse_member_value(
    s: Seq<char>,
    i: int,
    depth: nat,
    key: Seq<char>,
) -> Option<(Seq<(Seq<char>, JsonModel)>, int)>
    decreases depth, s.len() - i, 1int,
{
    if i < 0 || i >= s.len() {
        None
    } else if is_ws(s[i]) {
        spec_parse_member_value(s, i + 1, depth, key)
    } else if s[i] == ':' {
        match spec_parse_value(s, i + 1, depth) {
            Some((v, j)) => if i < j && j <= s.len() {
                match spec_parse_members_after(s, j, depth) {
                    Some((rest, k)) => Some((seq![(key, v)] + rest, k)),
                    None => None,
                }
            } else {
                None
            },
            None => None,
        }
    } else {
        None
    }
}

/// After one member: a comma brings the next key, a brace ends the
/// object.
pub open spec fn spec_parse_members_after(s: Seq<char>, i: int, depth: nat) -> Option<
    (Seq<(Seq<char>, JsonModel)>, int),
>
    decreases depth, s.len() - i, 2int,
{
    if i < 0 || i >= s.len() {
        None
    } else if is_ws(s[i]) {
        spec_parse_members_after(s, i + 1, depth)
    } else if s[i] == '}' {
        Some((Seq::empty(), i + 1))
    } else if s[i] == ',' {
        spec_parse_members_key(s, i + 1, depth)
    } else {
        None
    }
}

/// The key of a further member, after a comma.
pub open spec fn spec_parse_members_key(s: Seq<char>, i: int, depth: nat) -> Option<
    (Seq<(Seq<char>, JsonModel)>, int),
>
    decreases depth, s.len() - i, 1int,
{
    if i < 0 || i >= s.len() {
        None
    } else if is_ws(s[i]) {
        spec_parse_members_key(s, i + 1, depth)
    } else if s[i] == '"' {
        match spec_parse_string_rest(s, i + 1) {
            Some((key, j)) => if i < j && j <= s.len() {
                spec_parse_member_value(s, j, depth, key)
            } else {
                None
            },
            None => None,
        }
    } else {
        None
    }
}

/// The model of a whole JSON text: one value, surrounded only by
/// whitespace.
pub open spec fn spec_parse_text(s: Seq<char>) -> Option<JsonModel> {
    match spec_parse_value(s, 0, MAX_DEPTH as nat) {
        Some((v, j)) => if all_ws_from(s, j) {
            Some(v)
        } else {
            None
        },
        None => None,
    }
}


// ------------------------------------------------------------------
// the exec reader, proved to return exactly the model above

pub proof fn lemma_lit_at_chars(s: Seq<char>, i: int, lit: Seq<char>)
    requires
        lit_at(s, i, lit),
    ensures
        forall|k: int| 0 <= k < lit.len() ==> s[i + k] == lit[k],
{
    assert forall|k: int| 0 <= k < lit.len() implies s[i + k] == lit[k] by {
        assert(s.subrange(i, i + lit.len())[k] == s[i + k]);
    }
}

pub proof fn lemma_digits_val_prefix(ds: Seq<char>, k: int)
    requires
        0 <= k <= ds.len(),
    ensures
        digits_val(ds.take(k)) <= digits_val(ds),
    decreases ds.len(),
{
    if k < ds.len() {
        assert(ds.drop_last().take(k) =~= ds.take(k));
        lemma_digits_val_prefix(ds.drop_last(), k);
    } else {
        assert(ds.take(k) =~= ds);
    }
}

/// The first position at or after `i` without a decimal digit.
fn scan_digits_exec(s: &Vec<char>, i: usize) -> (r: usize)
    requires
        i <= s@.len(),
    ensures
        r as int == scan_digits(s@, i as int),
        i <= r <= s@.len(),
{
    let mut j = i;
    while j < s.len() && 48 <= s[j] as u32 && s[j] as u32 <= 57
        invariant
            i <= j <= s@.len(),
            scan_digits(s@, i as int) == scan_digits(s@, j as int),
        decreases s@.len() - j,
    {
        j = j + 1;
    }
    j
}

pub proof fn lemma_hex_digit_bound(c: char)
    requires
        is_hex_digit(c),
    ensures
        hex_digit_of(c) <= 15,
{
}

/// One hexadecimal digit, as a number.
fn hex_digit_val(c: char) -> (r: Option<u32>)
    ensures
        r is Some <==> is_hex_digit(c),
        r matches Some(d) ==> d == hex_digit_of(c) && d <= 15,
{
    let u = c as u32;
    if 48 <= u && u <= 57 {
        Some(u - 48)
    } else if 97 <= u && u <= 102 {
        Some(u - 87)
    } else if 65 <= u && u <= 70 {
        Some(u - 55)
    } else {
        None
    }
}

/// Four hexadecimal digits at `i`, as a number, if they are there.
fn read_hex4(s: &Vec<char>, i: usize) -> (r: Option<u32>)
    requires
        i <= s@.len(),
    ensures
        r is Some <==> hex4_at(s@, i as int),
        r matches Some(h) ==> h == hex4_val(s@, i as int) && h <= 0xFFFF,
{
    if s.len() - i < 4 {
        return None;
    }
    let d0 = match hex_digit_val(s[i]) {
        Some(d) => d,
        None => {
            return None;
        },
    };
    let d1 = match hex_digit_val(s[i + 1]) {
        Some(d) => d,
        None => {
            return None;
        },
    };
    let d2 = match hex_digit_val(s[i + 2]) {
        Some(d) => d,
        None => {
            return None;
        },
    };
    let d3 = match hex_digit_val(s[i + 3]) {
        Some(d) => d,
        None => {
            return None;
        },
    };
    Some(((d0 * 16 + d1) * 16 + d2) * 16 + d3)
}

/// The character for a single-character escape.
fn escape_char_exec(e: char) -> (r: Option<char>)
    ensures
        r == escape_char(e),
{
    if e == '"' {
        Some('"')
    } else if e == '\\' {
        Some('\\')
    } else if e == '/' {
        Some('/')
    } else if e == 'b' {
        match char_from_u32(8) {
            Some(c) => Some(c),
            None => {
                proof {
                    assert(false);
                }
                None
            },
        }
    } else if e == 'f' {
        match char_from_u32(12) {
            Some(c) => Some(c),
            None => {
                proof {
                    assert(false);
                }
                None
            },
        }
    } else if e == 'n' {
        Some('\n')
    } else if e == 'r' {
        Some('\r')
    } else if e == 't' {
        Some('\t')
    } else {
        None
    }
}

/// Reads the rest of a JSON string from just after the opening quote.
fn parse_string_rest(s: &Vec<char>, i: usize) -> (r: Option<(String, usize)>)
    requires
        i <= s@.len(),
    ensures
        (match r {
            Some((t, j)) => spec_parse_string_rest(s@, i as int) == Some((t@, j as int)) && i < j
                <= s@.len(),
            None => spec_parse_string_rest(s@, i as int) is None,
        }),
{
    let mut acc: Vec<char> = Vec::new();
    let mut pos = i;
    proof {
        assert(spec_parse_string_rest(s@, i as int) matches Some(p) ==> Seq::<char>::empty() + p.0
            =~= p.0);
    }
    loop
        invariant
            i <= pos <= s@.len(),
            (match spec_parse_string_rest(s@, pos as int) {
                Some(p) => spec_parse_string_rest(s@, i as int) == Some((acc@ + p.0, p.1)),
                None => spec_parse_string_rest(s@, i as int) is None,
            }),
        decreases s@.len() - pos,
    {
        if pos >= s.len() {
            return None;
        }
        let c = s[pos];
        if c == '"' {
            let out = chars_to_string(&acc);
            proof {
                assert(acc@ + Seq::<char>::empty() =~= acc@);
            }
            return Some((out, pos + 1));
        } else if c == '\\' {
            if s.len() - pos < 2 {
                return None;
            }
            let e = s[pos + 1];
            if e == 'u' {
                match read_hex4(s, pos + 2) {
                    None => {
                        return None;
                    },
                    Some(cp) => {
                        if 0xD800 <= cp && cp <= 0xDBFF {
                            if s.len() - pos >= 12 && s[pos + 6] == '\\' && s[pos + 7] == 'u' {
                                match read_hex4(s, pos + 8) {
                                    Some(lo) => {
                                        if 0xDC00 <= lo && lo <= 0xDFFF {
                                            let v: u32 = 0x10000 + (cp - 0xD800) * 0x400 + (lo
                                                - 0xDC00);
                                            match char_from_u32(v) {
                                                Some(ch) => {
                                                    proof {
                                                        step_string_acc(s@, i as int, pos as int, acc@, ch, pos as int + 12);
                                                    }
                                                    acc.push(ch);
                                                    pos = pos + 12;
                                                },
                                                None => {
                                                    proof {
                                                        assert(false);
                                                    }
                                                    return None;
                                                },
                                            }
                                        } else {
                                            return None;
                                        }
                                    },
                                    None => {
                                        return None;
                                    },
                                }
                            } else {
                                return None;
                            }
                        } else if 0xDC00 <= cp && cp <= 0xDFFF {
                            return None;
                        } else {
                            match char_from_u32(cp) {
                                Some(ch) => {
                                    proof {
                                        step_string_acc(s@, i as int, pos as int, acc@, ch, pos as int + 6);
                                    }
                                    acc.push(ch);
                                    pos = pos + 6;
                                },
                                None => {
                                    proof {
                                        assert(false);
                                    }
                                    return None;
                                },
                            }
                        }
                    },
                }
            } else {
                match escape_char_exec(e) {
                    Some(ch) => {
                        proof {
                            step_string_acc(s@, i as int, pos as int, acc@, ch, pos as int + 2);
                        }
                        acc.push(ch);
                        pos = pos + 2;
                    },
                    None => {
                        return None;
                    },
                }
            }
        } else if (c as u32) < 0x20 {
            return None;
        } else {
            proof {
                step_string_acc(s@, i as int, pos as int, acc@, c, pos as int + 1);
            }
            acc.push(c);
            pos = pos + 1;
        }
    }
}

/// A parsed string never ends before the position it starts at.
proof fn lemma_string_rest_bounds(s: Seq<char>, i: int)
    ensures
        (match spec_parse_string_rest(s, i) {
            Some(p) => i < p.1 <= s.len(),
            None => true,
        }),
    decreases s.len() - i,
{
    if 0 <= i < s.len() {
        let c = s[i];
        if c == '\\' && i + 1 < s.len() {
            if i + 2 <= s.len() {
                lemma_string_rest_bounds(s, i + 2);
            }
            if i + 6 <= s.len() {
                lemma_string_rest_bounds(s, i + 6);
            }
            if i + 12 <= s.len() {
                lemma_string_rest_bounds(s, i + 12);
            }
        } else {
            lemma_string_rest_bounds(s, i + 1);
        }
    }
}

/// One consumed character extends the accumulated content.
proof fn step_string_acc(s: Seq<char>, i: int, pos: int, acc: Seq<char>, ch: char, next: int)
    requires
        (match spec_parse_string_rest(s, pos) {
            Some(p) => spec_parse_string_rest(s, i) == Some((acc + p.0, p.1)),
            None => spec_parse_string_rest(s, i) is None,
        }),
        (match spec_parse_string_rest(s, next) {
            Some(q) => spec_parse_string_rest(s, pos) == Some((seq![ch] + q.0, q.1)),
            None => spec_parse_string_rest(s, pos) is None,
        }),
    ensures
        (match spec_parse_string_rest(s, next) {
            Some(q) => spec_parse_string_rest(s, i) == Some((acc.push(ch) + q.0, q.1)),
            None => spec_parse_string_rest(s, i) is None,
        }),
{
    match spec_parse_string_rest(s, next) {
        Some(q) => {
            assert(acc + (seq![ch] + q.0) =~= acc.push(ch) + q.0);
        },
        None => {},
    }
}



/// Copies the characters `a..b`.
pub fn copy_range(s: &Vec<char>, a: usize, b: usize) -> (r: Vec<char>)
    requires
        a <= b <= s@.len(),
    ensures
        r@ == s@.subrange(a as int, b as int),
{
    let mut r: Vec<char> = Vec::new();
    let mut m = a;
    while m < b
        invariant
            a <= m <= b <= s@.len(),
            r@ == s@.subrange(a as int, m as int),
        decreases b - m,
    {
        r.push(s[m]);
        m = m + 1;
        proof {
            assert(r@ =~= s@.subrange(a as int, m as int));
        }
    }
    r
}

pub proof fn lemma_models_push(items: Seq<JsonValue>, v: JsonValue)
    ensures
        models_of(items.push(v)) == models_of(items) + seq![jv_view(v)],
{
    assert(models_of(items.push(v)) =~= models_of(items) + seq![jv_view(v)]);
}

pub proof fn lemma_entry_models_push(entries: Seq<(String, JsonValue)>, key: String, v: JsonValue)
    ensures
        entry_models_of(entries.push((key, v))) == entry_models_of(entries) + seq![
            (key@, jv_view(v)),
        ],
{
    assert(entry_models_of(entries.push((key, v))) =~= entry_models_of(entries) + seq![
        (key@, jv_view(v)),
    ]);
}

/// Reads a number from `i`.
#[verifier::rlimit(60)]
fn parse_number(s: &Vec<char>, i: usize) -> (r: Option<(JsonValue, usize)>)
    requires
        i <= s@.len(),
    ensures
        (match r {
            Some((v, j)) => spec_parse_number(s@, i as int) == Some((jv_view(v), j as int)) && i
                < j <= s@.len(),
            None => spec_parse_number(s@, i as int) is None,
        }),
{
    let neg = i < s.len() && s[i] == '-';
    let j0 = if neg {
        i + 1
    } else {
        i
    };
    if j0 >= s.len() {
        return None;
    }
    let c0 = s[j0];
    if !(48 <= c0 as u32 && c0 as u32 <= 57) {
        return None;
    }
    let j1 = if c0 == '0' {
        j0 + 1
    } else {
        scan_digits_exec(s, j0)
    };
    proof {
        lemma_scan_digits(s@, j0 as int);
        assert(scan_digits(s@, j0 as int) > j0 as int);
        assert(forall|t: int| j0 <= t < j1 ==> is_digit(#[trigger] s@[t]));
    }
    let has_frac = j1 < s.len() && s[j1] == '.' && j1 + 1 < s.len() && 48 <= s[j1 + 1] as u32
        && s[j1 + 1] as u32 <= 57;
    let j2 = if has_frac {
        scan_digits_exec(s, j1 + 1)
    } else {
        j1
    };
    let has_e = j2 < s.len() && (s[j2] == 'e' || s[j2] == 'E');
    let mut has_exp = false;
    let mut j3 = j2;
    if has_e {
        let k = if j2 + 1 < s.len() && (s[j2 + 1] == '+' || s[j2 + 1] == '-') {
            j2 + 2
        } else {
            j2 + 1
        };
        if k < s.len() && 48 <= s[k] as u32 && s[k] as u32 <= 57 {
            has_exp = true;
            j3 = scan_digits_exec(s, k);
            proof {
                lemma_scan_digits(s@, k as int);
            }
        }
    }
    if !neg && !has_frac && !has_exp {
        let ghost ds = s@.subrange(j0 as int, j1 as int);
        let mut acc: u64 = 0;
        let mut over = false;
        let mut k = j0;
        proof {
            assert(s@.subrange(j0 as int, j0 as int) =~= Seq::<char>::empty());
        }
        while k < j1
            invariant
                j0 <= k <= j1 <= s@.len(),
                forall|t: int| j0 <= t < j1 ==> is_digit(#[trigger] s@[t]),
                !over ==> acc == digits_val(s@.subrange(j0 as int, k as int)),
                over ==> digits_val(s@.subrange(j0 as int, k as int)) > u64::MAX,
            decreases j1 - k,
        {
            let c = s[k];
            let d = (c as u32 - 48) as u64;
            proof {
                assert(s@.subrange(j0 as int, k as int + 1).drop_last() =~= s@.subrange(
                    j0 as int,
                    k as int,
                ));
                assert(s@.subrange(j0 as int, k as int + 1).last() == s@[k as int]);
            }
            if over {
                proof {
                    assert(digits_val(s@.subrange(j0 as int, k as int + 1)) > u64::MAX);
                }
            } else {
                let lim = (u64::MAX - d) / 10;
                proof {
                    vstd::arithmetic::div_mod::lemma_fundamental_div_mod(
                        (u64::MAX - d) as int,
                        10,
                    );
                }
                if acc > lim {
                    over = true;
                } else {
                    acc = acc * 10 + d;
                }
            }
            k = k + 1;
        }
        proof {
            assert(s@.subrange(j0 as int, j1 as int) == ds);
        }
        if over {
            let t = chars_to_string(&copy_range(s, i, j1));
            Some((JsonValue::NumOther(t), j1))
        } else {
            Some((JsonValue::UInt(acc), j1))
        }
    } else {
        let t = chars_to_string(&copy_range(s, i, j3));
        Some((JsonValue::NumOther(t), j3))
    }
}

/// Reads one JSON value from at or after `i`.
#[verifier::rlimit(60)]
fn parse_value(s: &Vec<char>, i: usize, depth: u32) -> (r: Option<(JsonValue, usize)>)
    requires
        i <= s@.len(),
    ensures
        (match r {
            Some((v, j)) => spec_parse_value(s@, i as int, depth as nat) == Some(
                (jv_view(v), j as int),
            ) && i < j <= s@.len(),
            None => spec_parse_value(s@, i as int, depth as nat) is None,
        }),
    decreases depth, 0int,
{
    let mut pos = i;
    while pos < s.len() && (s[pos] == ' ' || s[pos] == '\t' || s[pos] == '\n' || s[pos] == '\r')
        invariant
            i <= pos <= s@.len(),
            spec_parse_value(s@, i as int, depth as nat) == spec_parse_value(
                s@,
                pos as int,
                depth as nat,
            ),
        decreases s@.len() - pos,
    {
        pos = pos + 1;
    }
    if pos >= s.len() {
        return None;
    }
    let c = s[pos];
    if c == 'n' {
        if s.len() - pos >= 4 && s[pos + 1] == 'u' && s[pos + 2] == 'l' && s[pos + 3] == 'l' {
            proof {
                reveal_strlit("null");
                assert(s@.subrange(pos as int, pos as int + 4) =~= "null"@);
            }
            Some((JsonValue::Null, pos + 4))
        } else {
            proof {
                reveal_strlit("null");
                if lit_at(s@, pos as int, "null"@) {
                    lemma_lit_at_chars(s@, pos as int, "null"@);
                    assert(s@[pos as int + 0] == "null"@[0]);
                    assert(s@[pos as int + 1] == "null"@[1]);
                    assert(s@[pos as int + 2] == "null"@[2]);
                    assert(s@[pos as int + 3] == "null"@[3]);
                    assert(false);
                }
            }
            None
        }
    } else if c == 't' {
        if s.len() - pos >= 4 && s[pos + 1] == 'r' && s[pos + 2] == 'u' && s[pos + 3] == 'e' {
            proof {
                reveal_strlit("true");
                assert(s@.subrange(pos as int, pos as int + 4) =~= "true"@);
            }
            Some((JsonValue::Bool(true), pos + 4))
        } else {
            proof {
                reveal_strlit("true");
                if lit_at(s@, pos as int, "true"@) {
                    lemma_lit_at_chars(s@, pos as int, "true"@);
                    assert(s@[pos as int + 0] == "true"@[0]);
                    assert(s@[pos as int + 1] == "true"@[1]);
                    assert(s@[pos as int + 2] == "true"@[2]);
                    assert(s@[pos as int + 3] == "true"@[3]);
                    assert(false);
                }
            }
            None
        }
    } else if c == 'f' {
        if s.len() - pos >= 5 && s[pos + 1] == 'a' && s[pos + 2] == 'l' && s[pos + 3] == 's' && s[
            pos + 4] == 'e' {
            proof {
                reveal_strlit("false");
                assert(s@.subrange(pos as int, pos as int + 5) =~= "false"@);
            }
            Some((JsonValue::Bool(false), pos + 5))
        } else {
            proof {
                reveal_strlit("false");
                if lit_at(s@, pos as int, "false"@) {
                    lemma_lit_at_chars(s@, pos as int, "false"@);
                    assert(s@[pos as int + 0] == "false"@[0]);
                    assert(s@[pos as int + 1] == "false"@[1]);
                    assert(s@[pos as int + 2] == "false"@[2]);
                    assert(s@[pos as int + 3] == "false"@[3]);
                    assert(s@[pos as int + 4] == "false"@[4]);
                    assert(false);
                }
            }
            None
        }
    } else if c == '"' {
        match parse_string_rest(s, pos + 1) {
            Some((t, j)) => Some((JsonValue::Str(t), j)),
            None => None,
        }
    } else if c == '[' {
        if depth == 0 {
            None
        } else {
            match parse_items(s, pos + 1, depth - 1) {
                Some((items, j)) => {
                    proof {
                        lemma_jv_view_arr(items);
                    }
                    Some((JsonValue::Arr(items), j))
                },
                None => None,
            }
        }
    } else if c == '{' {
        if depth == 0 {
            None
        } else {
            match parse_members(s, pos + 1, depth - 1) {
                Some((entries, j)) => {
                    proof {
                        lemma_jv_view_obj(entries);
                    }
                    Some((JsonValue::Obj(entries), j))
                },
                None => None,
            }
        }
    } else if c == '-' || (48 <= c as u32 && c as u32 <= 57) {
        parse_number(s, pos)
    } else {
        None
    }
}

/// Reads the items of an array from just after `[`.
fn parse_items(s: &Vec<char>, i: usize, depth: u32) -> (r: Option<(Vec<JsonValue>, usize)>)
    requires
        i <= s@.len(),
    ensures
        (match r {
            Some((items, j)) => spec_parse_items_first(s@, i as int, depth as nat) == Some(
                (models_of(items@), j as int),
            ) && i < j <= s@.len(),
            None => spec_parse_items_first(s@, i as int, depth as nat) is None,
        }),
    decreases depth, 1int,
{
    let mut acc: Vec<JsonValue> = Vec::new();
    let mut pos = i;
    let mut first = true;
    loop
        invariant
            i <= pos <= s@.len(),
            first ==> acc@.len() == 0 && spec_parse_items_first(s@, i as int, depth as nat)
                == spec_parse_items_first(s@, pos as int, depth as nat),
            !first ==> i < pos && (match spec_parse_items_after(s@, pos as int, depth as nat) {
                Some(p) => spec_parse_items_first(s@, i as int, depth as nat) == Some(
                    (models_of(acc@) + p.0, p.1),
                ),
                None => spec_parse_items_first(s@, i as int, depth as nat) is None,
            }),
        decreases s@.len() - pos,
    {
        if pos >= s.len() {
            return None;
        }
        let c = s[pos];
        if c == ' ' || c == '\t' || c == '\n' || c == '\r' {
            pos = pos + 1;
        } else if c == ']' {
            proof {
                assert(models_of(acc@) + Seq::<JsonModel>::empty() =~= models_of(acc@));
                assert(models_of(acc@).len() == acc@.len());
                if first {
                    assert(models_of(acc@) =~= Seq::<JsonModel>::empty());
                }
            }
            return Some((acc, pos + 1));
        } else if first {
            match parse_value(s, pos, depth) {
                None => {
                    return None;
                },
                Some((v, j)) => {
                    proof {
                        lemma_models_push(acc@, v);
                        assert(spec_parse_items_after(s@, j as int, depth as nat) matches Some(p)
                            ==> models_of(acc@.push(v)) + p.0 =~= seq![jv_view(v)] + p.0);
                    }
                    acc.push(v);
                    pos = j;
                    first = false;
                },
            }
        } else if c == ',' {
            match parse_value(s, pos + 1, depth) {
                None => {
                    return None;
                },
                Some((v, j)) => {
                    proof {
                        lemma_models_push(acc@, v);
                        assert(spec_parse_items_after(s@, j as int, depth as nat) matches Some(p)
                            ==> models_of(acc@) + (seq![jv_view(v)] + p.0) =~= models_of(
                            acc@.push(v),
                        ) + p.0);
                    }
                    acc.push(v);
                    pos = j;
                },
            }
        } else {
            return None;
        }
    }
}

/// Reads the members of an object from just after `{`.
fn parse_members(s: &Vec<char>, i: usize, depth: u32) -> (r: Option<
    (Vec<(String, JsonValue)>, usize),
>)
    requires
        i <= s@.len(),
    ensures
        (match r {
            Some((entries, j)) => spec_parse_members_first(s@, i as int, depth as nat) == Some(
                (entry_models_of(entries@), j as int),
            ) && i < j <= s@.len(),
            None => spec_parse_members_first(s@, i as int, depth as nat) is None,
        }),
    decreases depth, 1int,
{
    let mut acc: Vec<(String, JsonValue)> = Vec::new();
    let mut pos = i;
    let mut first = true;
    loop
        invariant
            i <= pos <= s@.len(),
            first ==> acc@.len() == 0 && spec_parse_members_first(s@, i as int, depth as nat)
                == spec_parse_members_first(s@, pos as int, depth as nat),
            !first ==> i < pos && (match spec_parse_members_after(s@, pos as int, depth as nat) {
                Some(p) => spec_parse_members_first(s@, i as int, depth as nat) == Some(
                    (entry_models_of(acc@) + p.0, p.1),
                ),
                None => spec_parse_members_first(s@, i as int, depth as nat) is None,
            }),
        decreases s@.len() - pos,
    {
        if pos >= s.len() {
            return None;
        }
        let c = s[pos];
        if c == ' ' || c == '\t' || c == '\n' || c == '\r' {
            pos = pos + 1;
        } else if c == '}' {
            proof {
                assert(entry_models_of(acc@) + Seq::<(Seq<char>, JsonModel)>::empty()
                    =~= entry_models_of(acc@));
                if first {
                    assert(entry_models_of(acc@) =~= Seq::<(Seq<char>, JsonModel)>::empty());
                }
            }
            return Some((acc, pos + 1));
        } else if first {
            if c != '"' {
                return None;
            }
            match parse_string_rest(s, pos + 1) {
                None => {
                    return None;
                },
                Some((key, j)) => {
                    let mut q = j;
                    while q < s.len() && (s[q] == ' ' || s[q] == '\t' || s[q] == '\n' || s[q]
                        == '\r')
                        invariant
                            j <= q <= s@.len(),
                            spec_parse_member_value(s@, j as int, depth as nat, key@)
                                == spec_parse_member_value(s@, q as int, depth as nat, key@),
                        decreases s@.len() - q,
                    {
                        q = q + 1;
                    }
                    if q >= s.len() || s[q] != ':' {
                        return None;
                    }
                    match parse_value(s, q + 1, depth) {
                        None => {
                            return None;
                        },
                        Some((v, jv)) => {
                            proof {
                                lemma_entry_models_push(acc@, key, v);
                                assert(spec_parse_members_after(s@, jv as int, depth as nat)
                                    matches Some(p) ==> entry_models_of(acc@.push((key, v))) + p.0
                                    =~= seq![(key@, jv_view(v))] + p.0);
                            }
                            acc.push((key, v));
                            pos = jv;
                            first = false;
                        },
                    }
                },
            }
        } else if c == ',' {
            let mut r = pos + 1;
            while r < s.len() && (s[r] == ' ' || s[r] == '\t' || s[r] == '\n' || s[r] == '\r')
                invariant
                    pos + 1 <= r <= s@.len(),
                    spec_parse_members_key(s@, pos as int + 1, depth as nat)
                        == spec_parse_members_key(s@, r as int, depth as nat),
                decreases s@.len() - r,
            {
                r = r + 1;
            }
            if r >= s.len() || s[r] != '"' {
                return None;
            }
            match parse_string_rest(s, r + 1) {
                None => {
                    return None;
                },
                Some((key, j)) => {
                    let mut q = j;
                    while q < s.len() && (s[q] == ' ' || s[q] == '\t' || s[q] == '\n' || s[q]
                        == '\r')
                        invariant
                            j <= q <= s@.len(),
                            spec_parse_member_value(s@, j as int, depth as nat, key@)
                                == spec_parse_member_value(s@, q as int, depth as nat, key@),
                        decreases s@.len() - q,
                    {
                        q = q + 1;
                    }
                    if q >= s.len() || s[q] != ':' {
                        return None;
                    }
                    match parse_value(s, q + 1, depth) {
                        None => {
                            return None;
                        },
                        Some((v, jv)) => {
                            proof {
                                lemma_entry_models_push(acc@, key, v);
                                assert(spec_parse_members_after(s@, jv as int, depth as nat)
                                    matches Some(p) ==> entry_models_of(acc@) + (seq![
                                    (key@, jv_view(v)),
                                ] + p.0) =~= entry_models_of(acc@.push((key, v))) + p.0);
                            }
                            acc.push((key, v));
                            pos = jv;
                        },
                    }
                },
            }
        } else {
            return None;
        }
    }
}

/// Reads a whole JSON text: one value surrounded only by whitespace.
pub fn parse_json(text: &str) -> (r: Option<JsonValue>)
    ensures
        (match r {
            Some(v) => spec_parse_text(text@) == Some(jv_view(v)),
            None => spec_parse_text(text@) is None,
        }),
{
    let s = str_to_chars(text);
    match parse_value(&s, 0, MAX_DEPTH) {
        None => None,
        Some((v, j)) => {
            let mut k = j;
            while k < s.len() && (s[k] == ' ' || s[k] == '\t' || s[k] == '\n' || s[k] == '\r')
                invariant
                    j <= k <= s@.len(),
                    forall|t: int| j <= t < k ==> is_ws(#[trigger] s@[t]),
                decreases s@.len() - k,
            {
                k = k + 1;
            }
            if k == s.len() {
                proof {
                    assert(all_ws_from(s@, j as int));
                }
                Some(v)
            } else {
                proof {
                    assert(!is_ws(s@[k as int]));
                    assert(!all_ws_from(s@, j as int));
                }
                None
            }
        },
    }
}


} // verus!
