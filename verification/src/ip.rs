//! Recognising IP literals and ports in text.
//!
//! The grammar is the usual one: a version-4 literal is four decimal
//! octets without leading zeros; a version-6 literal is hexadecimal
//! groups with at most one `::`, eight groups without it and at most
//! seven with it, an embedded version-4 tail counting as two; a port is
//! an optional plus sign and decimal digits up to 65535.

use vstd::prelude::*;
use crate::json_parse::{digits_val, is_digit, is_hex_digit, scan_digits};
use crate::strutil::str_to_chars;

verus! {

/// One decimal octet: one to three digits, no leading zero, at most
/// 255.
pub open spec fn octet_ok(s: Seq<char>) -> bool {
    &&& 1 <= s.len() <= 3
    &&& (forall|k: int| 0 <= k < s.len() ==> is_digit(#[trigger] s[k]))
    &&& (s.len() > 1 ==> s[0] != '0')
    &&& digits_val(s) <= 255
}

/// Reads one octet at `i`: its value and the position after it.
pub open spec fn spec_parse_octet(s: Seq<char>, i: int) -> Option<(nat, int)> {
    if 0 <= i < s.len() && is_digit(s[i]) {
        let j = scan_digits(s, i);
        if octet_ok(s.subrange(i, j)) {
            Some((digits_val(s.subrange(i, j)), j))
        } else {
            None
        }
    } else {
        None
    }
}

/// A version-4 literal: four octets joined by dots.
pub open spec fn spec_is_ipv4(s: Seq<char>) -> bool {
    match spec_parse_octet(s, 0) {
        Some((_, i)) => i < s.len() && s[i] == '.' && (match spec_parse_octet(s, i + 1) {
            Some((_, j)) => j < s.len() && s[j] == '.' && (match spec_parse_octet(s, j + 1) {
                Some((_, k)) => k < s.len() && s[k] == '.' && (match spec_parse_octet(s, k + 1) {
                    Some((_, l)) => l == s.len(),
                    None => false,
                }),
                None => false,
            }),
            None => false,
        }),
        None => false,
    }
}

/// The first position at or after `i` that does not hold a hexadecimal
/// digit.
pub open spec fn scan_hex(s: Seq<char>, i: int) -> int
    decreases s.len() - i,
{
    if 0 <= i < s.len() && is_hex_digit(s[i]) {
        scan_hex(s, i + 1)
    } else {
        i
    }
}

pub proof fn lemma_scan_hex(s: Seq<char>, i: int)
    requires
        0 <= i <= s.len(),
    ensures
        i <= scan_hex(s, i) <= s.len(),
    decreases s.len() - i,
{
    if i < s.len() && is_hex_digit(s[i]) {
        lemma_scan_hex(s, i + 1);
    }
}

/// The group count a finished literal may have.
pub open spec fn groups_ok(groups: int, seen_dc: bool) -> bool {
    if seen_dc {
        groups <= 7
    } else {
        groups == 8
    }
}

/// Reads the groups of a version-6 literal from `i` on, `groups` of
/// them already read, a `::` already seen iff `seen_dc`.
pub open spec fn spec_v6_tail(s: Seq<char>, i: int, groups: int, seen_dc: bool) -> bool
    decreases s.len() - i,
{
    if groups > 8 || i < 0 || i >= s.len() {
        false
    } else if spec_is_ipv4(s.subrange(i, s.len() as int)) {
        groups_ok(groups + 2, seen_dc)
    } else if is_hex_digit(s[i]) {
        let j = scan_hex(s, i);
        if j <= i || j > s.len() || j - i > 4 {
            false
        } else if j == s.len() {
            groups_ok(groups + 1, seen_dc)
        } else if s[j] == ':' {
            if j + 1 < s.len() && s[j + 1] == ':' {
                if seen_dc {
                    false
                } else if j + 2 == s.len() {
                    groups + 1 <= 7
                } else {
                    spec_v6_tail(s, j + 2, groups + 1, true)
                }
            } else {
                spec_v6_tail(s, j + 1, groups + 1, seen_dc)
            }
        } else {
            false
        }
    } else {
        false
    }
}

/// A version-6 literal.
pub open spec fn spec_is_ipv6(s: Seq<char>) -> bool {
    if s.len() >= 2 && s[0] == ':' && s[1] == ':' {
        if s.len() == 2 {
            true
        } else {
            spec_v6_tail(s, 2, 0, true)
        }
    } else {
        spec_v6_tail(s, 0, 0, false)
    }
}

/// Any IP literal.
pub open spec fn spec_is_ip(s: Seq<char>) -> bool {
    spec_is_ipv4(s) || spec_is_ipv6(s)
}

/// A port: an optional plus sign, then digits, value at most 65535.
pub open spec fn spec_parse_u16(s: Seq<char>) -> Option<u16> {
    let j0: int = if s.len() > 0 && s[0] == '+' {
        1
    } else {
        0
    };
    if j0 < s.len() && (forall|k: int| j0 <= k < s.len() ==> is_digit(#[trigger] s[k]))
        && digits_val(s.subrange(j0, s.len() as int)) <= 65535 {
        Some(digits_val(s.subrange(j0, s.len() as int)) as u16)
    } else {
        None
    }
}

// ------------------------------------------------------------------
// the exec recognisers

/// The first position at or after `i` without a decimal digit.
fn scan_digits_exec(s: &Vec<char>, i: usize) -> (r: usize)
    requires
        i <= s@.len(),
    ensures
        r as int == scan_digits(s@, i as int),
        i <= r <= s@.len(),
{
    let mut j = i;
    while j < s.len() && 48 <= s[j] as u32 && s[j] as u32 <= 57
        invariant
            i <= j <= s@.len(),
            scan_digits(s@, i as int) == scan_digits(s@, j as int),
        decreases s@.len() - j,
    {
        j = j + 1;
    }
    j
}

/// The first position at or after `i` without a hexadecimal digit.
fn scan_hex_exec(s: &Vec<char>, i: usize) -> (r: usize)
    requires
        i <= s@.len(),
    ensures
        r as int == scan_hex(s@, i as int),
        i <= r <= s@.len(),
{
    let mut j = i;
    while j < s.len() && ((48 <= s[j] as u32 && s[j] as u32 <= 57) || (97 <= s[j] as u32 && s[j]
        as u32 <= 102) || (65 <= s[j] as u32 && s[j] as u32 <= 70))
        invariant
            i <= j <= s@.len(),
            scan_hex(s@, i as int) == scan_hex(s@, j as int),
        decreases s@.len() - j,
    {
        j = j + 1;
    }
    j
}

pub proof fn lemma_digits_val_two(ds: Seq<char>)
    requires
        ds.len() <= 2,
        forall|k: int| 0 <= k < ds.len() ==> is_digit(#[trigger] ds[k]),
    ensures
        digits_val(ds) <= 99,
{
    if ds.len() == 1 {
        assert(ds.drop_last() =~= Seq::<char>::empty());
    } else if ds.len() == 2 {
        assert(ds.drop_last().drop_last() =~= Seq::<char>::empty());
        assert(ds.drop_last().last() == ds[0]);
        assert(digits_val(Seq::<char>::empty()) == 0);
        assert(digits_val(ds.drop_last()) <= 9);
    }
}

/// Reads one octet at `i`.
fn parse_octet(s: &Vec<char>, i: usize) -> (r: Option<(u8, usize)>)
    requires
        i <= s@.len(),
    ensures
        (match r {
            Some((v, j)) => spec_parse_octet(s@, i as int) == Some((v as nat, j as int)) && i < j
                <= s@.len(),
            None => spec_parse_octet(s@, i as int) is None,
        }),
{
    if i >= s.len() {
        return None;
    }
    let c = s[i];
    if !(48 <= c as u32 && c as u32 <= 57) {
        return None;
    }
    let j = scan_digits_exec(s, i);
    proof {
        crate::json_parse::lemma_scan_digits(s@, i as int);
    }
    if j - i > 3 {
        return None;
    }
    if j - i > 1 && c == '0' {
        return None;
    }
    let ghost ds = s@.subrange(i as int, j as int);
    let mut v: u32 = 0;
    let mut k = i;
    proof {
        assert(s@.subrange(i as int, i as int) =~= Seq::<char>::empty());
    }
    while k < j
        invariant
            i <= k <= j <= s@.len(),
            j - i <= 3,
            forall|t: int| i <= t < j ==> is_digit(#[trigger] s@[t]),
            v == digits_val(s@.subrange(i as int, k as int)),
            v <= 999,
        decreases j - k,
    {
        proof {
            assert(s@.subrange(i as int, k as int + 1).drop_last() =~= s@.subrange(
                i as int,
                k as int,
            ));
            assert(s@.subrange(i as int, k as int + 1).last() == s@[k as int]);
            lemma_digits_val_two(s@.subrange(i as int, k as int));
        }
        let d = s[k] as u32 - 48;
        v = v * 10 + d;
        k = k + 1;
    }
    if v > 255 {
        proof {
            assert(s@.subrange(i as int, j as int) == ds);
        }
        return None;
    }
    proof {
        assert(s@.subrange(i as int, j as int) == ds);
        assert(octet_ok(ds));
    }
    Some((v as u8, j))
}

/// A version-4 literal.
pub fn is_ipv4_chars(s: &Vec<char>) -> (r: bool)
    ensures
        r == spec_is_ipv4(s@),
{
    let o1 = match parse_octet(s, 0) {
        Some(p) => p,
        None => {
            return false;
        },
    };
    let i = o1.1;
    if i >= s.len() || s[i] != '.' {
        return false;
    }
    let o2 = match parse_octet(s, i + 1) {
        Some(p) => p,
        None => {
            return false;
        },
    };
    let j = o2.1;
    if j >= s.len() || s[j] != '.' {
        return false;
    }
    let o3 = match parse_octet(s, j + 1) {
        Some(p) => p,
        None => {
            return false;
        },
    };
    let k = o3.1;
    if k >= s.len() || s[k] != '.' {
        return false;
    }
    let o4 = match parse_octet(s, k + 1) {
        Some(p) => p,
        None => {
            return false;
        },
    };
    o4.1 == s.len()
}

/// Reads the groups of a version-6 literal.
fn v6_tail(s: &Vec<char>, i: usize, groups: u32, seen_dc: bool) -> (r: bool)
    requires
        i <= s@.len(),
    ensures
        r == spec_v6_tail(s@, i as int, groups as int, seen_dc),
    decreases s@.len() - i,
{
    if groups > 8 || i >= s.len() {
        return false;
    }
    let rest = crate::json_parse::copy_range(s, i, s.len());
    if is_ipv4_chars(&rest) {
        proof {
            assert(rest@ == s@.subrange(i as int, s@.len() as int));
        }
        return if seen_dc {
            groups + 2 <= 7
        } else {
            groups + 2 == 8
        };
    }
    let c = s[i];
    if !((48 <= c as u32 && c as u32 <= 57) || (97 <= c as u32 && c as u32 <= 102) || (65 <= c
        as u32 && c as u32 <= 70)) {
        return false;
    }
    let j = scan_hex_exec(s, i);
    proof {
        lemma_scan_hex(s@, i as int + 1);
    }
    if j - i > 4 {
        return false;
    }
    if j == s.len() {
        return if seen_dc {
            groups + 1 <= 7
        } else {
            groups + 1 == 8
        };
    }
    if s[j] != ':' {
        return false;
    }
    if j + 1 < s.len() && s[j + 1] == ':' {
        if seen_dc {
            false
        } else if j + 2 == s.len() {
            groups + 1 <= 7
        } else {
            v6_tail(s, j + 2, groups + 1, true)
        }
    } else {
        v6_tail(s, j + 1, groups + 1, seen_dc)
    }
}

/// A version-6 literal.
pub fn is_ipv6_chars(s: &Vec<char>) -> (r: bool)
    ensures
        r == spec_is_ipv6(s@),
{
    if s.len() >= 2 && s[0] == ':' && s[1] == ':' {
        if s.len() == 2 {
            true
        } else {
            v6_tail(s, 2, 0, true)
        }
    } else {
        v6_tail(s, 0, 0, false)
    }
}

/// Any IP literal.
pub fn is_ip_literal(s: &str) -> (r: bool)
    ensures
        r == spec_is_ip(s@),
{
    let cs = str_to_chars(s);
    let v4 = is_ipv4_chars(&cs);
    let v6 = is_ipv6_chars(&cs);
    v4 || v6
}

/// Reads a port.
pub fn parse_u16(s: &Vec<char>) -> (r: Option<u16>)
    ensures
        r == spec_parse_u16(s@),
{
    let j0: usize = if s.len() > 0 && s[0] == '+' {
        1
    } else {
        0
    };
    if j0 >= s.len() {
        return None;
    }
    let ghost whole = s@.subrange(j0 as int, s@.len() as int);
    let mut v: u64 = 0;
    let mut k = j0;
    proof {
        assert(s@.subrange(j0 as int, j0 as int) =~= Seq::<char>::empty());
    }
    while k < s.len()
        invariant
            j0 as int == (if s@.len() > 0 && s@[0] == '+' {
                1int
            } else {
                0int
            }),
            j0 <= k <= s@.len(),
            forall|t: int| j0 <= t < k ==> is_digit(#[trigger] s@[t]),
            (v <= 65535 && v == digits_val(s@.subrange(j0 as int, k as int))) || (v == 100000
                && digits_val(s@.subrange(j0 as int, k as int)) > 65535),
        decreases s@.len() - k,
    {
        let c = s[k];
        if !(48 <= c as u32 && c as u32 <= 57) {
            return None;
        }
        proof {
            assert(s@.subrange(j0 as int, k as int + 1).drop_last() =~= s@.subrange(
                j0 as int,
                k as int,
            ));
            assert(s@.subrange(j0 as int, k as int + 1).last() == s@[k as int]);
        }
        let d = (c as u32 - 48) as u64;
        v = v * 10 + d;
        if v > 65535 {
            v = 100000;
        }
        k = k + 1;
    }
    proof {
        assert(s@.subrange(j0 as int, s@.len() as int) == whole);
    }
    if v > 65535 {
        proof {
            assert(spec_parse_u16(s@) is None);
        }
        None
    } else {
        Some(v as u16)
    }
}

} // verus!
