//! Character-level string helpers.
//!
//! Verus models a `&str` as a `Seq<char>`, so the exec functions here work
//! character by character through `unicode_len` and `get_char`.

use vstd::prelude::*;
use vstd::string::StrSliceExecFns;

verus! {

/// Copy the characters of a string slice into a vector.
pub fn str_to_chars(s: &str) -> (r: Vec<char>)
    ensures
        r@ == s@,
{
    let n = s.unicode_len();
    let mut r: Vec<char> = Vec::new();
    let mut i: usize = 0;
    while i < n
        invariant
            n == s@.len(),
            i <= n,
            r@ == s@.subrange(0, i as int),
        decreases n - i,
    {
        let c = s.get_char(i);
        r.push(c);
        i = i + 1;
        proof {
            assert(r@ =~= s@.subrange(0, i as int));
        }
    }
    proof {
        assert(r@ =~= s@);
    }
    r
}

/// Relies on `String as FromIterator<char>`: collecting an iterator of
/// characters yields the string of exactly those characters in order.
#[verifier::external_body]
pub fn chars_to_string(v: &Vec<char>) -> (r: String)
    ensures
        r@ == v@,
{
    v.iter().collect()
}

/// Relies on `char::from_u32`: the conversion succeeds exactly on Unicode
/// scalar values, and the character converts back to the same number.
#[verifier::external_body]
pub fn char_from_u32(v: u32) -> (r: Option<char>)
    ensures
        r is Some <==> (v < 0xD800 || (0xE000 <= v && v <= 0x10FFFF)),
        r matches Some(c) ==> c == v as char && c as u32 == v,
{
    char::from_u32(v)
}

/// Character-wise equality of two string slices.
pub fn str_eq(a: &str, b: &str) -> (r: bool)
    ensures
        r == (a@ == b@),
{
    let na = a.unicode_len();
    let nb = b.unicode_len();
    if na != nb {
        proof {
            assert(a@ != b@);
        }
        return false;
    }
    let mut i: usize = 0;
    while i < na
        invariant
            na == a@.len(),
            na == b@.len(),
            i <= na,
            forall|j: int| 0 <= j < i ==> a@[j] == b@[j],
        decreases na - i,
    {
        if a.get_char(i) != b.get_char(i) {
            proof {
                assert(a@[i as int] != b@[i as int]);
            }
            return false;
        }
        i = i + 1;
    }
    proof {
        assert(a@ =~= b@);
    }
    true
}


/// A Unicode whitespace character, as `str::trim` sees them.
pub open spec fn is_space(c: char) -> bool {
    ||| c == ' '
    ||| c == '\t'
    ||| c == '\n'
    ||| c == '\r'
    ||| c as u32 == 0x0B
    ||| c as u32 == 0x0C
    ||| c as u32 == 0x85
    ||| c as u32 == 0xA0
    ||| c as u32 == 0x1680
    ||| (0x2000 <= c as u32 && c as u32 <= 0x200A)
    ||| c as u32 == 0x2028
    ||| c as u32 == 0x2029
    ||| c as u32 == 0x202F
    ||| c as u32 == 0x205F
    ||| c as u32 == 0x3000
}

/// Every character is whitespace (so the trimmed text is empty).
pub open spec fn all_space(s: Seq<char>) -> bool {
    forall|k: int| 0 <= k < s.len() ==> is_space(#[trigger] s[k])
}

/// Whether one character is whitespace.
pub fn is_space_char(c: char) -> (r: bool)
    ensures
        r == is_space(c),
{
    let u = c as u32;
    u == 0x20 || u == 0x09 || u == 0x0A || u == 0x0D || u == 0x0B || u == 0x0C || u == 0x85 || u
        == 0xA0 || u == 0x1680 || (0x2000 <= u && u <= 0x200A) || u == 0x2028 || u == 0x2029 || u
        == 0x202F || u == 0x205F || u == 0x3000
}

/// Whether the string is empty once trimmed.
pub fn is_blank(s: &str) -> (r: bool)
    ensures
        r == all_space(s@),
{
    let cs = str_to_chars(s);
    let mut k: usize = 0;
    while k < cs.len()
        invariant
            k <= cs@.len(),
            cs@ == s@,
            forall|t: int| 0 <= t < k ==> is_space(#[trigger] s@[t]),
        decreases cs@.len() - k,
    {
        if !is_space_char(cs[k]) {
            proof {
                assert(!is_space(s@[k as int]));
            }
            return false;
        }
        k = k + 1;
    }
    true
}

/// The string without leading and trailing whitespace.
pub open spec fn spec_trim(s: Seq<char>) -> Seq<char> {
    if all_space(s) {
        Seq::empty()
    } else {
        let a = first_non_space(s, 0);
        let b = last_non_space(s);
        s.subrange(a, b + 1)
    }
}

/// The first index at or after `i` holding a non-whitespace character.
pub open spec fn first_non_space(s: Seq<char>, i: int) -> int
    decreases s.len() - i,
{
    if 0 <= i < s.len() {
        if is_space(s[i]) {
            first_non_space(s, i + 1)
        } else {
            i
        }
    } else {
        s.len() as int
    }
}

/// The last index holding a non-whitespace character.
pub open spec fn last_non_space(s: Seq<char>) -> int
    decreases s.len(),
{
    if s.len() == 0 {
        -1
    } else if is_space(s.last()) {
        last_non_space(s.drop_last())
    } else {
        s.len() - 1
    }
}

proof fn lemma_first_non_space(s: Seq<char>, i: int)
    requires
        0 <= i <= s.len(),
    ensures
        i <= first_non_space(s, i) <= s.len(),
        forall|t: int| i <= t < first_non_space(s, i) ==> is_space(#[trigger] s[t]),
        first_non_space(s, i) < s.len() ==> !is_space(s[first_non_space(s, i)]),
    decreases s.len() - i,
{
    if i < s.len() && is_space(s[i]) {
        lemma_first_non_space(s, i + 1);
    }
}

proof fn lemma_last_non_space(s: Seq<char>)
    ensures
        -1 <= last_non_space(s) < s.len(),
        forall|t: int| last_non_space(s) < t < s.len() ==> is_space(#[trigger] s[t]),
        last_non_space(s) >= 0 ==> !is_space(s[last_non_space(s)]),
        all_space(s) <==> last_non_space(s) == -1,
    decreases s.len(),
{
    if s.len() > 0 && is_space(s.last()) {
        lemma_last_non_space(s.drop_last());
        assert forall|t: int| last_non_space(s) < t < s.len() implies is_space(
            #[trigger] s[t],
        ) by {
            if t < s.len() - 1 {
                assert(s.drop_last()[t] == s[t]);
            }
        }
        if last_non_space(s) == -1 {
            assert forall|t: int| 0 <= t < s.len() implies is_space(#[trigger] s[t]) by {
                if t < s.len() - 1 {
                    assert(s.drop_last()[t] == s[t]);
                }
            }
        }
    }
}

/// Trims leading and trailing whitespace.
pub fn trim_chars(s: &str) -> (r: String)
    ensures
        r@ == spec_trim(s@),
{
    let cs = str_to_chars(s);
    proof {
        lemma_last_non_space(s@);
        lemma_first_non_space(s@, 0);
    }
    let mut a: usize = 0;
    while a < cs.len() && is_space_char(cs[a])
        invariant
            a <= cs@.len(),
            cs@ == s@,
            first_non_space(s@, 0) == first_non_space(s@, a as int),
        decreases cs@.len() - a,
    {
        a = a + 1;
    }
    if a == cs.len() {
        proof {
            assert(first_non_space(s@, 0) == s@.len());
            assert(all_space(s@)) by {
                lemma_first_non_space(s@, 0);
            }
        }
        return String::new();
    }
    let mut b: usize = cs.len();
    while b > a && is_space_char(cs[b - 1])
        invariant
            a < b <= cs@.len(),
            a < s@.len(),
            !is_space(s@[a as int]),
            cs@ == s@,
            forall|t: int| b <= t < s@.len() ==> is_space(#[trigger] s@[t]),
        decreases b,
    {
        b = b - 1;
        proof {
            if b == a {
                assert(false);
            }
        }
    }
    let part = crate::json_parse::copy_range(&cs, a, b);
    let r = chars_to_string(&part);
    proof {
        assert(!all_space(s@)) by {
            assert(!is_space(s@[a as int]));
        }
        assert(first_non_space(s@, 0) == a as int);
        assert(last_non_space(s@) == b - 1) by {
            lemma_last_non_space(s@);
            assert(!is_space(s@[b - 1]));
            if last_non_space(s@) > b - 1 {
                assert(is_space(s@[last_non_space(s@)]));
                assert(false);
            }
            if last_non_space(s@) < b - 1 {
                assert(is_space(s@[b - 1]));
                assert(false);
            }
        }
    }
    r
}


} // verus!
