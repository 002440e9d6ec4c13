//! The JSON writer of the envelope codec.
//!
//! [`spec_ser_value`] defines the text written for a JSON model: strings
//! with the shortest usual escapes, numbers in plain decimal, arrays and
//! objects without insignificant whitespace.  The exec writer is proved
//! to produce exactly that text.

use vstd::prelude::*;
use crate::json::{JsonModel, JsonValue, entry_models_of, jv_view, lemma_jv_view_arr, lemma_jv_view_obj, models_of};
use crate::strutil::{chars_to_string, str_to_chars};

verus! {

broadcast use vstd::std_specs::vec::axiom_vec_index_decreases;

/// The character for one decimal digit value.
pub open spec fn digit_char(d: nat) -> char {
    ((48 + d) as u8) as char
}

/// The character for one hexadecimal digit value.
pub open spec fn hex_char(d: nat) -> char {
    if d < 10 {
        ((48 + d) as u8) as char
    } else {
        ((87 + d) as u8) as char
    }
}

/// The decimal writing of `n`, most significant digit first.
pub open spec fn spec_dec_u64(n: nat) -> Seq<char>
    decreases n,
{
    if n < 10 {
        seq![digit_char(n)]
    } else {
        spec_dec_u64(n / 10) + seq![digit_char(n % 10)]
    }
}

/// The writing of one string character: itself, a two-character escape,
/// or a `\u00..` escape for the remaining control characters.
pub open spec fn esc_char_ser(c: char) -> Seq<char> {
    if c == '"' {
        seq!['\\', '"']
    } else if c == '\\' {
        seq!['\\', '\\']
    } else if c == '\n' {
        seq!['\\', 'n']
    } else if c == '\r' {
        seq!['\\', 'r']
    } else if c == '\t' {
        seq!['\\', 't']
    } else if c as u32 == 8 {
        seq!['\\', 'b']
    } else if c as u32 == 12 {
        seq!['\\', 'f']
    } else if (c as u32) < 0x20 {
        seq!['\\', 'u', '0', '0', hex_char((c as u32 / 16) as nat), hex_char((c as u32 % 16) as nat)]
    } else {
        seq![c]
    }
}

/// The writing of a string's content.
pub open spec fn esc_chars(t: Seq<char>) -> Seq<char>
    decreases t.len(),
{
    if t.len() == 0 {
        Seq::empty()
    } else {
        esc_chars(t.drop_last()) + esc_char_ser(t.last())
    }
}

/// The writing of a whole JSON string, quotes included.
pub open spec fn ser_string(t: Seq<char>) -> Seq<char> {
    seq!['"'] + esc_chars(t) + seq!['"']
}

/// The text written for a JSON model.
pub open spec fn spec_ser_value(m: JsonModel) -> Seq<char>
    decreases m,
{
    match m {
        JsonModel::Null => "null"@,
        JsonModel::Bool(b) => if b {
            "true"@
        } else {
            "false"@
        },
        JsonModel::UInt(n) => spec_dec_u64(n as nat),
        JsonModel::NumOther(t) => t,
        JsonModel::Str(t) => ser_string(t),
        JsonModel::Arr(items) => seq!['['] + spec_ser_items(items) + seq![']'],
        JsonModel::Obj(entries) => seq!['{'] + spec_ser_members(entries) + seq!['}'],
    }
}

/// The comma-separated writings of array items.
pub open spec fn spec_ser_items(items: Seq<JsonModel>) -> Seq<char>
    decreases items,
{
    if items.len() == 0 {
        Seq::empty()
    } else if items.len() == 1 {
        spec_ser_value(items[0])
    } else {
        spec_ser_items(items.subrange(0, items.len() - 1)) + seq![','] + spec_ser_value(
            items.last(),
        )
    }
}

/// The comma-separated writings of object members.
pub open spec fn spec_ser_members(entries: Seq<(Seq<char>, JsonModel)>) -> Seq<char>
    decreases entries,
{
    if entries.len() == 0 {
        Seq::empty()
    } else if entries.len() == 1 {
        ser_string(entries[0].0) + seq![':'] + spec_ser_value(entries[0].1)
    } else {
        spec_ser_members(entries.subrange(0, entries.len() - 1)) + seq![','] + ser_string(
            entries.last().0,
        ) + seq![':'] + spec_ser_value(entries.last().1)
    }
}


// ------------------------------------------------------------------
// the exec writer, proved to produce exactly the text above

pub fn push_dec_u64(out: &mut Vec<char>, n: u64)
    ensures
        final(out)@ == old(out)@ + spec_dec_u64(n as nat),
    decreases n,
{
    if n < 10 {
        let c = ((48 + n) as u8) as char;
        out.push(c);
        proof {
            assert(final(out)@ =~= old(out)@ + spec_dec_u64(n as nat));
        }
    } else {
        proof {
            assert(n / 10 < n) by (nonlinear_arith)
                requires
                    n >= 10,
            ;
        }
        push_dec_u64(out, n / 10);
        let c = ((48 + n % 10) as u8) as char;
        out.push(c);
        proof {
            assert(final(out)@ =~= old(out)@ + spec_dec_u64(n as nat));
        }
    }
}

fn push_escaped_char(out: &mut Vec<char>, c: char)
    ensures
        final(out)@ == old(out)@ + esc_char_ser(c),
{
    if c == '"' {
        out.push('\\');
        out.push('"');
        proof {
            assert(final(out)@ =~= old(out)@ + esc_char_ser(c));
        }
    } else if c == '\\' {
        out.push('\\');
        out.push('\\');
        proof {
            assert(final(out)@ =~= old(out)@ + esc_char_ser(c));
        }
    } else if c == '\n' {
        out.push('\\');
        out.push('n');
        proof {
            assert(final(out)@ =~= old(out)@ + esc_char_ser(c));
        }
    } else if c == '\r' {
        out.push('\\');
        out.push('r');
        proof {
            assert(final(out)@ =~= old(out)@ + esc_char_ser(c));
        }
    } else if c == '\t' {
        out.push('\\');
        out.push('t');
        proof {
            assert(final(out)@ =~= old(out)@ + esc_char_ser(c));
        }
    } else if c as u32 == 8 {
        out.push('\\');
        out.push('b');
        proof {
            assert(final(out)@ =~= old(out)@ + esc_char_ser(c));
        }
    } else if c as u32 == 12 {
        out.push('\\');
        out.push('f');
        proof {
            assert(final(out)@ =~= old(out)@ + esc_char_ser(c));
        }
    } else if (c as u32) < 0x20 {
        let u = c as u32;
        out.push('\\');
        out.push('u');
        out.push('0');
        out.push('0');
        let hi = u / 16;
        let lo = u % 16;
        let hc = if hi < 10 {
            ((48 + hi) as u8) as char
        } else {
            ((87 + hi) as u8) as char
        };
        let lc = if lo < 10 {
            ((48 + lo) as u8) as char
        } else {
            ((87 + lo) as u8) as char
        };
        out.push(hc);
        out.push(lc);
        proof {
            assert(final(out)@ =~= old(out)@ + esc_char_ser(c));
        }
    } else {
        out.push(c);
        proof {
            assert(final(out)@ =~= old(out)@ + esc_char_ser(c));
        }
    }
}

fn push_json_string(out: &mut Vec<char>, t: &str)
    ensures
        final(out)@ == old(out)@ + ser_string(t@),
{
    let cs = str_to_chars(t);
    out.push('"');
    let mut k: usize = 0;
    proof {
        assert(t@.subrange(0, 0) =~= Seq::<char>::empty());
    }
    while k < cs.len()
        invariant
            k <= cs@.len(),
            cs@ == t@,
            out@ == old(out)@ + seq!['"'] + esc_chars(t@.subrange(0, k as int)),
        decreases cs@.len() - k,
    {
        proof {
            assert(t@.subrange(0, k as int + 1).drop_last() =~= t@.subrange(0, k as int));
            assert(t@.subrange(0, k as int + 1).last() == t@[k as int]);
        }
        push_escaped_char(out, cs[k]);
        k = k + 1;
    }
    out.push('"');
    proof {
        assert(t@.subrange(0, t@.len() as int) =~= t@);
        assert(final(out)@ =~= old(out)@ + ser_string(t@));
    }
}

/// Appends the literal characters of `t` (used for a number kept as text).
fn push_raw_str(out: &mut Vec<char>, t: &str)
    ensures
        final(out)@ == old(out)@ + t@,
{
    let cs = str_to_chars(t);
    let mut k: usize = 0;
    proof {
        assert(out@ =~= old(out)@ + t@.subrange(0, 0));
    }
    while k < cs.len()
        invariant
            k <= cs@.len(),
            cs@ == t@,
            out@ == old(out)@ + t@.subrange(0, k as int),
        decreases cs@.len() - k,
    {
        out.push(cs[k]);
        k = k + 1;
        proof {
            assert(out@ =~= old(out)@ + t@.subrange(0, k as int));
        }
    }
    proof {
        assert(t@.subrange(0, t@.len() as int) =~= t@);
    }
}

fn push_lit(out: &mut Vec<char>, a: char, b: char, c: char, d: char)
    ensures
        final(out)@ == old(out)@ + seq![a, b, c, d],
{
    out.push(a);
    out.push(b);
    out.push(c);
    out.push(d);
    proof {
        assert(final(out)@ =~= old(out)@ + seq![a, b, c, d]);
    }
}

fn ser_value_into(v: &JsonValue, out: &mut Vec<char>)
    ensures
        final(out)@ == old(out)@ + spec_ser_value(jv_view(*v)),
    decreases v,
{
    match v {
        JsonValue::Null => {
            push_lit(out, 'n', 'u', 'l', 'l');
            proof {
                reveal_strlit("null");
                assert(seq!['n', 'u', 'l', 'l'] =~= "null"@);
            }
        },
        JsonValue::Bool(b) => {
            if *b {
                push_lit(out, 't', 'r', 'u', 'e');
                proof {
                    reveal_strlit("true");
                    assert(seq!['t', 'r', 'u', 'e'] =~= "true"@);
                }
            } else {
                push_lit(out, 'f', 'a', 'l', 's');
                out.push('e');
                proof {
                    reveal_strlit("false");
                    assert(old(out)@ + seq!['f', 'a', 'l', 's'] + seq!['e'] =~= old(out)@
                        + "false"@);
                    assert(final(out)@ =~= old(out)@ + "false"@);
                }
            }
        },
        JsonValue::UInt(n) => {
            push_dec_u64(out, *n);
        },
        JsonValue::NumOther(t) => {
            push_raw_str(out, t.as_str());
        },
        JsonValue::Str(t) => {
            push_json_string(out, t.as_str());
        },
        JsonValue::Arr(items) => {
            let ghost ms = models_of(items@);
            proof {
                lemma_jv_view_arr(*items);
                assert(ms.subrange(0, 0) =~= Seq::<JsonModel>::empty());
            }
            out.push('[');
            let mut k: usize = 0;
            while k < items.len()
                invariant
                    *v == JsonValue::Arr(*items),
                    k <= items@.len(),
                    ms == models_of(items@),
                    ms.len() == items@.len(),
                    out@ == old(out)@ + seq!['['] + spec_ser_items(ms.subrange(0, k as int)),
                decreases items@.len() - k,
            {
                if k > 0 {
                    out.push(',');
                }
                proof {
                    assert(*v == JsonValue::Arr(*items));
                    assert(decreases_to!(*v => (*v)->Arr_0));
                    assert(decreases_to!(*v => *items));
                    assert(decreases_to!(*items => items@));
                    assert(decreases_to!(items@ => items@[k as int]));
                    assert(decreases_to!(*v => items@[k as int]));
                }
                ser_value_into(&items[k], out);
                proof {
                    assert(ms.subrange(0, k as int + 1).subrange(0, k as int) =~= ms.subrange(
                        0,
                        k as int,
                    ));
                    assert(ms.subrange(0, k as int + 1).last() == ms[k as int]);
                    assert(ms[k as int] == jv_view(items@[k as int]));
                    assert(out@ =~= old(out)@ + seq!['['] + spec_ser_items(
                        ms.subrange(0, k as int + 1),
                    ));
                }
                k = k + 1;
            }
            out.push(']');
            proof {
                assert(ms.subrange(0, ms.len() as int) =~= ms);
                assert(final(out)@ =~= old(out)@ + spec_ser_value(jv_view(*v)));
            }
        },
        JsonValue::Obj(entries) => {
            let ghost ms = entry_models_of(entries@);
            proof {
                lemma_jv_view_obj(*entries);
                assert(ms.subrange(0, 0) =~= Seq::<(Seq<char>, JsonModel)>::empty());
            }
            out.push('{');
            let mut k: usize = 0;
            while k < entries.len()
                invariant
                    *v == JsonValue::Obj(*entries),
                    k <= entries@.len(),
                    ms == entry_models_of(entries@),
                    ms.len() == entries@.len(),
                    out@ == old(out)@ + seq!['{'] + spec_ser_members(ms.subrange(0, k as int)),
                decreases entries@.len() - k,
            {
                if k > 0 {
                    out.push(',');
                }
                push_json_string(out, entries[k].0.as_str());
                out.push(':');
                proof {
                    assert(*v == JsonValue::Obj(*entries));
                    assert(decreases_to!(*v => (*v)->Obj_0));
                    assert(decreases_to!(*v => *entries));
                    assert(decreases_to!(*entries => entries@));
                    assert(decreases_to!(entries@ => entries@[k as int]));
                    assert(decreases_to!(entries@[k as int] => entries@[k as int].1));
                    assert(decreases_to!(*v => entries@[k as int].1));
                }
                ser_value_into(&entries[k].1, out);
                proof {
                    assert(ms.subrange(0, k as int + 1).subrange(0, k as int) =~= ms.subrange(
                        0,
                        k as int,
                    ));
                    assert(ms.subrange(0, k as int + 1).last() == ms[k as int]);
                    assert(ms[k as int] == (entries@[k as int].0@, jv_view(entries@[k as int].1)));
                    assert(out@ =~= old(out)@ + seq!['{'] + spec_ser_members(
                        ms.subrange(0, k as int + 1),
                    ));
                }
                k = k + 1;
            }
            out.push('}');
            proof {
                assert(ms.subrange(0, ms.len() as int) =~= ms);
                assert(final(out)@ =~= old(out)@ + spec_ser_value(jv_view(*v)));
            }
        },
    }
}

/// Writes a JSON tree as text.
pub fn json_to_string(v: &JsonValue) -> (r: String)
    ensures
        r@ == spec_ser_value(jv_view(*v)),
{
    let mut out: Vec<char> = Vec::new();
    ser_value_into(v, &mut out);
    chars_to_string(&out)
}



/// The decimal writing of `n`, as a string.
pub fn u64_dec_string(n: u64) -> (r: String)
    ensures
        r@ == spec_dec_u64(n as nat),
{
    let mut cs: Vec<char> = Vec::new();
    push_dec_u64(&mut cs, n);
    proof {
        assert(cs@ =~= spec_dec_u64(n as nat));
    }
    chars_to_string(&cs)
}



/// Writes one JSON string, quotes and escapes included.
pub fn json_string_text(t: &str) -> (r: String)
    ensures
        r@ == ser_string(t@),
{
    let mut out: Vec<char> = Vec::new();
    push_json_string(&mut out, t);
    proof {
        assert(out@ =~= ser_string(t@));
    }
    chars_to_string(&out)
}


} // verus!
