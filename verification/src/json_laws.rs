//! Round-trip laws of the envelope codec: the reader returns exactly the
//! tree that the writer was given, for every null, unsigned-integer and
//! string model.  Those are the three shapes a request identifier can
//! take, so an identifier always survives the wire unchanged.

use vstd::prelude::*;
use crate::json::JsonModel;
use crate::json_parse::{
    MAX_DEPTH, all_ws_from, digit_of, digits_val, escape_char, hex4_at, hex4_val, hex_digit_of,
    is_digit, is_hex_digit, is_ws, lit_at, scan_digits, spec_parse_number, spec_parse_string_rest,
    spec_parse_text, spec_parse_value,
};
use crate::json_ser::{
    digit_char, esc_char_ser, esc_chars, hex_char, ser_string, spec_dec_u64, spec_ser_value,
};

verus! {

proof fn lemma_digit_char(d: nat)
    requires
        d < 10,
    ensures
        is_digit(digit_char(d)),
        digit_of(digit_char(d)) == d,
        digit_char(d) != '0' <==> d != 0,
{
}

proof fn lemma_hex_char(d: nat)
    requires
        d < 16,
    ensures
        is_hex_digit(hex_char(d)),
        hex_digit_of(hex_char(d)) == d,
{
}

/// Decimal writings hold only digits, at least one, and no leading zero
/// unless the number is a single digit.
proof fn lemma_dec_digits(n: nat)
    ensures
        spec_dec_u64(n).len() >= 1,
        forall|k: int| 0 <= k < spec_dec_u64(n).len() ==> is_digit(#[trigger] spec_dec_u64(n)[k]),
        n >= 10 ==> spec_dec_u64(n)[0] != '0' && spec_dec_u64(n).len() >= 2,
        n < 10 ==> spec_dec_u64(n) == seq![digit_char(n)],
        digits_val(spec_dec_u64(n)) == n,
    decreases n,
{
    assert(digits_val(Seq::<char>::empty()) == 0);
    if n < 10 {
        lemma_digit_char(n);
        assert(spec_dec_u64(n) == seq![digit_char(n)]);
        assert(spec_dec_u64(n).drop_last() =~= Seq::<char>::empty());
        assert(digits_val(spec_dec_u64(n)) == digits_val(Seq::<char>::empty()) * 10 + digit_of(
            digit_char(n),
        ));
    } else {
        lemma_dec_digits(n / 10);
        lemma_digit_char((n % 10) as nat);
        let pre = spec_dec_u64(n / 10);
        let whole = spec_dec_u64(n);
        assert(whole == pre + seq![digit_char((n % 10) as nat)]);
        assert(whole.drop_last() =~= pre);
        assert(whole.last() == digit_char((n % 10) as nat));
        assert(digits_val(whole) == digits_val(pre) * 10 + (n % 10));
        vstd::arithmetic::div_mod::lemma_fundamental_div_mod(n as int, 10);
        assert(whole[0] == pre[0]);
        if n / 10 >= 10 {
            assert(pre[0] != '0');
        } else {
            assert(n / 10 >= 1);
            lemma_digit_char((n / 10) as nat);
            assert(pre == seq![digit_char((n / 10) as nat)]);
        }
    }
}

/// A run of digits is scanned to its end.
proof fn lemma_scan_all_digits(s: Seq<char>, i: int)
    requires
        0 <= i <= s.len(),
        forall|k: int| i <= k < s.len() ==> is_digit(#[trigger] s[k]),
    ensures
        scan_digits(s, i) == s.len(),
    decreases s.len() - i,
{
    if i < s.len() {
        lemma_scan_all_digits(s, i + 1);
    }
}

/// Reading the decimal writing of `n` gives back exactly `n`.
proof fn lemma_parse_dec(n: u64)
    ensures
        spec_parse_number(spec_dec_u64(n as nat), 0) == Some(
            (JsonModel::UInt(n), spec_dec_u64(n as nat).len() as int),
        ),
{
    let s = spec_dec_u64(n as nat);
    lemma_dec_digits(n as nat);
    assert(s[0] != '-') by {
        lemma_digit_char((if n as nat >= 10 {
            digit_of(s[0])
        } else {
            n as nat
        }) as nat);
    }
    if n < 10 {
        assert(s == seq![digit_char(n as nat)]);
        if s[0] == '0' {
            assert(s.subrange(0, 1) =~= s);
        } else {
            lemma_scan_all_digits(s, 0);
            assert(s.subrange(0, s.len() as int) =~= s);
        }
    } else {
        assert(s[0] != '0');
        lemma_scan_all_digits(s, 0);
        assert(s.subrange(0, s.len() as int) =~= s);
    }
}

/// Reading an escaped string content, followed by the closing quote,
/// gives back exactly the original content.
proof fn lemma_parse_escaped(s: Seq<char>, i: int, t: Seq<char>)
    requires
        0 <= i,
        i + esc_chars(t).len() + 1 <= s.len(),
        s.subrange(i, i + esc_chars(t).len() + 1) == esc_chars(t) + seq!['"'],
    ensures
        spec_parse_string_rest(s, i) == Some((t, i + esc_chars(t).len() + 1)),
    decreases t.len(),
{
    let w = esc_chars(t) + seq!['"'];
    assert forall|k: int| 0 <= k < w.len() implies s[i + k] == w[k] by {
        assert(s.subrange(i, i + esc_chars(t).len() + 1)[k] == s[i + k]);
    }
    assert(s[i + 0] == w[0]);
    if t.len() == 0 {
        assert(esc_chars(t).len() == 0);
        assert(s[i] == '"');
    } else {
        let c = t[0];
        let t2 = t.drop_first();
        let e = esc_char_ser(c);
        lemma_esc_chars_front(t);
        assert(esc_chars(t) == e + esc_chars(t2));
        assert forall|k: int| 0 <= k < e.len() implies s[i + k] == e[k] by {
            assert(w[k] == (e + esc_chars(t2))[k]);
        }
        let i2 = i + e.len();
        assert(s.subrange(i2, i2 + esc_chars(t2).len() + 1) =~= esc_chars(t2) + seq!['"']) by {
            assert forall|k: int| 0 <= k < esc_chars(t2).len() + 1 implies s[i2 + k] == (esc_chars(
                t2,
            ) + seq!['"'])[k] by {
                assert(w[e.len() + k] == (esc_chars(t2) + seq!['"'])[k]);
                assert(s[i + (e.len() + k)] == w[e.len() + k]);
            }
        }
        lemma_parse_escaped(s, i2, t2);
        let endpos = i + esc_chars(t).len() + 1;
        assert(spec_parse_string_rest(s, i2) == Some((t2, endpos)));
        if c == '"' || c == '\\' {
            assert(e == seq!['\\', c]);
            assert(s[i] == '\\' && s[i + 1] == c);
            assert(escape_char(c) == Some(c));
            assert(spec_parse_string_rest(s, i) == Some((seq![c] + t2, endpos)));
        } else if c == '\n' || c == '\r' || c == '\t' || c as u32 == 8 || c as u32 == 12 {
            let letter = if c == '\n' {
                'n'
            } else if c == '\r' {
                'r'
            } else if c == '\t' {
                't'
            } else if c as u32 == 8 {
                'b'
            } else {
                'f'
            };
            assert(e == seq!['\\', letter]);
            assert(s[i] == '\\' && s[i + 1] == letter);
            if c as u32 == 8 {
                vstd::utf8::char_u32_cast(c, 8);
            }
            if c as u32 == 12 {
                vstd::utf8::char_u32_cast(c, 12);
            }
            assert(escape_char(letter) == Some(c));
            assert(spec_parse_string_rest(s, i) == Some((seq![c] + t2, endpos)));
        } else if (c as u32) < 0x20 {
            let u = c as u32;
            let hi = (u / 16) as nat;
            let lo = (u % 16) as nat;
            assert(e == seq!['\\', 'u', '0', '0', hex_char(hi), hex_char(lo)]);
            assert(s[i] == '\\' && s[i + 1] == 'u');
            assert(s[i + 2] == '0' && s[i + 3] == '0');
            assert(s[i + 4] == hex_char(hi) && s[i + 5] == hex_char(lo));
            lemma_hex_char(hi);
            lemma_hex_char(lo);
            assert(is_hex_digit('0') && hex_digit_of('0') == 0);
            assert(hex4_at(s, i + 2));
            assert(hex4_val(s, i + 2) == hi * 16 + lo);
            assert(hi * 16 + lo == u);
            vstd::utf8::char_u32_cast(c, u);
            assert(((hex4_val(s, i + 2) as u32) as char) == c);
            assert(spec_parse_string_rest(s, i) == Some((seq![c] + t2, endpos)));
        } else {
            assert(e == seq![c]);
            assert(s[i] == c);
            assert(c != '"' && c != '\\' && c as u32 >= 0x20);
            assert(spec_parse_string_rest(s, i) == Some((seq![c] + t2, endpos)));
        }
        assert(seq![c] + t2 =~= t);
    }
}

/// The string writing, decomposed from the front.
proof fn lemma_esc_chars_front(t: Seq<char>)
    requires
        t.len() > 0,
    ensures
        esc_chars(t) == esc_char_ser(t[0]) + esc_chars(t.drop_first()),
    decreases t.len(),
{
    if t.len() == 1 {
        assert(t.drop_last() =~= Seq::<char>::empty());
        assert(t.drop_first() =~= Seq::<char>::empty());
        assert(esc_chars(t) =~= esc_char_ser(t[0]) + esc_chars(t.drop_first()));
    } else {
        let u = t.drop_last();
        lemma_esc_chars_front(u);
        assert(u.drop_first() =~= t.drop_first().drop_last());
        assert(t.drop_first().last() == t.last());
        assert(esc_chars(t.drop_first()) == esc_chars(t.drop_first().drop_last()) + esc_char_ser(
            t.last(),
        ));
        assert(esc_chars(t) == (esc_char_ser(t[0]) + esc_chars(u.drop_first())) + esc_char_ser(
            t.last(),
        ));
        assert((esc_char_ser(t[0]) + esc_chars(u.drop_first())) + esc_char_ser(t.last())
            =~= esc_char_ser(t[0]) + (esc_chars(u.drop_first()) + esc_char_ser(t.last())));
    }
}

/// Writing a null, unsigned-integer or string tree and reading the text
/// back gives exactly the original tree.
pub proof fn lemma_round_trip_scalar(m: JsonModel)
    requires
        m is Null || m is UInt || m is Str,
    ensures
        spec_parse_text(spec_ser_value(m)) == Some(m),
{
    let s = spec_ser_value(m);
    match m {
        JsonModel::Null => {
            reveal_strlit("null");
            assert(s == "null"@);
            assert(s.len() == 4);
            assert(s[0] == 'n' && s[1] == 'u' && s[2] == 'l' && s[3] == 'l');
            assert(!is_ws(s[0]));
            assert(s.subrange(0, 4) =~= "null"@);
            assert(lit_at(s, 0, "null"@));
            assert(spec_parse_value(s, 0, MAX_DEPTH as nat) == Some(
                (JsonModel::Null, 4int),
            ));
            assert(all_ws_from(s, 4));
        },
        JsonModel::UInt(n) => {
            lemma_parse_dec(n);
            lemma_dec_digits(n as nat);
            assert(is_digit(s[0]));
            assert(48 <= s[0] as u32 && s[0] as u32 <= 57);
            assert(!is_ws(s[0]));
            assert(s[0] != 'n' && s[0] != 't' && s[0] != 'f' && s[0] != '"' && s[0] != '['
                && s[0] != '{');
            assert(spec_parse_value(s, 0, MAX_DEPTH as nat) == Some(
                (JsonModel::UInt(n), s.len() as int),
            ));
            assert(all_ws_from(s, s.len() as int));
        },
        JsonModel::Str(t) => {
            assert(s == ser_string(t));
            assert(s == seq!['"'] + esc_chars(t) + seq!['"']);
            assert(s[0] == '"');
            assert(!is_ws(s[0]));
            assert(s.subrange(1, 1 + esc_chars(t).len() as int + 1) =~= esc_chars(t) + seq!['"']);
            lemma_parse_escaped(s, 1, t);
            assert(spec_parse_string_rest(s, 1) == Some((t, s.len() as int)));
            assert(spec_parse_value(s, 0, MAX_DEPTH as nat) == Some(
                (JsonModel::Str(t), s.len() as int),
            ));
            assert(all_ws_from(s, s.len() as int));
        },
        _ => {},
    }
}

} // verus!
