//! The envelope codec against real JSON: reading, writing, and the
//! round trip, cross-checked against an independent JSON library.

use local_mcp_servers::json::JsonValue;
use local_mcp_servers::json_parse::parse_json;
use local_mcp_servers::json_ser::json_to_string;

fn jstr(s: &str) -> JsonValue {
    JsonValue::Str(String::from(s))
}

#[test]
fn parses_scalars() {
    assert_eq!(parse_json("null"), Some(JsonValue::Null));
    assert_eq!(parse_json("true"), Some(JsonValue::Bool(true)));
    assert_eq!(parse_json("false"), Some(JsonValue::Bool(false)));
    assert_eq!(parse_json("0"), Some(JsonValue::UInt(0)));
    assert_eq!(parse_json("42"), Some(JsonValue::UInt(42)));
    assert_eq!(parse_json("18446744073709551615"), Some(JsonValue::UInt(u64::MAX)));
    assert_eq!(parse_json("  \t\r\n 7 \n"), Some(JsonValue::UInt(7)));
}

#[test]
fn keeps_other_numbers_as_text() {
    assert_eq!(parse_json("-5"), Some(JsonValue::NumOther(String::from("-5"))));
    assert_eq!(parse_json("1.5"), Some(JsonValue::NumOther(String::from("1.5"))));
    assert_eq!(parse_json("1e3"), Some(JsonValue::NumOther(String::from("1e3"))));
    assert_eq!(parse_json("-2.5E+10"), Some(JsonValue::NumOther(String::from("-2.5E+10"))));
    // one past the largest unsigned 64-bit integer
    assert_eq!(
        parse_json("18446744073709551616"),
        Some(JsonValue::NumOther(String::from("18446744073709551616")))
    );
}

#[test]
fn parses_strings_with_escapes() {
    assert_eq!(parse_json(r#""hello""#), Some(jstr("hello")));
    assert_eq!(parse_json(r#""a\"b\\c\/d""#), Some(jstr("a\"b\\c/d")));
    assert_eq!(parse_json(r#""a\nb\tc\rd\be\ff""#), Some(jstr("a\nb\tc\rd\u{8}e\u{c}f")));
    assert_eq!(parse_json(r#""\u0041""#), Some(jstr("A")));
    assert_eq!(parse_json(r#""中文""#), Some(jstr("中文")));
    // a surrogate pair
    assert_eq!(parse_json(r#""😀""#), Some(jstr("😀")));
    // unicode straight in the text
    assert_eq!(parse_json("\"中文\""), Some(jstr("中文")));
}

#[test]
fn rejects_bad_strings() {
    assert_eq!(parse_json(r#""unterminated"#), None);
    assert_eq!(parse_json(r#""bad \x escape""#), None);
    // a lone surrogate
    assert_eq!(parse_json(r#""\ud83d""#), None);
    // a raw control character
    assert_eq!(parse_json("\"a\u{1}b\""), None);
}

#[test]
fn parses_arrays_and_objects() {
    assert_eq!(
        parse_json("[1, 2, 3]"),
        Some(JsonValue::Arr(vec![JsonValue::UInt(1), JsonValue::UInt(2), JsonValue::UInt(3)]))
    );
    assert_eq!(parse_json("[]"), Some(JsonValue::Arr(vec![])));
    assert_eq!(parse_json("{}"), Some(JsonValue::Obj(vec![])));
    assert_eq!(
        parse_json(r#"{ "a" : 1 , "b" : [true, null] }"#),
        Some(JsonValue::Obj(vec![
            (String::from("a"), JsonValue::UInt(1)),
            (
                String::from("b"),
                JsonValue::Arr(vec![JsonValue::Bool(true), JsonValue::Null])
            ),
        ]))
    );
}

#[test]
fn rejects_malformed_json() {
    assert_eq!(parse_json(""), None);
    assert_eq!(parse_json("   "), None);
    assert_eq!(parse_json("{"), None);
    assert_eq!(parse_json("[1,]"), None);
    assert_eq!(parse_json("{\"a\":}"), None);
    assert_eq!(parse_json("nul"), None);
    assert_eq!(parse_json("1 2"), None);
    assert_eq!(parse_json("01"), None);
    assert_eq!(parse_json("{'a':1}"), None);
}

#[test]
fn rejects_overdeep_nesting() {
    let mut deep = String::new();
    for _ in 0..200 {
        deep.push('[');
    }
    deep.push('1');
    for _ in 0..200 {
        deep.push(']');
    }
    assert_eq!(parse_json(&deep), None);
    // a comfortably shallow nest is fine
    let mut ok = String::new();
    for _ in 0..50 {
        ok.push('[');
    }
    ok.push('1');
    for _ in 0..50 {
        ok.push(']');
    }
    assert!(parse_json(&ok).is_some());
}

#[test]
fn last_binding_wins_like_the_reference_reader() {
    let v = parse_json(r#"{"a":1,"a":2}"#).unwrap();
    assert_eq!(v.get("a"), Some(&JsonValue::UInt(2)));
    // serde_json keeps the last binding too
    let sv: serde_json::Value = serde_json::from_str(r#"{"a":1,"a":2}"#).unwrap();
    assert_eq!(sv["a"], serde_json::Value::from(2u64));
}

#[test]
fn writes_standard_json() {
    let v = JsonValue::Obj(vec![
        (String::from("s"), jstr("a\"b\\c\nd")),
        (String::from("n"), JsonValue::UInt(12345)),
        (String::from("neg"), JsonValue::NumOther(String::from("-7"))),
        (
            String::from("arr"),
            JsonValue::Arr(vec![JsonValue::Bool(false), JsonValue::Null]),
        ),
        (String::from("o"), JsonValue::Obj(vec![])),
    ]);
    let text = json_to_string(&v);
    let sv: serde_json::Value = serde_json::from_str(&text).unwrap();
    let expected: serde_json::Value =
        serde_json::from_str(r#"{"s":"a\"b\\c\nd","n":12345,"neg":-7,"arr":[false,null],"o":{}}"#)
            .unwrap();
    assert_eq!(sv, expected);
}

#[test]
fn writes_control_characters_as_escapes() {
    let text = json_to_string(&jstr("a\u{1}b"));
    assert_eq!(text, r#""a\u0001b""#);
    let back: serde_json::Value = serde_json::from_str(&text).unwrap();
    assert_eq!(back, serde_json::Value::String(String::from("a\u{1}b")));
}

#[test]
fn agreement_with_the_reference_reader() {
    let corpus = [
        "null",
        "17",
        "-3",
        "3.25e2",
        r#""plain""#,
        r#""é""#,
        r#"[1,"two",{"three":3}]"#,
        r#"{"nested":{"deep":[{}]}}"#,
        "bad",
        "[1,,2]",
        "{\"k\" 1}",
    ];
    for text in corpus {
        let mine = parse_json(text).is_some();
        let serde_ok = serde_json::from_str::<serde_json::Value>(text).is_ok();
        assert_eq!(mine, serde_ok, "reader disagreement on {text:?}");
    }
}

#[test]
fn request_id_round_trip_string() {
    let v = jstr("req-7\n\"quoted\"");
    let text = json_to_string(&v);
    assert_eq!(parse_json(&text), Some(jstr("req-7\n\"quoted\"")));
}

#[test]
fn request_id_round_trip_number() {
    for n in [0u64, 1, 9, 10, 12345, u64::MAX] {
        let text = json_to_string(&JsonValue::UInt(n));
        assert_eq!(parse_json(&text), Some(JsonValue::UInt(n)));
    }
}

#[test]
fn request_id_round_trip_null() {
    let text = json_to_string(&JsonValue::Null);
    assert_eq!(text, "null");
    assert_eq!(parse_json(&text), Some(JsonValue::Null));
}
