use agent_loom_runtime::json::{to_json_text, JsonValue};
use agent_loom_runtime::text::{chars_of, decimal_text, find, hex_lower, trim, utf8_size_exceeds};

#[test]
fn decimal_and_hex_forms() {
    assert_eq!(decimal_text(0), "0");
    assert_eq!(decimal_text(-42), "-42");
    assert_eq!(decimal_text(i64::MIN), i64::MIN.to_string());
    assert_eq!(decimal_text(i64::MAX), i64::MAX.to_string());
    assert_eq!(hex_lower(&[0x00, 0xab, 0x10]), "00ab10");
}

#[test]
fn trimming_and_search() {
    assert_eq!(trim("\u{3000} a b \n"), "a b");
    assert_eq!(trim("   "), "");
    let hay = chars_of("a token=b token=c");
    assert_eq!(find(&hay, &chars_of("token=")), Some(2));
    assert_eq!(find(&hay, &chars_of("secret")), None);
    assert_eq!(find(&hay, &[]), Some(0));
}

#[test]
fn utf8_sizes() {
    assert!(!utf8_size_exceeds("ab", 2));
    assert!(utf8_size_exceeds("abc", 2));
    assert!(utf8_size_exceeds("é", 1));
    assert!(!utf8_size_exceeds("😀", 4));
    assert!(utf8_size_exceeds("😀", 3));
}

#[test]
fn json_text_is_compact_like_serde_json() {
    let value = JsonValue::Object(vec![
        ("a".into(), JsonValue::Array(vec![JsonValue::Null, JsonValue::Bool(true), JsonValue::Number("-1.5".into())])),
        ("b".into(), JsonValue::Text("q\"\\\n\t\u{1}é".into())),
        ("c".into(), JsonValue::Object(vec![])),
    ]);
    let text = to_json_text(&value);
    let mut map = serde_json::Map::new();
    map.insert(
        "a".into(),
        serde_json::Value::Array(vec![
            serde_json::Value::Null,
            serde_json::Value::Bool(true),
            serde_json::Value::Number(serde_json::Number::from_f64(-1.5).unwrap()),
        ]),
    );
    map.insert("b".into(), serde_json::Value::String("q\"\\\n\t\u{1}é".into()));
    map.insert("c".into(), serde_json::Value::Object(serde_json::Map::new()));
    assert_eq!(text, serde_json::Value::Object(map).to_string());
    assert_eq!(text, "{\"a\":[null,true,-1.5],\"b\":\"q\\\"\\\\\\n\\t\\u0001é\",\"c\":{}}");
}
