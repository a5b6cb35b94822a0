use mcp_probe::json::{JsonNumber, JsonValue};

fn text_model(v: &serde_json::Value) -> JsonValue {
    match v {
        serde_json::Value::Null => JsonValue::Null,
        serde_json::Value::Bool(b) => JsonValue::Bool(*b),
        serde_json::Value::Number(n) => {
            if let Some(u) = n.as_u64() {
                JsonValue::Number(JsonNumber::PosInt(u))
            } else if let Some(i) = n.as_i64() {
                JsonValue::Number(JsonNumber::NegInt(i))
            } else {
                JsonValue::Number(JsonNumber::Float(n.to_string()))
            }
        }
        serde_json::Value::String(s) => JsonValue::String(s.clone()),
        serde_json::Value::Array(items) => JsonValue::Array(items.iter().map(text_model).collect()),
        serde_json::Value::Object(map) => {
            JsonValue::Object(map.iter().map(|(k, v)| (k.clone(), text_model(v))).collect())
        }
    }
}

fn tj(text: &str) -> JsonValue {
    text_model(&serde_json::from_str::<serde_json::Value>(text).expect("test JSON"))
}

#[test]
fn compact_text_matches_serde_json() {
    for text in [
        r#"{"a":[1,-2,3.5,true,false,null],"b":{"c":"d\"e\\f\n\t\u0001\u001f é"}}"#,
        r#"[]"#,
        r#"{}"#,
        r#""\b\f\r""#,
        r#"18446744073709551615"#,
        r#"-9223372036854775808"#,
    ] {
        let v: serde_json::Value = serde_json::from_str(text).unwrap();
        assert_eq!(text_model(&v).to_text(), v.to_string());
    }
}

#[test]
fn pretty_text_matches_serde_json() {
    let text = r#"{"a":[1,{"b":[]},{}],"c":{"d":"e"},"f":[]}"#;
    let v: serde_json::Value = serde_json::from_str(text).unwrap();
    assert_eq!(tj(text).to_pretty_text(), serde_json::to_string_pretty(&v).unwrap());
}

#[test]
fn object_lookup_finds_members() {
    let v = tj(r#"{"n": 7, "s": "x", "neg": -1, "big": 18446744073709551615}"#);
    assert_eq!(v.get("n").unwrap().as_i64(), Some(7));
    assert_eq!(v.get("neg").unwrap().as_i64(), Some(-1));
    assert_eq!(v.get("big").unwrap().as_i64(), None);
    assert_eq!(v.get("s").unwrap().as_str(), Some("x"));
    assert!(v.get("zz").is_none());
    assert!(tj("[1]").get("n").is_none());
}
