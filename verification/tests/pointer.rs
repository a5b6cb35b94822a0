use mcp_probe::json::{JsonNumber, JsonValue};
use mcp_probe::pointer::resolve_pointer;

fn pointer_model(v: &serde_json::Value) -> JsonValue {
    match v {
        serde_json::Value::Null => JsonValue::Null,
        serde_json::Value::Bool(b) => JsonValue::Bool(*b),
        serde_json::Value::Number(n) => {
            if let Some(u) = n.as_u64() {
                JsonValue::Number(JsonNumber::PosInt(u))
            } else if let Some(i) = n.as_i64() {
                JsonValue::Number(JsonNumber::NegInt(i))
            } else {
                JsonValue::Number(JsonNumber::Float(n.to_string()))
            }
        }
        serde_json::Value::String(s) => JsonValue::String(s.clone()),
        serde_json::Value::Array(items) => JsonValue::Array(items.iter().map(pointer_model).collect()),
        serde_json::Value::Object(map) => {
            JsonValue::Object(map.iter().map(|(k, v)| (k.clone(), pointer_model(v))).collect())
        }
    }
}

fn pj(text: &str) -> JsonValue {
    pointer_model(&serde_json::from_str::<serde_json::Value>(text).expect("test JSON"))
}

#[test]
fn pointer_resolves_rfc6901_tokens() {
    let doc = pj(r#"{"a/b": {"m~n": [10, 20, {"k": true}]}, "": 5}"#);
    assert!(resolve_pointer(&doc, "").unwrap().json_equal(&doc));
    assert!(resolve_pointer(&doc, "/a~1b/m~0n/1").unwrap().json_equal(&pj("20")));
    assert!(resolve_pointer(&doc, "/a~1b/m~0n/2/k").unwrap().json_equal(&pj("true")));
    assert!(resolve_pointer(&doc, "/").unwrap().json_equal(&pj("5")));
}

#[test]
fn pointer_rejects_bad_paths() {
    let doc = pj(r#"{"xs": [1, 2, 3]}"#);
    assert!(resolve_pointer(&doc, "xs").is_none());
    assert!(resolve_pointer(&doc, "/xs/01").is_none());
    assert!(resolve_pointer(&doc, "/xs/+1").is_none());
    assert!(resolve_pointer(&doc, "/xs/3").is_none());
    assert!(resolve_pointer(&doc, "/xs/99999999999999999999999").is_none());
    assert!(resolve_pointer(&doc, "/missing").is_none());
    assert!(resolve_pointer(&doc, "/xs/0/deeper").is_none());
    assert!(resolve_pointer(&doc, "/xs/0").unwrap().json_equal(&pj("1")));
}
