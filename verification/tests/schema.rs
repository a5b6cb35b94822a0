use mcp_probe::json::{JsonNumber, JsonValue};
use mcp_probe::schema::{json_schema_compiles, try_validate_json_schema, validate_json_schema};

fn schema_model(v: &serde_json::Value) -> JsonValue {
    match v {
        serde_json::Value::Null => JsonValue::Null,
        serde_json::Value::Bool(b) => JsonValue::Bool(*b),
        serde_json::Value::Number(n) => {
            if let Some(u) = n.as_u64() {
                JsonValue::Number(JsonNumber::PosInt(u))
            } else if let Some(i) = n.as_i64() {
                JsonValue::Number(JsonNumber::NegInt(i))
            } else {
                JsonValue::Number(JsonNumber::Float(n.to_string()))
            }
        }
        serde_json::Value::String(s) => JsonValue::String(s.clone()),
        serde_json::Value::Array(items) => JsonValue::Array(items.iter().map(schema_model).collect()),
        serde_json::Value::Object(map) => {
            JsonValue::Object(map.iter().map(|(k, v)| (k.clone(), schema_model(v))).collect())
        }
    }
}

fn sj(text: &str) -> JsonValue {
    schema_model(&serde_json::from_str::<serde_json::Value>(text).expect("test JSON"))
}

#[test]
fn accepts_matching_instance() {
    let schema = sj(r#"{ "type": "object", "required": ["x"], "properties": { "x": { "type": "number" } } }"#);
    let instance = sj(r#"{ "x": 1 }"#);
    validate_json_schema(&instance, &schema).unwrap();
}

#[test]
fn rejects_bad_instance() {
    let schema = sj(r#"{ "type": "object", "required": ["x"], "properties": { "x": { "type": "number" } } }"#);
    let instance = sj(r#"{ "x": "nope" }"#);
    assert!(validate_json_schema(&instance, &schema).is_err());
}

#[test]
fn schema_validation_sees_floats_and_escapes() {
    let schema = sj(r#"{ "type": "object", "properties": { "x": { "type": "number", "maximum": 2.5 }, "s": { "const": "a\"b\n" } } }"#);
    validate_json_schema(&sj(r#"{ "x": 2.25, "s": "a\"b\n" }"#), &schema).unwrap();
    assert!(validate_json_schema(&sj(r#"{ "x": 3.5 }"#), &schema).is_err());
    assert!(validate_json_schema(&sj(r#"{ "s": "ab" }"#), &schema).is_err());
}

#[test]
fn unusable_schema_is_reported_not_validated() {
    let bad = sj(r#"{ "type": 12 }"#);
    assert!(!json_schema_compiles(&bad));
    assert!(try_validate_json_schema(&sj("{}"), &bad).is_none());
    let good = sj(r#"{ "type": "array" }"#);
    assert!(json_schema_compiles(&good));
    assert!(matches!(try_validate_json_schema(&sj("[]"), &good), Some(Ok(()))));
    assert!(matches!(try_validate_json_schema(&sj("{}"), &good), Some(Err(_))));
}
