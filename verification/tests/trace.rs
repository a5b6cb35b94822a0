use mcp_probe::json::{JsonNumber, JsonValue};
use mcp_probe::error::RpcError;
use mcp_probe::trace::{exchange_payload, ndjson_line, redact_secrets, trace_event};
fn trace_model(v: &serde_json::Value) -> JsonValue {
    match v {
        serde_json::Value::Null => JsonValue::Null,
        serde_json::Value::Bool(b) => JsonValue::Bool(*b),
        serde_json::Value::Number(n) => {
            if let Some(u) = n.as_u64() {
                JsonValue::Number(JsonNumber::PosInt(u))
            } else if let Some(i) = n.as_i64() {
                JsonValue::Number(JsonNumber::NegInt(i))
            } else {
                JsonValue::Number(JsonNumber::Float(n.to_string()))
            }
        }
        serde_json::Value::String(s) => JsonValue::String(s.clone()),
        serde_json::Value::Array(items) => JsonValue::Array(items.iter().map(trace_model).collect()),
        serde_json::Value::Object(map) => {
            JsonValue::Object(map.iter().map(|(k, v)| (k.clone(), trace_model(v))).collect())
        }
    }
}

fn tj2(text: &str) -> JsonValue {
    trace_model(&serde_json::from_str::<serde_json::Value>(text).expect("test JSON"))
}


#[test]
fn secrets_are_redacted_at_any_depth() {
    let v = tj2(r#"{"Authorization": "Bearer x", "nested": [{"api_TOKEN": 1, "name": "n"}], "password_hint": {"a": 1}, "ok": "yes"}"#);
    assert_eq!(
        redact_secrets(&v).to_text(),
        r#"{"Authorization":"***","nested":[{"api_TOKEN":"***","name":"n"}],"ok":"yes","password_hint":"***"}"#
    );
}

#[test]
fn redaction_is_idempotent() {
    let v = tj2(r#"{"secret": {"token": 1}, "list": [{"x": {"Secret": 2}}]}"#);
    let once = redact_secrets(&v);
    let twice = redact_secrets(&once);
    assert_eq!(once.to_text(), twice.to_text());
}

#[test]
fn trace_records_and_lines() {
    let rec = trace_event("request", &tj2(r#"{"params": {"token": "t"}}"#));
    assert_eq!(rec.to_text(), r#"{"kind":"request","payload":{"params":{"token":"***"}}}"#);
    assert_eq!(ndjson_line(&tj2(r#"{"password": 1}"#)), "{\"password\":\"***\"}\n");
}

#[test]
fn exchanges_are_traced_as_one_record() {
    let request = tj2(r#"{"id": 2, "jsonrpc": "2.0", "method": "tools/list", "params": {}}"#);
    let ok = exchange_payload(&request, &Ok(tj2(r#"{"tools": []}"#)));
    assert_eq!(
        ok.to_text(),
        r#"{"request":{"id":2,"jsonrpc":"2.0","method":"tools/list","params":{}},"result":{"tools":[]}}"#
    );
    let err = RpcError { code: -32601, message: "nope".to_string(), data: None };
    let failed = exchange_payload(&request, &Err(err));
    assert_eq!(
        failed.to_text(),
        r#"{"request":{"id":2,"jsonrpc":"2.0","method":"tools/list","params":{}},"error":{"code":-32601,"message":"nope"}}"#
    );
    let err = RpcError { code: 7, message: "m".to_string(), data: Some(tj2(r#"{"token": "x"}"#)) };
    let record = trace_event("rpc", &exchange_payload(&request, &Err(err)));
    assert_eq!(
        record.to_text(),
        r#"{"kind":"rpc","payload":{"request":{"id":2,"jsonrpc":"2.0","method":"tools/list","params":{}},"error":{"code":7,"message":"m","data":{"token":"***"}}}}"#
    );
}
