use mcp_probe::error::CoreError;
use mcp_probe::json::{JsonNumber, JsonValue};
use mcp_probe::protocol::{ClientInfo, ConnectOptions};
use mcp_probe::transport::{
    capabilities_of, classify_incoming, frame_message, initialize_params, initialized_notification,
    next_request_id, request_envelope, server_request_reply, take_response, validate_initialize_result,
    classify_line, RequestIds,
    Incoming,
};
fn wire_model(v: &serde_json::Value) -> JsonValue {
    match v {
        serde_json::Value::Null => JsonValue::Null,
        serde_json::Value::Bool(b) => JsonValue::Bool(*b),
        serde_json::Value::Number(n) => {
            if let Some(u) = n.as_u64() {
                JsonValue::Number(JsonNumber::PosInt(u))
            } else if let Some(i) = n.as_i64() {
                JsonValue::Number(JsonNumber::NegInt(i))
            } else {
                JsonValue::Number(JsonNumber::Float(n.to_string()))
            }
        }
        serde_json::Value::String(s) => JsonValue::String(s.clone()),
        serde_json::Value::Array(items) => JsonValue::Array(items.iter().map(wire_model).collect()),
        serde_json::Value::Object(map) => {
            JsonValue::Object(map.iter().map(|(k, v)| (k.clone(), wire_model(v))).collect())
        }
    }
}

fn wj(text: &str) -> JsonValue {
    wire_model(&serde_json::from_str::<serde_json::Value>(text).expect("test JSON"))
}


#[test]
fn classifies_server_messages() {
    assert!(classify_incoming(wj(r#"{"method": "notifications/progress"}"#)).is_none());
    assert!(matches!(classify_incoming(wj(r#"{"method": "sampling/create", "id": 9}"#)), Some(Incoming::ServerRequest(_))));
    match classify_incoming(wj(r#"{"id": 3, "error": {"code": -32601, "message": "nope", "data": [1]}}"#)) {
        Some(Incoming::Response { id, payload: Err(e) }) => {
            assert_eq!(id.as_i64(), Some(3));
            assert_eq!(e.code, -32601);
            assert_eq!(e.message, "nope");
            assert_eq!(e.data.unwrap().to_text(), "[1]");
        }
        other => panic!("unexpected {other:?}"),
    }
    match classify_incoming(wj(r#"{"id": 4, "error": "odd"}"#)) {
        Some(Incoming::Response { payload: Err(e), .. }) => {
            assert_eq!(e.code, 0);
            assert_eq!(e.message, "");
        }
        other => panic!("unexpected {other:?}"),
    }
    match classify_incoming(wj(r#"{"jsonrpc": "2.0", "id": 5, "result": {"ok": true}}"#)) {
        Some(Incoming::Response { payload: Ok(v), .. }) => assert_eq!(v.to_text(), r#"{"ok":true}"#),
        other => panic!("unexpected {other:?}"),
    }
    assert!(matches!(classify_incoming(wj(r#"{"log": "hello"}"#)), Some(Incoming::Other(_))));
    assert!(matches!(classify_incoming(wj(r#"{"id": 6}"#)), Some(Incoming::Other(_))));
}

#[test]
fn responses_are_matched_by_id() {
    let id = wj("2");
    let other = classify_incoming(wj(r#"{"id": 1, "result": 1}"#)).unwrap();
    assert!(take_response(&id, other).is_none());
    let mine = classify_incoming(wj(r#"{"id": 2, "result": 7}"#)).unwrap();
    assert_eq!(take_response(&id, mine).unwrap().unwrap().as_i64(), Some(7));
    let req = classify_incoming(wj(r#"{"id": 2, "method": "x"}"#)).unwrap();
    assert!(take_response(&id, req).is_none());
}

#[test]
fn handshake_messages_are_exact() {
    let options = ConnectOptions::default();
    assert_eq!(options.response_timeout_ms, 5000);
    assert_eq!(options.protocol_version, "2024-11-05");
    let params = initialize_params(&options);
    assert_eq!(
        params.to_text(),
        r#"{"capabilities":{},"clientInfo":{"name":"mcp-test","version":"0.1.0"},"protocolVersion":"2024-11-05"}"#
    );
    let env = request_envelope(&wj("1"), "initialize", params);
    let expected: String = [
        r#"{"id":1,"jsonrpc":"2.0","method":"initialize","params":{"capabilities":{},"clientInfo":{"name":"mcp-test","version":"0.1.0"},"protocolVersion":"2024-11-05"}}"#,
        "\n",
    ]
    .concat();
    assert_eq!(frame_message(&env), expected);
    assert_eq!(initialized_notification().to_text(), r#"{"jsonrpc":"2.0","method":"notifications/initialized"}"#);
    let info = ClientInfo::default();
    assert_eq!(info.name, "mcp-test");
}

#[test]
fn initialize_results_are_checked() {
    validate_initialize_result(&wj(r#"{"protocolVersion": "2024-11-05", "capabilities": {"tools": {}}}"#)).unwrap();
    let missing = validate_initialize_result(&wj(r#"{"protocolVersion": 5}"#)).unwrap_err();
    assert_eq!(missing.to_message(), "handshake failed: initialize result missing protocolVersion");
    let empty = validate_initialize_result(&wj(r#"{"protocolVersion": ""}"#)).unwrap_err();
    assert!(matches!(empty, CoreError::Handshake(ref m) if m == "initialize result contained empty protocolVersion"));
    assert_eq!(capabilities_of(&wj(r#"{"capabilities": {"tools": {}}}"#)).to_text(), r#"{"tools":{}}"#);
    assert!(matches!(capabilities_of(&wj("{}")), JsonValue::Null));
}

#[test]
fn request_ids_count_up_and_saturate() {
    let (id, next) = next_request_id(2);
    assert_eq!(id.as_i64(), Some(2));
    assert_eq!(next, 3);
    let (_, last) = next_request_id(u64::MAX);
    assert_eq!(last, u64::MAX);
}

#[test]
fn server_requests_get_configured_results() {
    let replies = vec![
        ("roots/list".to_string(), wj(r#"{"roots": []}"#)),
        ("sampling/createMessage".to_string(), wj(r#"{"model": "m"}"#)),
        ("roots/list".to_string(), wj(r#"{"roots": [1]}"#)),
    ];
    let reply = server_request_reply(&wj(r#"{"jsonrpc": "2.0", "id": 7, "method": "roots/list"}"#), &replies)
        .expect("configured method");
    assert_eq!(reply.to_text(), r#"{"id":7,"jsonrpc":"2.0","result":{"roots":[]}}"#);
    let reply = server_request_reply(&wj(r#"{"id": "a", "method": "sampling/createMessage"}"#), &replies)
        .expect("configured method");
    assert_eq!(reply.to_text(), r#"{"id":"a","jsonrpc":"2.0","result":{"model":"m"}}"#);
    assert!(server_request_reply(&wj(r#"{"id": 8, "method": "elicitation/create"}"#), &replies).is_none());
    assert!(server_request_reply(&wj(r#"{"id": 9, "method": 3}"#), &replies).is_none());
    assert!(server_request_reply(&wj(r#"{"id": 9}"#), &Vec::new()).is_none());
}

#[test]
fn lines_are_trimmed_parsed_and_classified() {
    assert!(classify_line("   \n").is_none());
    assert!(classify_line("not json\n").is_none());
    assert!(classify_line("{\"method\": \"notifications/progress\"}\n").is_none());
    match classify_line("  {\"jsonrpc\": \"2.0\", \"id\": 4, \"result\": {\"a\": [1, 2.5]}}\r\n") {
        Some(Incoming::Response { id, payload: Ok(v) }) => {
            assert_eq!(id.as_i64(), Some(4));
            assert_eq!(v.to_text(), r#"{"a":[1,2.5]}"#);
        }
        other => panic!("unexpected {other:?}"),
    }
}

#[test]
fn request_ids_start_at_two_and_count_up() {
    let mut ids = RequestIds::new();
    assert_eq!(ids.take().to_text(), "2");
    assert_eq!(ids.take().to_text(), "3");
    assert_eq!(ids.take().to_text(), "4");
}
