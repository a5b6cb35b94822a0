use mcp_probe::conformance::{builtin_scenarios, load_pack_scenarios, suite_from_pack, suite_with_server};
use mcp_probe::json::{JsonNumber, JsonValue};
use mcp_probe::suite::{
    check_suite_version, ExpectRpcError, ExpectSpec, MatchMode, Scenario, SendSpec, ServerSpec,
    SessionMode, Step, SuiteFile, ToolCallSpec,
};
fn suite_model(v: &serde_json::Value) -> JsonValue {
    match v {
        serde_json::Value::Null => JsonValue::Null,
        serde_json::Value::Bool(b) => JsonValue::Bool(*b),
        serde_json::Value::Number(n) => {
            if let Some(u) = n.as_u64() {
                JsonValue::Number(JsonNumber::PosInt(u))
            } else if let Some(i) = n.as_i64() {
                JsonValue::Number(JsonNumber::NegInt(i))
            } else {
                JsonValue::Number(JsonNumber::Float(n.to_string()))
            }
        }
        serde_json::Value::String(s) => JsonValue::String(s.clone()),
        serde_json::Value::Array(items) => JsonValue::Array(items.iter().map(suite_model).collect()),
        serde_json::Value::Object(map) => {
            JsonValue::Object(map.iter().map(|(k, v)| (k.clone(), suite_model(v))).collect())
        }
    }
}

fn uj(text: &str) -> JsonValue {
    suite_model(&serde_json::from_str::<serde_json::Value>(text).expect("test JSON"))
}


fn server(command: &str) -> ServerSpec {
    ServerSpec { http: None, command: command.to_string(), args: Vec::new(), cwd: None, env: Vec::new() }
}

fn expect_result(result: Option<JsonValue>, schema: Option<JsonValue>, path: Option<&str>) -> ExpectSpec {
    ExpectSpec {
        result,
        result_schema: schema,
        result_schema_path: path.map(|p| p.to_string()),
        match_mode: MatchMode::Subset,
        result_pointer: None,
        ordered_arrays: false,
    }
}

fn send_step(method: &str, expect: Option<ExpectSpec>) -> Step {
    Step {
        send: Some(SendSpec { method: method.to_string(), params: uj("{}") }),
        call_tool: None,
        expect,
        expect_error: None,
    }
}

#[test]
fn suite_parses_minimal_suite() {
    let suite = SuiteFile { version: 1, session: SessionMode::per_scenario(), server: server("true"), scenarios: Vec::new() };
    assert_eq!(suite.version, 1);
    assert!(suite.scenarios.is_empty());
    assert!(matches!(suite.session, SessionMode::PerScenario));
    assert!(check_suite_version(suite.version).is_ok());
}

#[test]
fn parses_v1_expect_with_only_result() {
    let step = send_step("tools/list", Some(expect_result(Some(uj(r#"{"tools": []}"#)), None, None)));
    step.validate().unwrap();
}

#[test]
fn parses_v2_expect_schema_only() {
    let step = send_step("tools/list", Some(expect_result(None, Some(uj(r#"{"type": "object"}"#)), None)));
    step.validate().unwrap();
}

#[test]
fn call_tool_step_round_trips() {
    let step = Step {
        send: None,
        call_tool: Some(ToolCallSpec { name: "demo".to_string(), arguments: uj(r#"{"x": 1}"#) }),
        expect: Some(expect_result(Some(uj(r#"{"content": []}"#)), None, None)),
        expect_error: None,
    };
    let (m, p) = step.rpc_method_and_params().unwrap();
    assert_eq!(m, "tools/call");
    assert_eq!(p.get("name").unwrap().as_str(), Some("demo"));
    assert_eq!(p.to_text(), r#"{"arguments":{"x":1},"name":"demo"}"#);
}

#[test]
fn step_shape_errors_are_reported() {
    let mut both = send_step("a", Some(expect_result(Some(uj("1")), None, None)));
    both.call_tool = Some(ToolCallSpec { name: "t".to_string(), arguments: JsonValue::Null });
    assert_eq!(both.validate().unwrap_err(), "set only one of `send` or `call_tool`");
    let none = Step { send: None, call_tool: None, expect: None, expect_error: None };
    assert_eq!(none.validate().unwrap_err(), "step requires `send` or `call_tool`");
    assert_eq!(none.rpc_method_and_params().unwrap_err(), "step has no rpc target");
    let no_expect = send_step("a", None);
    assert_eq!(no_expect.validate().unwrap_err(), "step requires `expect` or `expect_error`");
    let mut with_error = send_step("a", None);
    with_error.expect_error = Some(ExpectRpcError { code: Some(-32601), message_contains: None, message_regex: None });
    with_error.validate().unwrap();
    let empty = send_step("a", Some(expect_result(None, None, Some("   "))));
    assert_eq!(
        empty.validate().unwrap_err(),
        "expect requires at least one of `result`, `result_schema`, or `result_schema_path`"
    );
    let two = send_step("a", Some(expect_result(None, Some(uj("{}")), Some("s.json"))));
    assert_eq!(two.validate().unwrap_err(), "use only one of `result_schema` or `result_schema_path`");
}

#[test]
fn suite_versions_other_than_one_and_two_are_refused() {
    assert!(check_suite_version(1).is_ok());
    assert!(check_suite_version(2).is_ok());
    assert_eq!(check_suite_version(3).unwrap_err(), "unsupported suite version: 3");
    assert_eq!(check_suite_version(0).unwrap_err(), "unsupported suite version: 0");
    assert_eq!(check_suite_version(4).unwrap_err(), "unsupported suite version: 4");
}

#[test]
fn conformance_suite_has_expected_shape() {
    let suite = suite_with_server(server("true"));
    assert_eq!(suite.version, 2);
    assert_eq!(suite.scenarios.len(), 3);
}

#[test]
fn builtin_scenarios_check_list_methods() {
    let scenarios = builtin_scenarios();
    let names: Vec<&str> = scenarios.iter().map(|s: &Scenario| s.name.as_str()).collect();
    assert_eq!(names, ["conformance:mcp.tools_list", "conformance:mcp.resources_list", "conformance:mcp.prompts_list"]);
    let step = &scenarios[1].steps[0];
    assert_eq!(step.send.as_ref().unwrap().method, "resources/list");
    let schema = step.expect.as_ref().unwrap().result_schema.as_ref().unwrap();
    assert_eq!(
        schema.to_text(),
        r#"{"properties":{"resources":{"type":"array"}},"required":["resources"],"type":"object"}"#
    );
    let tools = scenarios[0].steps[0].expect.as_ref().unwrap().result_schema.as_ref().unwrap();
    assert_eq!(
        tools.to_text(),
        r#"{"properties":{"tools":{"items":{"properties":{"description":{"type":"string"},"inputSchema":{"type":"object"},"name":{"minLength":1,"type":"string"}},"required":["name","inputSchema"],"type":"object"},"type":"array"}},"required":["tools"],"type":"object"}"#
    );
}

#[test]
fn packs_are_looked_up_by_name() {
    assert_eq!(load_pack_scenarios("default").unwrap().len(), 3);
    let err = load_pack_scenarios("nope").err().unwrap();
    assert_eq!(err.to_message(), "handshake failed: unknown conformance pack: nope");
    let suite = suite_from_pack(server("srv"), "default").ok().unwrap();
    assert_eq!(suite.version, 3);
    assert_eq!(suite.server.command, "srv");
}
