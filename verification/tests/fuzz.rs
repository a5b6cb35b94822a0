use mcp_probe::fuzz::{fuzz_method, fuzz_summary, fuzz_target, mutate_params, mutate_params_with};
use mcp_probe::json::{JsonNumber, JsonValue};
use mcp_probe::suite::{ServerSpec, SessionMode, SuiteFile};
fn fuzz_model(v: &serde_json::Value) -> JsonValue {
    match v {
        serde_json::Value::Null => JsonValue::Null,
        serde_json::Value::Bool(b) => JsonValue::Bool(*b),
        serde_json::Value::Number(n) => {
            if let Some(u) = n.as_u64() {
                JsonValue::Number(JsonNumber::PosInt(u))
            } else if let Some(i) = n.as_i64() {
                JsonValue::Number(JsonNumber::NegInt(i))
            } else {
                JsonValue::Number(JsonNumber::Float(n.to_string()))
            }
        }
        serde_json::Value::String(s) => JsonValue::String(s.clone()),
        serde_json::Value::Array(items) => JsonValue::Array(items.iter().map(fuzz_model).collect()),
        serde_json::Value::Object(map) => {
            JsonValue::Object(map.iter().map(|(k, v)| (k.clone(), fuzz_model(v))).collect())
        }
    }
}

fn fj(text: &str) -> JsonValue {
    fuzz_model(&serde_json::from_str::<serde_json::Value>(text).expect("test JSON"))
}


#[test]
fn fuzzed_methods() {
    assert_eq!(fuzz_method("tools/list", 0), "tools/list");
    assert_eq!(fuzz_method("tools/list", 1), "tools/list/");
    assert_eq!(fuzz_method("tools/list", 2), "tools/lis");
    assert_eq!(fuzz_method("", 2), "");
    assert_eq!(fuzz_method("tools/list", 3), "__not_an_mcp_method__");
    assert_eq!(fuzz_method("tools/list", 4), "");
    assert_eq!(fuzz_method("tools/list", 5), "NOT_TOOLS/LIST");
    assert_eq!(fuzz_method("tools/list", 6), "tools/list::6");
    assert_eq!(fuzz_method("abc", 7), "cba");
    assert_eq!(fuzz_method("abc", 15), "cba");
}

#[test]
fn mutated_params_follow_the_seed() {
    let base = fj(r#"{"a": 1, "c": 2}"#);
    assert_eq!(mutate_params_with(&base, 0, 7, -1).to_text(), r#"{"_fuzz_0":7,"a":1,"c":2}"#);
    assert_eq!(mutate_params_with(&fj("{}"), 1, 7, -1).to_text(), r#"{"_fuzz_empty":true}"#);
    assert_eq!(mutate_params_with(&fj("[1]"), 11, 9, -1).to_text(), r#"{"_fuzz":9}"#);
    assert_eq!(mutate_params_with(&base, 2, 0, 0).to_text(), "null");
    assert_eq!(mutate_params_with(&base, 3, 0, -42).to_text(), "-42");
    assert_eq!(mutate_params_with(&base, 4, 0, 0).to_text(), r#""wrong_param_type""#);
    assert_eq!(mutate_params_with(&base, 5, 0, 0).to_text(), r#"{"a":1}"#);
    assert_eq!(mutate_params_with(&base, 6, 0, 0).to_text(), r#"{"a":{"nested":[1,2,{"x":null}]},"c":2}"#);
    assert_eq!(mutate_params_with(&fj("3"), 6, 0, 0).to_text(), r#"{"nested":{"a":1}}"#);
    assert_eq!(mutate_params_with(&base, 7, 0, 0).to_text(), "[]");
    assert_eq!(mutate_params_with(&base, 8, 0, 0).to_text(), r#"{"cursor":8,"extra":{"b":false}}"#);
    assert_eq!(mutate_params_with(&base, 9, 0, 0).to_text(), base.to_text());
    assert_eq!(mutate_params(&base, 4).to_text(), r#""wrong_param_type""#);
}

#[test]
fn fuzz_target_needs_a_first_step() {
    let mut suite = SuiteFile {
        version: 1,
        session: SessionMode::PerScenario,
        server: ServerSpec { http: None, command: "x".to_string(), args: Vec::new(), cwd: None, env: Vec::new() },
        scenarios: Vec::new(),
    };
    assert_eq!(fuzz_target(&suite).unwrap_err(), "suite needs at least one scenario");
    suite.scenarios.push(mcp_probe::suite::Scenario { name: "s".to_string(), skip_unless_any_capability: Vec::new(), steps: Vec::new() });
    assert_eq!(fuzz_target(&suite).unwrap_err(), "first scenario needs at least one step");
    assert_eq!(fuzz_summary(3, 1, 1, 1), "fuzz complete: iterations=3 successes=1 rpc_errors=1 transport_errors=1");
}
