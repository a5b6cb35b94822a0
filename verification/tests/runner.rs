use mcp_probe::error::{CoreError, RpcError};
use mcp_probe::json::{JsonNumber, JsonValue};
use mcp_probe::runner::{
    apply_expect, apply_schema_file, check_rpc_expectation, confine_schema_path, judge_step,
    path_starts_with, prepare_step, push_scenario_outcome, schema_from_bytes, should_skip_for_capabilities,
    StepJudgement, SuiteResolution, SuiteRun,
};
use mcp_probe::driver::{RunAction, RunEvent, SuiteDriver};
use mcp_probe::suite::{
    ExpectRpcError, ExpectSpec, MatchMode, Scenario, SendSpec, ServerSpec, SessionMode, Step, SuiteFile,
};
fn runner_model(v: &serde_json::Value) -> JsonValue {
    match v {
        serde_json::Value::Null => JsonValue::Null,
        serde_json::Value::Bool(b) => JsonValue::Bool(*b),
        serde_json::Value::Number(n) => {
            if let Some(u) = n.as_u64() {
                JsonValue::Number(JsonNumber::PosInt(u))
            } else if let Some(i) = n.as_i64() {
                JsonValue::Number(JsonNumber::NegInt(i))
            } else {
                JsonValue::Number(JsonNumber::Float(n.to_string()))
            }
        }
        serde_json::Value::String(s) => JsonValue::String(s.clone()),
        serde_json::Value::Array(items) => JsonValue::Array(items.iter().map(runner_model).collect()),
        serde_json::Value::Object(map) => {
            JsonValue::Object(map.iter().map(|(k, v)| (k.clone(), runner_model(v))).collect())
        }
    }
}

fn rj(text: &str) -> JsonValue {
    runner_model(&serde_json::from_str::<serde_json::Value>(text).expect("test JSON"))
}


fn expect(result: Option<&str>, schema: Option<&str>, path: Option<&str>, pointer: Option<&str>, mode: MatchMode) -> ExpectSpec {
    ExpectSpec {
        result: result.map(rj),
        result_schema: schema.map(rj),
        result_schema_path: path.map(|p| p.to_string()),
        match_mode: mode,
        result_pointer: pointer.map(|p| p.to_string()),
        ordered_arrays: false,
    }
}

fn scenario(name: &str, steps: Vec<Step>) -> Scenario {
    Scenario { name: name.to_string(), skip_unless_any_capability: Vec::new(), steps }
}

fn step(expect: Option<ExpectSpec>, expect_error: Option<ExpectRpcError>) -> Step {
    Step {
        send: Some(SendSpec { method: "tools/list".to_string(), params: JsonValue::Null }),
        call_tool: None,
        expect,
        expect_error,
    }
}

fn done_message(j: StepJudgement) -> Option<String> {
    match j {
        StepJudgement::Done(Ok(())) => None,
        StepJudgement::Done(Err(e)) => Some(e.to_message()),
        other => panic!("unexpected judgement {other:?}"),
    }
}

fn rpc(code: i64, message: &str) -> RpcError {
    RpcError { code, message: message.to_string(), data: None }
}

#[test]
fn empty_suite_passes_without_spawning() {
    let suite = SuiteFile {
        version: 1,
        session: SessionMode::PerScenario,
        server: ServerSpec { http: None, command: "false".to_string(), args: Vec::new(), cwd: None, env: Vec::new() },
        scenarios: Vec::new(),
    };
    let (_driver, action) = SuiteDriver::new(&suite, SuiteResolution::detached());
    match action {
        RunAction::Finish(Ok(outcome)) => {
            assert!(outcome.passed);
            assert!(outcome.scenarios.is_empty());
        }
        other => panic!("a server was asked for: {other:?}"),
    }
}

#[test]
fn suite_passes_only_when_every_scenario_passes() {
    let a = scenario("a", Vec::new());
    let b = scenario("b", Vec::new());
    let mut run = SuiteRun::new();
    run.record_skip(&a);
    run.record_result(&b, Ok(()));
    let outcome = run.finish();
    assert!(outcome.passed);
    assert!(outcome.scenarios[0].skipped && outcome.scenarios[0].passed);

    let mut run = SuiteRun::new();
    run.record_result(&a, Ok(()));
    run.record_connect_failure(&b, CoreError::Handshake("nope".to_string()));
    let outcome = run.finish();
    assert!(!outcome.passed);
    assert_eq!(outcome.scenarios[1].error.as_deref(), Some("handshake failed: nope"));
}

#[test]
fn push_scenario_outcome_records_errors() {
    let mut out = Vec::new();
    let mut all = true;
    let s = scenario("sc", Vec::new());
    push_scenario_outcome(&mut out, &mut all, &s, Err(CoreError::InvalidStep("x".to_string())));
    assert!(!all);
    assert_eq!(out[0].name, "sc");
    assert!(!out[0].passed && !out[0].skipped);
    assert_eq!(out[0].error.as_deref(), Some("invalid step: x"));
}

#[test]
fn capability_gating() {
    let caps = rj(r#"{"tools": {}, "prompts": {"listChanged": true}}"#);
    assert!(!should_skip_for_capabilities(&caps, &Vec::new()));
    assert!(!should_skip_for_capabilities(&caps, &vec!["resources".to_string(), "prompts".to_string()]));
    assert!(should_skip_for_capabilities(&caps, &vec!["resources".to_string()]));
    assert!(should_skip_for_capabilities(&JsonValue::Null, &vec!["tools".to_string()]));
}

#[test]
fn rpc_error_expectations() {
    let spec = ExpectRpcError { code: Some(-32601), message_contains: Some("not found".to_string()), message_regex: Some("^Method .* found$".to_string()) };
    check_rpc_expectation(&spec, &rpc(-32601, "Method not found")).unwrap();
    assert_eq!(check_rpc_expectation(&spec, &rpc(-32600, "x")).unwrap_err(), "expected code -32601, got -32600");
    assert_eq!(
        check_rpc_expectation(&spec, &rpc(-32601, "Method missing")).unwrap_err(),
        "expected message to contain `not found`, got `Method missing`"
    );
    assert_eq!(
        check_rpc_expectation(&spec, &rpc(-32601, "Tool not found")).unwrap_err(),
        "expected message to match regex `^Method .* found$`, got `Tool not found`"
    );
    let bad = ExpectRpcError { code: None, message_contains: None, message_regex: Some("(".to_string()) };
    assert!(check_rpc_expectation(&bad, &rpc(1, "m")).unwrap_err().starts_with("invalid message_regex: "));
}

#[test]
fn prepare_step_labels_invalid_steps() {
    let s = scenario("scn", vec![Step { send: None, call_tool: None, expect: None, expect_error: None }]);
    let err = prepare_step(&s, 0).err().unwrap();
    assert_eq!(err.to_message(), "invalid step: scn step 1: step requires `send` or `call_tool`");
    let ok = scenario("scn", vec![step(Some(expect(Some("{}"), None, None, None, MatchMode::Subset)), None)]);
    let (m, p) = prepare_step(&ok, 0).ok().unwrap();
    assert_eq!(m, "tools/list");
    assert!(matches!(p, JsonValue::Null));
}

#[test]
fn judge_step_covers_error_and_success_paths() {
    let res = SuiteResolution { suite_directory: None };
    let want_err = scenario("s", vec![step(None, Some(ExpectRpcError { code: Some(7), message_contains: None, message_regex: None }))]);
    assert_eq!(
        done_message(judge_step(&want_err, 0, Ok(JsonValue::Null), &res)).unwrap(),
        "scenario `s` step 1: expected JSON-RPC error but call succeeded"
    );
    assert_eq!(done_message(judge_step(&want_err, 0, Err(rpc(7, "m")), &res)), None);
    assert_eq!(
        done_message(judge_step(&want_err, 0, Err(rpc(8, "m")), &res)).unwrap(),
        "scenario `s` step 1: rpc error expectation failed: expected code 7, got 8"
    );
    let want_ok = scenario("s", vec![step(Some(expect(Some(r#"{"a": 1}"#), None, None, None, MatchMode::Subset)), None)]);
    assert_eq!(
        done_message(judge_step(&want_ok, 0, Err(rpc(-1, "boom")), &res)).unwrap(),
        "json-rpc error: json-rpc error code=-1 message=boom"
    );
    assert_eq!(done_message(judge_step(&want_ok, 0, Ok(rj(r#"{"a": 1, "b": 2}"#)), &res)), None);
    assert_eq!(
        done_message(judge_step(&want_ok, 0, Ok(rj(r#"{"b": 2}"#)), &res)).unwrap(),
        "scenario `s` step 1: expectation failed: $.a \u{2014} missing key `a` in actual object"
    );
    let no_expect = scenario("s", vec![step(None, None)]);
    assert_eq!(
        done_message(judge_step(&no_expect, 0, Ok(JsonValue::Null), &res)).unwrap(),
        "invalid step: s step 1: missing `expect` for success path"
    );
}

#[test]
fn apply_expect_pointer_strict_and_schema() {
    let res = SuiteResolution { suite_directory: None };
    let result = rj(r#"{"content": [{"text": "hi"}], "isError": false}"#);
    let e = expect(Some(r#""hi""#), None, None, Some(" /content/0/text "), MatchMode::Strict);
    assert_eq!(done_message(apply_expect(&e, &result, &res, "s", 2)), None);
    let e = expect(Some("{}"), None, None, Some("/nope"), MatchMode::Subset);
    assert_eq!(
        done_message(apply_expect(&e, &result, &res, "s", 2)).unwrap(),
        "scenario `s` step 2: invalid expect configuration: result_pointer `/nope` not found in response"
    );
    let e = expect(None, Some(r#"{"type": "object", "required": ["content"]}"#), None, None, MatchMode::Subset);
    assert_eq!(done_message(apply_expect(&e, &result, &res, "s", 2)), None);
    let e = expect(None, Some(r#"{"type": "array"}"#), None, None, MatchMode::Subset);
    assert!(done_message(apply_expect(&e, &result, &res, "s", 2)).unwrap().starts_with("scenario `s` step 2: result JSON Schema mismatch: "));
    let e = expect(None, Some(r#"{"type": 3}"#), None, None, MatchMode::Subset);
    assert!(matches!(apply_expect(&e, &result, &res, "s", 2), StepJudgement::UnusableSchema));
    let e = expect(None, None, None, None, MatchMode::Subset);
    assert_eq!(
        done_message(apply_expect(&e, &result, &res, "s", 2)).unwrap(),
        "scenario `s` step 2: invalid expect configuration: set at least one of `result`, `result_schema`, or `result_schema_path`"
    );
}

#[test]
fn apply_expect_schema_path_handling() {
    let detached = SuiteResolution { suite_directory: None };
    let on_disk = SuiteResolution { suite_directory: Some("/suites".to_string()) };
    let result = rj(r#"{"x": 1}"#);
    let e = expect(Some("{}"), None, Some("  "), None, MatchMode::Subset);
    assert_eq!(
        done_message(apply_expect(&e, &result, &on_disk, "s", 1)).unwrap(),
        "scenario `s` step 1: invalid expect configuration: `result_schema_path` is empty"
    );
    let e = expect(None, None, Some("schema.json"), None, MatchMode::Subset);
    assert_eq!(
        done_message(apply_expect(&e, &result, &detached, "s", 1)).unwrap(),
        "scenario `s` step 1: invalid expect configuration: `result_schema_path` requires the suite to be loaded from disk so its directory can be resolved"
    );
    let e = expect(None, None, Some(" ../secret.json "), None, MatchMode::Subset);
    assert_eq!(
        done_message(apply_expect(&e, &result, &on_disk, "s", 1)).unwrap(),
        "blocked potentially unsafe path: result_schema_path contains '..': ../secret.json"
    );
    let e = expect(None, None, Some(" schemas/x.json "), None, MatchMode::Subset);
    match apply_expect(&e, &result, &on_disk, "s", 1) {
        StepJudgement::LoadSchemaFile { base, relative, effective } => {
            assert_eq!(base, "/suites");
            assert_eq!(relative, "schemas/x.json");
            assert!(effective.json_equal(&result));
            assert!(matches!(apply_schema_file(&effective, Ok(rj(r#"{"type": "object"}"#)), "s", 1), Some(Ok(()))));
            let mismatch = apply_schema_file(&effective, Ok(rj(r#"{"type": "string"}"#)), "s", 1).unwrap().err().unwrap();
            assert!(mismatch.to_message().starts_with("scenario `s` step 1: result JSON Schema mismatch: "));
            let io = apply_schema_file(&effective, Err(CoreError::Io("gone".to_string())), "s", 1).unwrap().err().unwrap();
            assert_eq!(io.to_message(), "i/o error: gone");
            assert!(apply_schema_file(&effective, Ok(rj(r#"{"type": false}"#)), "s", 1).is_none());
        }
        other => panic!("unexpected judgement {other:?}"),
    }
}

#[test]
fn schema_files_must_stay_inside_the_suite_directory() {
    assert!(path_starts_with("/suites/a/b.json", "/suites"));
    assert!(path_starts_with("/suites", "/suites/"));
    assert!(!path_starts_with("/suitesx/b.json", "/suites"));
    assert!(!path_starts_with("suites/b.json", "/suites"));
    confine_schema_path("/suites/a.json", "/suites", "a.json").unwrap();
    let err = confine_schema_path("/etc/passwd", "/suites", "link.json").err().unwrap();
    assert_eq!(err.to_message(), "blocked potentially unsafe path: result_schema_path escapes suite directory: link.json");
}

fn driver_suite(session: SessionMode, scenarios: Vec<Scenario>) -> SuiteFile {
    SuiteFile {
        version: 2,
        session,
        server: ServerSpec { http: None, command: "srv".to_string(), args: Vec::new(), cwd: None, env: Vec::new() },
        scenarios,
    }
}

fn finished(a: RunAction) -> mcp_probe::runner::SuiteOutcome {
    match a {
        RunAction::Finish(Ok(o)) => o,
        other => panic!("expected the report, got {other:?}"),
    }
}

#[test]
fn fresh_sessions_record_failed_connections_and_go_on() {
    let ok_step = step(Some(expect(Some(r#"{"tools": []}"#), None, None, None, MatchMode::Subset)), None);
    let suite = driver_suite(
        SessionMode::PerScenario,
        vec![scenario("a", vec![ok_step.clone()]), scenario("b", vec![ok_step.clone(), ok_step])],
    );
    let (mut d, a) = SuiteDriver::new(&suite, SuiteResolution::detached());
    assert!(matches!(a, RunAction::Connect));
    let a = d.step(&suite, RunEvent::ConnectFailed(CoreError::Handshake("down".to_string())));
    assert!(matches!(a, RunAction::Connect));
    let a = d.step(&suite, RunEvent::Connected(rj("{}")));
    match &a {
        RunAction::Send { method, .. } => assert_eq!(method, "tools/list"),
        other => panic!("unexpected {other:?}"),
    }
    // The first step fails: the second step of `b` is never sent.
    let a = d.step(&suite, RunEvent::Answered(Ok(rj(r#"{"other": 1}"#))));
    let o = finished(a);
    assert!(!o.passed);
    assert_eq!(o.scenarios.len(), 2);
    assert_eq!(o.scenarios[0].name, "a");
    assert_eq!(o.scenarios[0].error.as_deref(), Some("handshake failed: down"));
    assert_eq!(o.scenarios[1].name, "b");
    assert!(!o.scenarios[1].passed);
}

#[test]
fn a_shared_session_that_cannot_open_aborts_the_run() {
    let suite = driver_suite(SessionMode::PerSuite, vec![scenario("a", Vec::new())]);
    let (mut d, a) = SuiteDriver::new(&suite, SuiteResolution::detached());
    assert!(matches!(a, RunAction::Connect));
    match d.step(&suite, RunEvent::ConnectFailed(CoreError::Handshake("down".to_string()))) {
        RunAction::Finish(Err(e)) => assert_eq!(e.to_message(), "handshake failed: down"),
        other => panic!("unexpected {other:?}"),
    }
}

#[test]
fn a_shared_session_runs_scenarios_in_order_and_skips_by_capability() {
    let ok_step = step(Some(expect(Some("{}"), None, None, None, MatchMode::Subset)), None);
    let mut gated = scenario("gated", vec![ok_step.clone()]);
    gated.skip_unless_any_capability = vec!["resources".to_string()];
    let suite = driver_suite(
        SessionMode::PerSuite,
        vec![scenario("one", vec![ok_step.clone()]), gated, scenario("two", vec![ok_step])],
    );
    let (mut d, _) = SuiteDriver::new(&suite, SuiteResolution::detached());
    assert!(matches!(d.step(&suite, RunEvent::Connected(rj(r#"{"tools": {}}"#))), RunAction::Send { .. }));
    assert!(matches!(d.step(&suite, RunEvent::Answered(Ok(rj("{}")))), RunAction::Send { .. }));
    let o = finished(d.step(&suite, RunEvent::Answered(Ok(rj("{}")))));
    assert!(o.passed);
    let names: Vec<&str> = o.scenarios.iter().map(|s| s.name.as_str()).collect();
    assert_eq!(names, vec!["one", "gated", "two"]);
    assert!(o.scenarios[1].skipped);
}

#[test]
fn transport_failures_and_schema_files_are_driven() {
    let schema_step = step(Some(expect(None, None, Some("s.json"), None, MatchMode::Subset)), None);
    let suite = driver_suite(SessionMode::PerScenario, vec![scenario("s", vec![schema_step.clone()]), scenario("t", vec![schema_step])]);
    let resolution = SuiteResolution { suite_directory: Some("/suites".to_string()) };
    let (mut d, _) = SuiteDriver::new(&suite, resolution);
    assert!(matches!(d.step(&suite, RunEvent::Connected(rj("{}"))), RunAction::Send { .. }));
    match d.step(&suite, RunEvent::Answered(Ok(rj(r#"{"x": 1}"#)))) {
        RunAction::LoadSchema { base, relative } => {
            assert_eq!(base, "/suites");
            assert_eq!(relative, "s.json");
        }
        other => panic!("unexpected {other:?}"),
    }
    assert!(matches!(d.step(&suite, RunEvent::SchemaLoaded(Ok(rj(r#"{"type": "object"}"#)))), RunAction::Connect));
    assert!(matches!(d.step(&suite, RunEvent::Connected(rj("{}"))), RunAction::Send { .. }));
    let o = finished(d.step(&suite, RunEvent::CallFailed(CoreError::Timeout("5s".to_string()))));
    assert!(o.scenarios[0].passed);
    assert_eq!(o.scenarios[1].error.as_deref(), Some("timed out after 5s waiting for a response"));
    assert!(!o.passed);
}

#[test]
fn schema_files_are_parsed_from_bytes() {
    let v = schema_from_bytes(br#"{"type": "object"}"#).unwrap();
    assert_eq!(v.to_text(), r#"{"type":"object"}"#);
    let e = schema_from_bytes(b"{oops").unwrap_err();
    assert!(e.to_message().starts_with("json error: key must be a string"));
}

#[test]
fn a_rejecting_schema_file_ends_its_scenario() {
    let schema_step = step(Some(expect(None, None, Some("s.json"), None, MatchMode::Subset)), None);
    let later = step(Some(expect(Some("{}"), None, None, None, MatchMode::Subset)), None);
    let suite = driver_suite(SessionMode::PerScenario, vec![scenario("s", vec![schema_step, later])]);
    let resolution = SuiteResolution { suite_directory: Some("/suites".to_string()) };
    let (mut d, _) = SuiteDriver::new(&suite, resolution);
    assert!(matches!(d.step(&suite, RunEvent::Connected(rj("{}"))), RunAction::Send { .. }));
    assert!(matches!(d.step(&suite, RunEvent::Answered(Ok(rj(r#"{"x": 1}"#)))), RunAction::LoadSchema { .. }));
    let o = finished(d.step(&suite, RunEvent::SchemaLoaded(Ok(rj(r#"{"type": "array"}"#)))));
    assert!(!o.passed);
    let err = o.scenarios[0].error.as_deref().unwrap();
    assert!(err.starts_with("scenario `s` step 1: result JSON Schema mismatch: "), "{err}");
}
