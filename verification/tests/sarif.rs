use mcp_probe::runner::{ScenarioOutcome, SuiteOutcome};
use mcp_probe::sarif::render_sarif;

#[test]
fn sarif_lists_only_failed_scenarios() {
    let outcome = SuiteOutcome {
        passed: false,
        scenarios: vec![
            ScenarioOutcome { name: "a".to_string(), passed: true, skipped: false, error: None },
            ScenarioOutcome { name: "b".to_string(), passed: false, skipped: false, error: Some("bad \"thing\"".to_string()) },
            ScenarioOutcome { name: "c".to_string(), passed: true, skipped: true, error: None },
            ScenarioOutcome { name: "d".to_string(), passed: false, skipped: false, error: None },
        ],
    };
    let doc = render_sarif("suite.json", &outcome);
    let v: serde_json::Value = serde_json::from_str(&doc).unwrap();
    assert_eq!(serde_json::to_string_pretty(&v).unwrap().len(), doc.len());
    let results = v["runs"][0]["results"].as_array().unwrap();
    assert_eq!(results.len(), 2);
    assert_eq!(results[0]["message"]["text"], "bad \"thing\"");
    assert_eq!(results[1]["message"]["text"], "scenario failed without message");
    assert_eq!(results[0]["locations"][0]["physicalLocation"]["artifactLocation"]["uri"], "suite.json");
    assert_eq!(results[0]["ruleId"], "mcp-test/scenario-failed");
    assert_eq!(v["runs"][0]["tool"]["driver"]["informationUri"], "https://modelcontextprotocol.io/");
    assert_eq!(v["version"], "2.1.0");
    assert_eq!(v["runs"][0]["tool"]["driver"]["name"], "mcp-test");
    assert!(doc.starts_with("{\n  \"version\": \"2.1.0\",\n  \"$schema\": "));
}

#[test]
fn sarif_of_passing_suite_has_no_results() {
    let outcome = SuiteOutcome { passed: true, scenarios: Vec::new() };
    let doc = render_sarif("x", &outcome);
    assert!(doc.contains("\"results\": []"));
}
