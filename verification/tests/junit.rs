use mcp_probe::junit::{render_junit, xml_escape};
use mcp_probe::runner::{ScenarioOutcome, SuiteOutcome};

fn outcome(name: &str, passed: bool, skipped: bool, error: Option<&str>) -> ScenarioOutcome {
    ScenarioOutcome {
        name: name.to_string(),
        passed,
        skipped,
        error: error.map(|e| e.to_string()),
    }
}

#[test]
fn render_escapes_failure_payload() {
    let outcome = SuiteOutcome {
        passed: false,
        scenarios: vec![outcome("bad&name", false, false, Some("<oops>"))],
    };
    let xml = render_junit("suite&", &outcome);
    assert!(xml.contains("bad&amp;name"));
    assert!(xml.contains("&lt;oops&gt;"));
    assert!(xml.contains("suite&amp;"));
}

#[test]
fn escapes_xml_specials() {
    assert_eq!(xml_escape("a&b"), "a&amp;b");
    assert_eq!(xml_escape("<t>"), "&lt;t&gt;");
}

#[test]
fn escape_drops_control_characters_and_quotes_attributes() {
    assert_eq!(xml_escape("a\u{1}b\u{7f}c\u{9f}d"), "abcd");
    assert_eq!(xml_escape("\"x\" 'y'"), "&quot;x&quot; &apos;y&apos;");
    assert_eq!(xml_escape("é\u{a0}"), "é\u{a0}");
}

#[test]
fn junit_document_is_exact() {
    let outcome = SuiteOutcome {
        passed: false,
        scenarios: vec![
            outcome("ok", true, false, None),
            outcome("gated", true, true, None),
            outcome("broken", false, false, Some("boom")),
            outcome("silent", false, false, None),
        ],
    };
    let xml = render_junit("s", &outcome);
    let expected: String = [
        "<?xml version=\"1.0\" encoding=\"UTF-8\"?>\n",
        "<testsuites name=\"s\" tests=\"4\" failures=\"2\" skipped=\"1\" errors=\"0\">\n",
        "  <testsuite name=\"s\" tests=\"4\" failures=\"2\" skipped=\"1\" errors=\"0\">\n",
        "    <testcase classname=\"mcp_check\" name=\"ok\">\n",
        "    </testcase>\n",
        "    <testcase classname=\"mcp_check\" name=\"gated\">\n",
        "      <skipped message=\"filtered by capabilities\"/>\n",
        "    </testcase>\n",
        "    <testcase classname=\"mcp_check\" name=\"broken\">\n",
        "      <failure message=\"scenario failed\">boom</failure>\n",
        "    </testcase>\n",
        "    <testcase classname=\"mcp_check\" name=\"silent\">\n",
        "      <failure message=\"scenario failed\"/>\n",
        "    </testcase>\n",
        "  </testsuite>\n",
        "</testsuites>\n",
    ]
    .concat();
    assert_eq!(xml, expected);
}

#[test]
fn passing_suite_reports_zero_failures() {
    let outcome = SuiteOutcome {
        passed: true,
        scenarios: vec![outcome("a", true, false, None), outcome("b", true, true, None)],
    };
    let xml = render_junit("all-green", &outcome);
    assert!(xml.contains("tests=\"2\" failures=\"0\" skipped=\"1\""));
    assert!(!xml.contains("<failure"));
}
