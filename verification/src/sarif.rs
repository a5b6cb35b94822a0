//! Minimal SARIF 2.1.0 output for static analysis consumers (security / CI gates).
use vstd::prelude::*;
use crate::json::{array_of, json_get, json_str, object1, object3, object4, pretty_text, Json, JsonValue};
use crate::junit::failure_count;
use crate::protocol::PACKAGE_VERSION;
use crate::runner::{ScenarioOutcome, SuiteOutcome};

verus! {

/// The message reported for a failed scenario.
pub open spec fn failure_message(o: ScenarioOutcome) -> Seq<char> {
    match o.error {
        Some(m) => m@,
        None => "scenario failed without message"@,
    }
}

/// The SARIF result for a failed scenario of the suite at `uri`.
pub open spec fn sarif_result(o: ScenarioOutcome, uri: Seq<char>) -> Json {
    Json::Object(
        seq![
            ("ruleId"@, Json::Str("mcp-test/scenario-failed"@)),
            ("level"@, Json::Str("error"@)),
            ("message"@, Json::Object(seq![("text"@, Json::Str(failure_message(o)))])),
            (
                "locations"@,
                Json::Array(
                    seq![
                        Json::Object(
                            seq![
                                (
                                    "physicalLocation"@,
                                    Json::Object(
                                        seq![("artifactLocation"@, Json::Object(seq![("uri"@, Json::Str(uri))]))],
                                    ),
                                ),
                            ],
                        ),
                    ],
                ),
            ),
        ],
    )
}

/// The SARIF results for the failed (neither passed nor skipped) scenarios among the
/// first `n`, in order.
pub open spec fn sarif_results(s: Seq<ScenarioOutcome>, uri: Seq<char>, n: int) -> Seq<Json>
    decreases n,
{
    if n <= 0 || n > s.len() {
        Seq::empty()
    } else if s[n - 1].skipped || s[n - 1].passed {
        sarif_results(s, uri, n - 1)
    } else {
        sarif_results(s, uri, n - 1).push(sarif_result(s[n - 1], uri))
    }
}

/// The SARIF document for a suite outcome.
pub open spec fn sarif_document(uri: Seq<char>, s: Seq<ScenarioOutcome>) -> Json {
    Json::Object(
        seq![
            ("version"@, Json::Str("2.1.0"@)),
            ("$schema"@, Json::Str("https://raw.githubusercontent.com/oasis-tcs/sarif-spec/master/Schemata/sarif-schema-2.1.0.json"@)),
            (
                "runs"@,
                Json::Array(
                    seq![
                        Json::Object(
                            seq![
                                (
                                    "tool"@,
                                    Json::Object(
                                        seq![
                                            (
                                                "driver"@,
                                                Json::Object(
                                                    seq![
                                                        ("name"@, Json::Str("mcp-test"@)),
                                                        ("semanticVersion"@, Json::Str(PACKAGE_VERSION@)),
                                                        ("informationUri"@, Json::Str("https://modelcontextprotocol.io/"@)),
                                                    ],
                                                ),
                                            ),
                                        ],
                                    ),
                                ),
                                ("results"@, Json::Array(sarif_results(s, uri, s.len() as int))),
                            ],
                        ),
                    ],
                ),
            ),
        ],
    )
}

/// The SARIF result for one failed scenario.
fn result_for(o: &ScenarioOutcome, uri: &str) -> (r: JsonValue)
    ensures
        r@ == sarif_result(*o, uri@),
{
    let msg = match &o.error {
        Some(m) => json_str(m.as_str()),
        None => json_str("scenario failed without message"),
    };
    let location = object1(
        "physicalLocation",
        object1("artifactLocation", object1("uri", json_str(uri))),
    );
    let mut locs: Vec<JsonValue> = Vec::new();
    locs.push(location);
    let locations = array_of(locs);
    assert(locations@->Array_0 =~= sarif_result(*o, uri@)->Object_0[3].1->Array_0);
    object4(
        "ruleId",
        json_str("mcp-test/scenario-failed"),
        "level",
        json_str("error"),
        "message",
        object1("text", msg),
        "locations",
        locations,
    )
}

/// Emit SARIF JSON (pretty-printed) for failed (non-skipped) scenarios.
pub fn render_sarif(suite_name: &str, outcome: &SuiteOutcome) -> (r: String)
    ensures
        r@ == pretty_text(sarif_document(suite_name@, outcome.scenarios@), Seq::empty()),
{
    let scenarios = &outcome.scenarios;
    let mut results: Vec<JsonValue> = Vec::new();
    let mut i: usize = 0;
    while i < scenarios.len()
        invariant
            i <= scenarios@.len(),
            results@.len() == sarif_results(scenarios@, suite_name@, i as int).len(),
            forall|k: int| 0 <= k < results@.len() ==> #[trigger] results@[k]@ == sarif_results(scenarios@, suite_name@, i as int)[k],
        decreases scenarios@.len() - i,
    {
        let s = &scenarios[i];
        if !(s.skipped || s.passed) {
            results.push(result_for(s, suite_name));
        }
        i = i + 1;
    }
    let results_v = array_of(results);
    assert(results_v@->Array_0 =~= sarif_results(scenarios@, suite_name@, scenarios@.len() as int));
    let driver = object3(
        "name",
        json_str("mcp-test"),
        "semanticVersion",
        json_str(PACKAGE_VERSION),
        "informationUri",
        json_str("https://modelcontextprotocol.io/"),
    );
    let run = crate::json::object2("tool", object1("driver", driver), "results", results_v);
    let mut runs: Vec<JsonValue> = Vec::new();
    runs.push(run);
    let runs_v = array_of(runs);
    let root = object3(
        "version",
        json_str("2.1.0"),
        "$schema",
        json_str("https://raw.githubusercontent.com/oasis-tcs/sarif-spec/master/Schemata/sarif-schema-2.1.0.json"),
        "runs",
        runs_v,
    );
    assert(root@->Object_0[2].1->Array_0 =~= sarif_document(suite_name@, scenarios@)->Object_0[2].1->Array_0);
    assert(root@ == sarif_document(suite_name@, scenarios@));
    root.to_pretty_text()
}

/// Among the first `n` scenarios there is one SARIF result per failure.
proof fn lemma_one_result_per_failure(s: Seq<ScenarioOutcome>, uri: Seq<char>, n: int)
    ensures
        sarif_results(s, uri, n).len() == failure_count(s, n),
    decreases n,
{
    if 0 < n <= s.len() {
        lemma_one_result_per_failure(s, uri, n - 1);
    }
}

/// Law: the SARIF report holds exactly one result per scenario that failed (neither
/// passed nor skipped) — as many as the JUnit report counts as failures — so a suite
/// whose scenarios all passed yields no alerts.
pub proof fn law_one_sarif_result_per_failed_scenario(scenarios: Seq<ScenarioOutcome>, uri: Seq<char>)
    ensures
        sarif_results(scenarios, uri, scenarios.len() as int).len() == failure_count(
            scenarios,
            scenarios.len() as int,
        ),
{
    lemma_one_result_per_failure(scenarios, uri, scenarios.len() as int);
}

/// Each SARIF result is an error under the scenario-failure rule.
proof fn lemma_result_fields(o: ScenarioOutcome, uri: Seq<char>)
    ensures
        json_get(sarif_result(o, uri), "level"@) == Some(Json::Str("error"@)),
        json_get(sarif_result(o, uri), "ruleId"@) == Some(Json::Str("mcp-test/scenario-failed"@)),
{
    reveal_strlit("ruleId");
    reveal_strlit("level");
    let ms = sarif_result(o, uri)->Object_0;
    assert(ms[0].0 == "ruleId"@ && ms[1].0 == "level"@);
    assert(ms[0].1 == Json::Str("mcp-test/scenario-failed"@) && ms[1].1 == Json::Str("error"@));
    assert("ruleId"@.len() != "level"@.len());
    crate::json::lemma_find_key_from(ms, "level"@, 0);
    crate::json::lemma_find_key_from(ms, "ruleId"@, 0);
}

/// Every result among the first `n` is an error under the scenario-failure rule.
proof fn lemma_results_fields(s: Seq<ScenarioOutcome>, uri: Seq<char>, n: int)
    ensures
        forall|k: int| 0 <= k < sarif_results(s, uri, n).len() ==> {
            &&& json_get(#[trigger] sarif_results(s, uri, n)[k], "level"@) == Some(Json::Str("error"@))
            &&& json_get(sarif_results(s, uri, n)[k], "ruleId"@) == Some(Json::Str("mcp-test/scenario-failed"@))
        },
    decreases n,
{
    if 0 < n <= s.len() {
        lemma_results_fields(s, uri, n - 1);
        lemma_result_fields(s[n - 1], uri);
    }
}

/// The document has one run holding `count` results, each with level `error` under the
/// rule `mcp-test/scenario-failed`.
pub open spec fn alerts_are_errors(doc: Json, count: nat) -> bool {
    match json_get(doc, "runs"@) {
        Some(Json::Array(runs)) => runs.len() == 1 && match json_get(runs[0], "results"@) {
            Some(Json::Array(rs)) => rs.len() == count && forall|k: int| 0 <= k < rs.len() ==> {
                &&& json_get(#[trigger] rs[k], "level"@) == Some(Json::Str("error"@))
                &&& json_get(rs[k], "ruleId"@) == Some(Json::Str("mcp-test/scenario-failed"@))
            },
            _ => false,
        },
        _ => false,
    }
}

/// Law: the SARIF document has one run whose results are exactly one per failed
/// scenario, and every one of them has level `error` under the rule
/// `mcp-test/scenario-failed`, so a CI gate on SARIF errors sees each failure.
pub proof fn law_sarif_failures_are_errors(uri: Seq<char>, scenarios: Seq<ScenarioOutcome>)
    ensures
        alerts_are_errors(sarif_document(uri, scenarios), failure_count(scenarios, scenarios.len() as int)),
{
    reveal_strlit("version");
    reveal_strlit("$schema");
    reveal_strlit("runs");
    reveal_strlit("tool");
    reveal_strlit("results");
    let doc = sarif_document(uri, scenarios);
    let dm = doc->Object_0;
    assert(dm[0].0 == "version"@ && dm[1].0 == "$schema"@ && dm[2].0 == "runs"@);
    assert("version"@.len() != "runs"@.len() && "$schema"@.len() != "runs"@.len());
    crate::json::lemma_find_key_from(dm, "runs"@, 0);
    let runs = dm[2].1->Array_0;
    let rm = runs[0]->Object_0;
    assert(rm[0].0 == "tool"@ && rm[1].0 == "results"@);
    assert("tool"@.len() != "results"@.len());
    crate::json::lemma_find_key_from(rm, "results"@, 0);
    lemma_results_fields(scenarios, uri, scenarios.len() as int);
    lemma_one_result_per_failure(scenarios, uri, scenarios.len() as int);
}

} // verus!
