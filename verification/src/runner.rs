//! Suite execution decisions: scenario outcomes, capability gating, and step checks.
use vstd::prelude::*;
use vstd::string::StringExecFns;
use crate::error::{error_text, CoreError, ErrorModel, RpcError};
use crate::expect::{
    index_path, law_ordered_match_is_index_aligned, strict_equal, strict_verdict, subset_match_with_options,
    subset_verdict, MatchVerdict,
};
use crate::json::{find_key, find_member, json_parse_bytes, json_text, lemma_find_key_from, parse_json_bytes, Json, JsonValue};
use crate::pointer::{pointer_lookup, resolve_pointer, split_slash, split_tokens};
use crate::schema::{json_schema_compiles, schema_compiles, schema_report, validate_json_schema};
use crate::suite::{
    has_schema_path, rpc_target, schema_path_is_set, step_shape_error, ExpectRpcError,
    ExpectSpec, MatchMode, Scenario,
};
use crate::text::{
    chars_of, int_text, nat_text, push_i64, push_str, push_usize, seq_contains, str_contains,
    string_of, trim_chars, trimmed,
};

verus! {

/// How on-disk suite-relative paths (such as `result_schema_path`) are resolved.
#[derive(Clone, Debug)]
pub struct SuiteResolution {
    /// Directory containing the suite file (used for `result_schema_path`).
    pub suite_directory: Option<String>,
}

impl SuiteResolution {
    /// A resolution with no suite directory (suites not loaded from disk).
    pub fn detached() -> (r: SuiteResolution)
        ensures
            r.suite_directory is None,
    {
        SuiteResolution { suite_directory: None }
    }
}

/// Outcome for a single scenario.
#[derive(Clone, Debug)]
pub struct ScenarioOutcome {
    pub name: String,
    pub passed: bool,
    pub skipped: bool,
    pub error: Option<String>,
}

/// Aggregate report for a suite run.
#[derive(Clone, Debug)]
pub struct SuiteOutcome {
    pub passed: bool,
    pub scenarios: Vec<ScenarioOutcome>,
}

/// `o` records scenario `name` with the given verdict and error message.
pub open spec fn outcome_is(o: ScenarioOutcome, name: Seq<char>, passed: bool, skipped: bool, error: Option<Seq<char>>) -> bool {
    &&& o.name@ == name
    &&& o.passed == passed
    &&& o.skipped == skipped
    &&& match o.error {
        Some(m) => error == Some(m@),
        None => error is None,
    }
}

/// A scenario outcome is consistent: it passed exactly when it carries no error, and a
/// skipped scenario passed.
pub open spec fn outcome_consistent(o: ScenarioOutcome) -> bool {
    &&& o.passed == (o.error is None)
    &&& (o.skipped ==> o.passed)
}

/// Every outcome of `s` is consistent.
pub open spec fn all_consistent(s: Seq<ScenarioOutcome>) -> bool {
    forall|i: int| 0 <= i < s.len() ==> outcome_consistent(#[trigger] s[i])
}

/// The message a scenario outcome records for a run result.
pub open spec fn result_message(res: Result<(), CoreError>) -> Option<Seq<char>> {
    match res {
        Ok(()) => None,
        Err(e) => Some(error_text(e)),
    }
}

/// Whether the server's `capabilities` rule a scenario out: the scenario lists keys and
/// the capabilities are not an object holding at least one of them.
pub open spec fn skip_for_capabilities(caps: Json, keys: Seq<String>) -> bool {
    if keys.len() == 0 {
        false
    } else {
        match caps {
            Json::Object(ms) => !exists|i: int| 0 <= i < keys.len() && #[trigger] find_key(ms, keys[i]@) is Some,
            _ => true,
        }
    }
}

/// Decides whether a scenario is skipped for the server's capabilities.
pub fn should_skip_for_capabilities(server_caps: &JsonValue, keys: &Vec<String>) -> (r: bool)
    ensures
        r == skip_for_capabilities(server_caps@, keys@),
{
    if keys.len() == 0 {
        return false;
    }
    match server_caps {
        JsonValue::Object(members) => {
            let ghost ms = server_caps@->Object_0;
            assert(server_caps@ == Json::Object(ms));
            assert(ms.len() == members@.len());
            assert(forall|k: int| 0 <= k < members@.len() ==> #[trigger] ms[k] == (members@[k].0@, members@[k].1@));
            let mut i: usize = 0;
            while i < keys.len()
                invariant
                    i <= keys@.len(),
                    ms.len() == members@.len(),
                    server_caps@ == Json::Object(ms),
                    forall|k: int| 0 <= k < members@.len() ==> #[trigger] ms[k] == (members@[k].0@, members@[k].1@),
                    forall|q: int| 0 <= q < i ==> !(#[trigger] find_key(ms, keys@[q]@) is Some),
                decreases keys@.len() - i,
            {
                proof {
                    lemma_find_key_from(ms, keys@[i as int]@, 0);
                    match find_key(ms, keys@[i as int]@) {
                        Some(q) => {
                            assert(ms[q] == (members@[q].0@, members@[q].1@));
                        },
                        None => {},
                    }
                }
                match find_member(members, keys[i].as_str()) {
                    Some(j) => {
                        assert(ms[j as int] == (members@[j as int].0@, members@[j as int].1@));
                        assert(find_key(ms, keys@[i as int]@) is Some);
                        return false;
                    },
                    None => {},
                }
                i = i + 1;
            }
            true
        },
        _ => true,
    }
}

/// Records the outcome of running `scenario` and clears `all_passed` on failure.
pub fn push_scenario_outcome(
    scenarios_out: &mut Vec<ScenarioOutcome>,
    all_passed: &mut bool,
    scenario: &Scenario,
    res: Result<(), CoreError>,
)
    ensures
        final(scenarios_out)@.len() == old(scenarios_out)@.len() + 1,
        forall|i: int| 0 <= i < old(scenarios_out)@.len() ==> #[trigger] final(scenarios_out)@[i] == old(scenarios_out)@[i],
        outcome_is(final(scenarios_out)@.last(), scenario.name@, res is Ok, false, result_message(res)),
        *final(all_passed) == (*old(all_passed) && res is Ok),
{
    match res {
        Ok(()) => scenarios_out.push(
            ScenarioOutcome { name: scenario.name.clone(), passed: true, skipped: false, error: None },
        ),
        Err(e) => {
            *all_passed = false;
            scenarios_out.push(
                ScenarioOutcome {
                    name: scenario.name.clone(),
                    passed: false,
                    skipped: false,
                    error: Some(e.to_message()),
                },
            );
        },
    }
}

/// The outcomes collected while a suite runs, and whether all of them passed so far.
pub struct SuiteRun {
    outcomes: Vec<ScenarioOutcome>,
    all_passed: bool,
}

/// Every recorded scenario passed.
pub open spec fn all_passed(s: Seq<ScenarioOutcome>) -> bool {
    forall|i: int| 0 <= i < s.len() ==> #[trigger] s[i].passed
}

/// Appending an outcome keeps the earlier ones and adds its verdict.
proof fn lemma_all_passed_push(s: Seq<ScenarioOutcome>, o: ScenarioOutcome)
    ensures
        all_passed(s.push(o)) == (all_passed(s) && o.passed),
        all_consistent(s) && outcome_consistent(o) ==> all_consistent(s.push(o)),
{
    assert forall|i: int| 0 <= i < s.len() implies s.push(o)[i] == s[i] by {}
    assert(s.push(o)[s.len() as int] == o);
    if all_passed(s.push(o)) {
        assert forall|i: int| 0 <= i < s.len() implies #[trigger] s[i].passed by {
            assert(s.push(o)[i] == s[i]);
        }
        assert(s.push(o)[s.len() as int] == o);
    }
}

impl SuiteRun {
    /// The outcomes recorded so far, in order.
    pub closed spec fn outcomes(&self) -> Seq<ScenarioOutcome> {
        self.outcomes@
    }

    /// The pass flag agrees with the recorded outcomes.
    pub closed spec fn wf(&self) -> bool {
        &&& self.all_passed == all_passed(self.outcomes@)
        &&& all_consistent(self.outcomes@)
    }

    /// A run with nothing recorded yet.
    pub fn new() -> (r: SuiteRun)
        ensures
            r.wf(),
            r.outcomes().len() == 0,
    {
        SuiteRun { outcomes: Vec::new(), all_passed: true }
    }

    /// Records a scenario skipped for the server's capabilities (it counts as passed).
    pub fn record_skip(&mut self, scenario: &Scenario)
        requires
            old(self).wf(),
        ensures
            final(self).wf(),
            final(self).outcomes() == old(self).outcomes().push(final(self).outcomes().last()),
            outcome_is(final(self).outcomes().last(), scenario.name@, true, true, None),
    {
        self.outcomes.push(
            ScenarioOutcome { name: scenario.name.clone(), passed: true, skipped: true, error: None },
        );
        assert(self.outcomes@ =~= old(self).outcomes@.push(self.outcomes@.last()));
        proof {
            lemma_all_passed_push(old(self).outcomes@, self.outcomes@.last());
        }
    }

    /// Records a scenario whose server session could not be opened.
    pub fn record_connect_failure(&mut self, scenario: &Scenario, err: CoreError)
        requires
            old(self).wf(),
        ensures
            final(self).wf(),
            final(self).outcomes() == old(self).outcomes().push(final(self).outcomes().last()),
            outcome_is(final(self).outcomes().last(), scenario.name@, false, false, Some(error_text(err))),
    {
        self.all_passed = false;
        self.outcomes.push(
            ScenarioOutcome {
                name: scenario.name.clone(),
                passed: false,
                skipped: false,
                error: Some(err.to_message()),
            },
        );
        assert(self.outcomes@ =~= old(self).outcomes@.push(self.outcomes@.last()));
        proof {
            lemma_all_passed_push(old(self).outcomes@, self.outcomes@.last());
        }
    }

    /// Records the result of running a scenario's steps.
    pub fn record_result(&mut self, scenario: &Scenario, res: Result<(), CoreError>)
        requires
            old(self).wf(),
        ensures
            final(self).wf(),
            final(self).outcomes() == old(self).outcomes().push(final(self).outcomes().last()),
            outcome_is(final(self).outcomes().last(), scenario.name@, res is Ok, false, result_message(res)),
    {
        push_scenario_outcome(&mut self.outcomes, &mut self.all_passed, scenario, res);
        assert(self.outcomes@ =~= old(self).outcomes@.push(self.outcomes@.last()));
        proof {
            lemma_all_passed_push(old(self).outcomes@, self.outcomes@.last());
        }
    }

    /// The suite report: it passed exactly when every scenario passed or was skipped.
    pub fn finish(self) -> (r: SuiteOutcome)
        requires
            self.wf(),
        ensures
            r.scenarios@ == self.outcomes(),
            r.passed == all_passed(r.scenarios@),
            all_consistent(r.scenarios@),
    {
        SuiteOutcome { passed: self.all_passed, scenarios: self.outcomes }
    }
}

/// `{scenario} step {n}: ` — how invalid steps are labelled.
pub open spec fn step_label(scenario: Seq<char>, n: nat) -> Seq<char> {
    scenario + " step "@ + nat_text(n) + ": "@
}

/// What a step sends, or why it cannot be sent (steps are numbered from 1).
pub open spec fn prepared_step(s: Scenario, idx: int) -> Result<(Seq<char>, Json), ErrorModel> {
    let st = s.steps@[idx];
    match step_shape_error(st) {
        Some(d) => Err(ErrorModel::InvalidStep(step_label(s.name@, (idx + 1) as nat) + d)),
        None => match rpc_target(st) {
            Ok(t) => Ok(t),
            Err(d) => Err(ErrorModel::InvalidStep(step_label(s.name@, (idx + 1) as nat) + d)),
        },
    }
}

/// The model of a prepared request.
pub open spec fn request_of(r: Result<(String, JsonValue), CoreError>) -> Result<(Seq<char>, Json), ErrorModel> {
    match r {
        Ok((m, p)) => Ok((m@, p@)),
        Err(e) => Err(e@),
    }
}

/// An `InvalidStep` error for step `idx` of `scenario`.
fn invalid_step(scenario: &Scenario, idx: usize, detail: &str) -> (r: CoreError)
    requires
        idx < usize::MAX,
    ensures
        r@ == ErrorModel::InvalidStep(step_label(scenario.name@, (idx + 1) as nat) + detail@),
{
    let mut out = scenario.name.clone();
    push_str(&mut out, " step ");
    push_usize(&mut out, idx + 1);
    push_str(&mut out, ": ");
    push_str(&mut out, detail);
    CoreError::InvalidStep(out)
}

/// Checks step `idx` of `scenario` and returns the JSON-RPC method and params it sends.
pub fn prepare_step(scenario: &Scenario, idx: usize) -> (r: Result<(String, JsonValue), CoreError>)
    requires
        idx < scenario.steps@.len(),
    ensures
        request_of(r) == prepared_step(*scenario, idx as int),
{
    let count = scenario.steps.len();
    assert(idx < count);
    let step = &scenario.steps[idx];
    match step.validate() {
        Err(detail) => Err(invalid_step(scenario, idx, detail.as_str())),
        Ok(()) => match step.rpc_method_and_params() {
            Ok(t) => Ok(t),
            Err(detail) => Err(invalid_step(scenario, idx, detail.as_str())),
        },
    }
}

/// Whether `regex` compiles `pattern` (`Err` with the error's text when it does not) and,
/// if so, whether it finds a match anywhere in `haystack`.
pub uninterp spec fn regex_search(pattern: Seq<char>, haystack: Seq<char>) -> Result<bool, Seq<char>>;

/// Calls `regex::Regex::new` on `pattern` and, when that succeeds, `Regex::is_match` on
/// `haystack`. The claim is only that the result is a function of the two strings.
#[verifier::external_body]
fn regex_is_match(pattern: &str, haystack: &str) -> (r: Result<bool, String>)
    ensures
        match r {
            Ok(b) => regex_search(pattern@, haystack@) == Ok::<bool, Seq<char>>(b),
            Err(m) => regex_search(pattern@, haystack@) == Err::<bool, Seq<char>>(m@),
        },
{
    match regex::Regex::new(pattern) {
        Ok(re) => Ok(re.is_match(haystack)),
        Err(e) => Err(e.to_string()),
    }
}

/// Why a JSON-RPC error does not meet an `expect_error` block, if it does not.
pub open spec fn rpc_expectation_error(spec: ExpectRpcError, err: RpcError) -> Option<Seq<char>> {
    if spec.code is Some && spec.code->Some_0 != err.code {
        Some("expected code "@ + int_text(spec.code->Some_0 as int) + ", got "@ + int_text(err.code as int))
    } else if spec.message_contains is Some && !seq_contains(err.message@, spec.message_contains->Some_0@) {
        Some("expected message to contain `"@ + spec.message_contains->Some_0@ + "`, got `"@ + err.message@ + "`"@)
    } else {
        match spec.message_regex {
            Some(re) => match regex_search(re@, err.message@) {
                Err(e) => Some("invalid message_regex: "@ + e),
                Ok(found) => if found {
                    None
                } else {
                    Some("expected message to match regex `"@ + re@ + "`, got `"@ + err.message@ + "`"@)
                },
            },
            None => None,
        }
    }
}

/// Checks a JSON-RPC error against an `expect_error` block.
pub fn check_rpc_expectation(spec: &ExpectRpcError, err: &RpcError) -> (r: Result<(), String>)
    ensures
        crate::suite::check_of(r) == rpc_expectation_error(*spec, *err),
{
    if let Some(expected_code) = spec.code {
        if expected_code != err.code {
            let mut out = String::from_str("expected code ");
            push_i64(&mut out, expected_code);
            push_str(&mut out, ", got ");
            push_i64(&mut out, err.code);
            return Err(out);
        }
    }
    if let Some(sub) = &spec.message_contains {
        if !str_contains(err.message.as_str(), sub.as_str()) {
            let mut out = String::from_str("expected message to contain `");
            push_str(&mut out, sub.as_str());
            push_str(&mut out, "`, got `");
            push_str(&mut out, err.message.as_str());
            push_str(&mut out, "`");
            return Err(out);
        }
    }
    if let Some(re) = &spec.message_regex {
        match regex_is_match(re.as_str(), err.message.as_str()) {
            Err(e) => {
                let mut out = String::from_str("invalid message_regex: ");
                push_str(&mut out, e.as_str());
                return Err(out);
            },
            Ok(found) => {
                if !found {
                    let mut out = String::from_str("expected message to match regex `");
                    push_str(&mut out, re.as_str());
                    push_str(&mut out, "`, got `");
                    push_str(&mut out, err.message.as_str());
                    push_str(&mut out, "`");
                    return Err(out);
                }
            },
        }
    }
    Ok(())
}

/// Where the checking of one step's response stands.
#[derive(Debug)]
pub enum StepJudgement {
    /// The step is decided.
    Done(Result<(), CoreError>),
    /// The step's `result_schema_path` (already trimmed and free of `..`) must be read
    /// relative to the suite directory `base` and checked against `effective`.
    LoadSchemaFile { base: String, relative: String, effective: JsonValue },
    /// A schema the step names cannot be compiled by the validator.
    UnusableSchema,
}

/// The model of a step judgement.
pub enum JudgementModel {
    Done(Option<ErrorModel>),
    LoadSchemaFile(Seq<char>, Seq<char>, Json),
    UnusableSchema,
}

impl View for StepJudgement {
    type V = JudgementModel;

    open spec fn view(&self) -> JudgementModel {
        match self {
            StepJudgement::Done(r) => JudgementModel::Done(
                match r {
                    Ok(()) => None,
                    Err(e) => Some(e@),
                },
            ),
            StepJudgement::LoadSchemaFile { base, relative, effective } => JudgementModel::LoadSchemaFile(
                base@,
                relative@,
                effective@,
            ),
            StepJudgement::UnusableSchema => JudgementModel::UnusableSchema,
        }
    }
}

/// The part of `result` the assertions apply to: the whole of it, or what a non-blank
/// `result_pointer` addresses.
pub open spec fn effective_result(pointer: Option<String>, result: Json) -> Option<Json> {
    match pointer {
        None => Some(result),
        Some(p) => if trimmed(p@).len() == 0 {
            Some(result)
        } else {
            pointer_lookup(result, trimmed(p@))
        },
    }
}

/// The verdict of the structural `result` assertion (strict or subset).
pub open spec fn template_verdict(e: ExpectSpec, eff: Json) -> MatchVerdict {
    match e.result {
        None => Ok(()),
        Some(t) => match e.match_mode {
            MatchMode::Strict => strict_verdict(t@, eff),
            MatchMode::Subset => subset_verdict("$"@, t@, eff, e.ordered_arrays),
        },
    }
}

/// `result_schema_path` handling once the other assertions have passed.
pub open spec fn schema_path_judgement(e: ExpectSpec, eff: Json, dir: Option<String>, scen: Seq<char>, n: usize) -> JudgementModel {
    match e.result_schema_path {
        None => JudgementModel::Done(None),
        Some(rel) => {
            let t = trimmed(rel@);
            if t.len() == 0 {
                JudgementModel::Done(Some(ErrorModel::InvalidExpectConfig(scen, n, "`result_schema_path` is empty"@)))
            } else {
                match dir {
                    None => JudgementModel::Done(
                        Some(
                            ErrorModel::InvalidExpectConfig(
                                scen,
                                n,
                                "`result_schema_path` requires the suite to be loaded from disk so its directory can be resolved"@,
                            ),
                        ),
                    ),
                    Some(base) => if seq_contains(t, ".."@) {
                        JudgementModel::Done(Some(ErrorModel::PathTraversal("result_schema_path contains '..': "@ + t)))
                    } else {
                        JudgementModel::LoadSchemaFile(base@, t, eff)
                    },
                }
            }
        },
    }
}

/// How an `expect` block judges a successful `result`.
pub open spec fn expect_judgement(e: ExpectSpec, result: Json, dir: Option<String>, scen: Seq<char>, n: usize) -> JudgementModel {
    let has_subset = e.result is Some;
    let has_inline = e.result_schema is Some;
    let has_path = has_schema_path(e.result_schema_path);
    if !has_subset && !has_inline && !has_path {
        JudgementModel::Done(
            Some(
                ErrorModel::InvalidExpectConfig(
                    scen,
                    n,
                    "set at least one of `result`, `result_schema`, or `result_schema_path`"@,
                ),
            ),
        )
    } else if has_inline && has_path {
        JudgementModel::Done(
            Some(ErrorModel::InvalidExpectConfig(scen, n, "use only one of `result_schema` or `result_schema_path`"@)),
        )
    } else {
        match effective_result(e.result_pointer, result) {
            None => JudgementModel::Done(
                Some(
                    ErrorModel::InvalidExpectConfig(
                        scen,
                        n,
                        "result_pointer `"@ + e.result_pointer->Some_0@ + "` not found in response"@,
                    ),
                ),
            ),
            Some(eff) => match template_verdict(e, eff) {
                Err(f) => JudgementModel::Done(Some(ErrorModel::StepExpectation(scen, n, f))),
                Ok(()) => match e.result_schema {
                    Some(sch) => if !schema_compiles(json_text(sch@)) {
                        JudgementModel::UnusableSchema
                    } else {
                        match schema_report(eff, sch@) {
                            Some(m) => JudgementModel::Done(Some(ErrorModel::ResultSchemaMismatch(scen, n, m))),
                            None => schema_path_judgement(e, eff, dir, scen, n),
                        }
                    },
                    None => schema_path_judgement(e, eff, dir, scen, n),
                },
            },
        }
    }
}

/// An `InvalidExpectConfig` error.
fn invalid_expect(scenario: &str, step: usize, detail: String) -> (r: CoreError)
    ensures
        r@ == ErrorModel::InvalidExpectConfig(scenario@, step, detail@),
{
    CoreError::InvalidExpectConfig { scenario: String::from_str(scenario), step, detail }
}

/// Resolves a possibly blank `result_pointer` against `result`.
fn effective_of<'a>(pointer: &Option<String>, result: &'a JsonValue) -> (r: Option<&'a JsonValue>)
    ensures
        match r {
            Some(v) => effective_result(*pointer, result@) == Some(v@),
            None => effective_result(*pointer, result@) is None,
        },
{
    match pointer {
        None => Some(result),
        Some(p) => {
            let t = trim_chars(p.as_str());
            if t.len() == 0 {
                Some(result)
            } else {
                let ts = string_of(&t);
                resolve_pointer(result, ts.as_str())
            }
        },
    }
}

/// `result_schema_path` handling once the other assertions have passed.
fn judge_schema_path(expect: &ExpectSpec, eff: &JsonValue, resolution: &SuiteResolution, scenario: &str, step: usize) -> (r: StepJudgement)
    ensures
        r@ == schema_path_judgement(*expect, eff@, resolution.suite_directory, scenario@, step),
{
    match &expect.result_schema_path {
        None => StepJudgement::Done(Ok(())),
        Some(rel) => {
            let t = trim_chars(rel.as_str());
            if t.len() == 0 {
                return StepJudgement::Done(
                    Err(invalid_expect(scenario, step, String::from_str("`result_schema_path` is empty"))),
                );
            }
            match &resolution.suite_directory {
                None => StepJudgement::Done(
                    Err(
                        invalid_expect(
                            scenario,
                            step,
                            String::from_str(
                                "`result_schema_path` requires the suite to be loaded from disk so its directory can be resolved",
                            ),
                        ),
                    ),
                ),
                Some(base) => {
                    let ts = string_of(&t);
                    if str_contains(ts.as_str(), "..") {
                        let mut msg = String::from_str("result_schema_path contains '..': ");
                        push_str(&mut msg, ts.as_str());
                        StepJudgement::Done(Err(CoreError::PathTraversal(msg)))
                    } else {
                        StepJudgement::LoadSchemaFile {
                            base: base.clone(),
                            relative: ts,
                            effective: eff.deep_clone(),
                        }
                    }
                },
            }
        },
    }
}

/// Applies an `expect` block to the `result` of a successful call.
pub fn apply_expect(expect: &ExpectSpec, result: &JsonValue, resolution: &SuiteResolution, scenario: &str, step: usize) -> (r: StepJudgement)
    ensures
        r@ == expect_judgement(*expect, result@, resolution.suite_directory, scenario@, step),
{
    let has_subset = expect.result.is_some();
    let has_inline = expect.result_schema.is_some();
    let has_path = schema_path_is_set(&expect.result_schema_path);
    if !has_subset && !has_inline && !has_path {
        return StepJudgement::Done(
            Err(
                invalid_expect(
                    scenario,
                    step,
                    String::from_str("set at least one of `result`, `result_schema`, or `result_schema_path`"),
                ),
            ),
        );
    }
    if has_inline && has_path {
        return StepJudgement::Done(
            Err(invalid_expect(scenario, step, String::from_str("use only one of `result_schema` or `result_schema_path`"))),
        );
    }
    let eff = match effective_of(&expect.result_pointer, result) {
        Some(v) => v,
        None => {
            let ptr = match &expect.result_pointer {
                Some(p) => p,
                None => {
                    return StepJudgement::Done(Ok(()));
                },
            };
            let mut detail = String::from_str("result_pointer `");
            push_str(&mut detail, ptr.as_str());
            push_str(&mut detail, "` not found in response");
            return StepJudgement::Done(Err(invalid_expect(scenario, step, detail)));
        },
    };
    if let Some(template) = &expect.result {
        let verdict = match expect.match_mode {
            MatchMode::Strict => strict_equal(template, eff),
            MatchMode::Subset => subset_match_with_options(template, eff, expect.ordered_arrays),
        };
        if let Err(source) = verdict {
            return StepJudgement::Done(
                Err(CoreError::StepExpectation { scenario: String::from_str(scenario), step, source }),
            );
        }
    }
    if let Some(schema) = &expect.result_schema {
        if !json_schema_compiles(schema) {
            return StepJudgement::UnusableSchema;
        }
        if let Err(message) = validate_json_schema(eff, schema) {
            return StepJudgement::Done(
                Err(CoreError::ResultSchemaMismatch { scenario: String::from_str(scenario), step, message }),
            );
        }
    }
    judge_schema_path(expect, eff, resolution, scenario, step)
}

/// Finishes a step once its schema file has been read: `None` when the schema in the
/// file cannot be compiled by the validator.
pub fn apply_schema_file(effective: &JsonValue, loaded: Result<JsonValue, CoreError>, scenario: &str, step: usize) -> (r: Option<Result<(), CoreError>>)
    ensures
        match loaded {
            Err(e) => r == Some(Err::<(), CoreError>(e)),
            Ok(schema) => if !schema_compiles(json_text(schema@)) {
                r is None
            } else {
                match schema_report(effective@, schema@) {
                    Some(m) => r matches Some(Err(e2)) && e2@ == ErrorModel::ResultSchemaMismatch(scenario@, step, m),
                    None => r matches Some(Ok(())),
                }
            },
        },
{
    match loaded {
        Err(e) => Some(Err(e)),
        Ok(schema) => {
            if !json_schema_compiles(&schema) {
                return None;
            }
            match validate_json_schema(effective, &schema) {
                Err(message) => Some(
                    Err(CoreError::ResultSchemaMismatch { scenario: String::from_str(scenario), step, message }),
                ),
                Ok(()) => Some(Ok(())),
            }
        },
    }
}

/// What the bytes of a schema file give: the parsed schema, or a JSON error.
pub open spec fn schema_file_model(bytes: Seq<u8>) -> Result<Json, ErrorModel> {
    match json_parse_bytes(bytes) {
        Ok(v) => Ok(v),
        Err(m) => Err(ErrorModel::Json(m)),
    }
}

/// Parses the bytes read from a `result_schema_path` file.
pub fn schema_from_bytes(bytes: &[u8]) -> (r: Result<JsonValue, CoreError>)
    ensures
        match r {
            Ok(v) => schema_file_model(bytes@) == Ok::<Json, ErrorModel>(v@),
            Err(e) => schema_file_model(bytes@) == Err::<Json, ErrorModel>(e@),
        },
{
    match parse_json_bytes(bytes) {
        Ok(v) => Ok(v),
        Err(m) => Err(CoreError::Json(m)),
    }
}

/// How the response to step `idx` of `s` is judged.
pub open spec fn step_judgement(s: Scenario, idx: int, outcome: Result<JsonValue, RpcError>, dir: Option<String>) -> JudgementModel {
    let st = s.steps@[idx];
    let n = (idx + 1) as usize;
    match st.expect_error {
        Some(spec) => match outcome {
            Ok(_) => JudgementModel::Done(Some(ErrorModel::UnexpectedRpcSuccess(s.name@, n))),
            Err(rpc) => match rpc_expectation_error(spec, rpc) {
                Some(d) => JudgementModel::Done(Some(ErrorModel::RpcExpectationMismatch(s.name@, n, d))),
                None => JudgementModel::Done(None),
            },
        },
        None => match outcome {
            Err(rpc) => JudgementModel::Done(
                Some(ErrorModel::JsonRpc(rpc.code, rpc.message@, crate::error::rpc_model(rpc).2)),
            ),
            Ok(v) => match st.expect {
                None => JudgementModel::Done(
                    Some(ErrorModel::InvalidStep(s.name@ + " step "@ + nat_text(n as nat) + ": missing `expect` for success path"@)),
                ),
                Some(e) => expect_judgement(e, v@, dir, s.name@, n),
            },
        },
    }
}

/// Judges the server's answer to step `idx` of `scenario`.
pub fn judge_step(scenario: &Scenario, idx: usize, outcome: Result<JsonValue, RpcError>, resolution: &SuiteResolution) -> (r: StepJudgement)
    requires
        idx < scenario.steps@.len(),
    ensures
        r@ == step_judgement(*scenario, idx as int, outcome, resolution.suite_directory),
{
    let count = scenario.steps.len();
    assert(idx < count);
    let step = &scenario.steps[idx];
    let n = idx + 1;
    match &step.expect_error {
        Some(spec) => match outcome {
            Ok(_) => StepJudgement::Done(
                Err(CoreError::UnexpectedRpcSuccess { scenario: scenario.name.clone(), step: n }),
            ),
            Err(rpc) => match check_rpc_expectation(spec, &rpc) {
                Err(detail) => StepJudgement::Done(
                    Err(CoreError::RpcExpectationMismatch { scenario: scenario.name.clone(), step: n, detail }),
                ),
                Ok(()) => StepJudgement::Done(Ok(())),
            },
        },
        None => match outcome {
            Err(rpc) => StepJudgement::Done(Err(CoreError::JsonRpc(rpc))),
            Ok(value) => match &step.expect {
                None => {
                    let mut msg = scenario.name.clone();
                    push_str(&mut msg, " step ");
                    push_usize(&mut msg, n);
                    push_str(&mut msg, ": missing `expect` for success path");
                    StepJudgement::Done(Err(CoreError::InvalidStep(msg)))
                },
                Some(e) => apply_expect(e, &value, resolution, scenario.name.as_str(), n),
            },
        },
    }
}

/// The non-empty, non-`.` segments of the first `n` parts of a `/`-split path.
pub open spec fn kept_parts(parts: Seq<Seq<char>>, n: int) -> Seq<Seq<char>>
    decreases n,
{
    if n <= 0 || n > parts.len() {
        Seq::empty()
    } else {
        let r = kept_parts(parts, n - 1);
        let l = parts[n - 1];
        if l.len() == 0 || l == "."@ {
            r
        } else {
            r.push(l)
        }
    }
}

/// The normal components of a path.
pub open spec fn path_parts(p: Seq<char>) -> Seq<Seq<char>> {
    kept_parts(split_slash(p), split_slash(p).len() as int)
}

/// Whether a path starts at the root.
pub open spec fn is_absolute(p: Seq<char>) -> bool {
    p.len() > 0 && p[0] == '/'
}

/// `path` lies under `base` component-wise (`Path::starts_with` on the canonical,
/// absolute paths the resolver produces).
pub open spec fn path_within(path: Seq<char>, base: Seq<char>) -> bool {
    &&& is_absolute(path) == is_absolute(base)
    &&& path_parts(base).len() <= path_parts(path).len()
    &&& path_parts(path).take(path_parts(base).len() as int) == path_parts(base)
}

/// The normal components of a path.
fn path_parts_exec(p: &str) -> (r: Vec<Vec<char>>)
    ensures
        r@.len() == path_parts(p@).len(),
        forall|i: int| 0 <= i < r@.len() ==> #[trigger] r@[i]@ == path_parts(p@)[i],
{
    let cs = chars_of(p);
    let parts = split_tokens(&cs, 0);
    assert(cs@.subrange(0, cs@.len() as int) =~= p@);
    let ghost sp = split_slash(p@);
    let mut out: Vec<Vec<char>> = Vec::new();
    let mut i: usize = 0;
    while i < parts.len()
        invariant
            i <= parts@.len(),
            parts@.len() == sp.len(),
            forall|k: int| 0 <= k < parts@.len() ==> #[trigger] parts@[k]@ == sp[k],
            out@.len() == kept_parts(sp, i as int).len(),
            forall|k: int| 0 <= k < out@.len() ==> #[trigger] out@[k]@ == kept_parts(sp, i as int)[k],
        decreases parts@.len() - i,
    {
        let part = &parts[i];
        let is_dot = part.len() == 1 && part[0] == '.';
        proof {
            reveal_strlit(".");
            if part@.len() == 1 && part@[0] == '.' {
                assert(part@ =~= "."@);
            }
            if part@ == "."@ {
                assert(part@.len() == 1 && part@[0] == '.');
            }
        }
        if part.len() != 0 && !is_dot {
            out.push(part.clone());
        }
        i = i + 1;
    }
    out
}

/// Whether two character vectors are equal.
fn chars_equal(a: &Vec<char>, b: &Vec<char>) -> (r: bool)
    ensures
        r == (a@ == b@),
{
    if a.len() != b.len() {
        return false;
    }
    let mut i: usize = 0;
    while i < a.len()
        invariant
            i <= a@.len(),
            a@.len() == b@.len(),
            forall|k: int| 0 <= k < i ==> a@[k] == b@[k],
        decreases a@.len() - i,
    {
        if a[i] != b[i] {
            return false;
        }
        i = i + 1;
    }
    assert(a@ =~= b@);
    true
}

/// Whether `path` lies under `base`, component-wise.
pub fn path_starts_with(path: &str, base: &str) -> (r: bool)
    ensures
        r == path_within(path@, base@),
{
    let pc = chars_of(path);
    let bc = chars_of(base);
    let pa = pc.len() > 0 && pc[0] == '/';
    let ba = bc.len() > 0 && bc[0] == '/';
    if pa != ba {
        return false;
    }
    let pp = path_parts_exec(path);
    let bp = path_parts_exec(base);
    if bp.len() > pp.len() {
        return false;
    }
    let ghost ps = path_parts(path@);
    let ghost bs = path_parts(base@);
    let mut i: usize = 0;
    while i < bp.len()
        invariant
            i <= bp@.len(),
            bp@.len() <= pp@.len(),
            is_absolute(path@) == is_absolute(base@),
            ps == path_parts(path@),
            bs == path_parts(base@),
            pp@.len() == ps.len(),
            bp@.len() == bs.len(),
            forall|k: int| 0 <= k < pp@.len() ==> #[trigger] pp@[k]@ == ps[k],
            forall|k: int| 0 <= k < bp@.len() ==> #[trigger] bp@[k]@ == bs[k],
            forall|k: int| 0 <= k < i ==> ps[k] == bs[k],
        decreases bp@.len() - i,
    {
        if !chars_equal(&pp[i], &bp[i]) {
            assert(ps.take(bs.len() as int)[i as int] != bs[i as int]);
            return false;
        }
        i = i + 1;
    }
    assert(ps.take(bs.len() as int) =~= bs);
    true
}

/// Refuses a resolved schema file that lies outside the suite directory.
pub fn confine_schema_path(canonical: &str, base_canonical: &str, relative: &str) -> (r: Result<(), CoreError>)
    ensures
        match r {
            Ok(()) => path_within(canonical@, base_canonical@),
            Err(e) => !path_within(canonical@, base_canonical@) && e@ == ErrorModel::PathTraversal(
                "result_schema_path escapes suite directory: "@ + relative@,
            ),
        },
{
    if path_starts_with(canonical, base_canonical) {
        Ok(())
    } else {
        let mut msg = String::from_str("result_schema_path escapes suite directory: ");
        push_str(&mut msg, relative);
        Err(CoreError::PathTraversal(msg))
    }
}

/// Law: an `expect_error` block passes only when the error has the expected code and its
/// message contains `message_contains` exactly (case-sensitive), as a run of characters.
pub proof fn law_rpc_expectation_passes_only_on_match(spec: ExpectRpcError, err: RpcError)
    requires
        rpc_expectation_error(spec, err) is None,
    ensures
        spec.code matches Some(c) ==> c == err.code,
        spec.message_contains matches Some(sub) ==> exists|i: int|
            0 <= i && i + sub@.len() <= err.message@.len() && #[trigger] err.message@.subrange(i, i + sub@.len()) == sub@,
{
    if let Some(sub) = spec.message_contains {
        let i = choose|i: int| crate::text::occurs_at(err.message@, sub@, i);
        assert(err.message@.subrange(i, i + sub@.len()) == sub@);
    }
}

/// Law: with `ordered_arrays`, an array template passes only when the result array has
/// the same length and each expected element matches the result element at its index;
/// otherwise the step fails with an expectation failure.
pub proof fn law_ordered_arrays_are_index_aligned(
    e: ExpectSpec,
    result: Json,
    dir: Option<String>,
    scen: Seq<char>,
    n: usize,
    xs: Seq<Json>,
    ys: Seq<Json>,
)
    requires
        e.result matches Some(t) && t@ == Json::Array(xs),
        e.match_mode == MatchMode::Subset,
        e.ordered_arrays,
        !(e.result_schema is Some && has_schema_path(e.result_schema_path)),
        effective_result(e.result_pointer, result) == Some(Json::Array(ys)),
        !(xs.len() == ys.len() && forall|q: int|
            0 <= q < xs.len() ==> (#[trigger] subset_verdict(index_path("$"@, q as nat), xs[q], ys[q], true)) is Ok),
    ensures
        expect_judgement(e, result, dir, scen, n) matches JudgementModel::Done(Some(ErrorModel::StepExpectation(s2, n2, _)))
            && s2 == scen && n2 == n,
{
    if subset_verdict("$"@, Json::Array(xs), Json::Array(ys), true) is Ok {
        law_ordered_match_is_index_aligned("$"@, xs, ys);
    }
}

} // verus!
