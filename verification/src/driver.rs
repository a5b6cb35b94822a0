//! The suite-run state machine: which session to open, which request to send next, when
//! a scenario ends, and the final report. The caller performs each action (opening a
//! session, calling the server, reading a schema file) and hands back what came of it.
use vstd::prelude::*;
use crate::error::{error_text, CoreError, RpcError};
use crate::error::{step_prefix, lemma_mismatch_text};
use crate::json::{json_text, Json, JsonValue};
use crate::schema::{schema_compiles, schema_report};
use crate::runner::{
    all_consistent, all_passed, apply_schema_file, judge_step, outcome_is, prepare_step, prepared_step,
    request_of, should_skip_for_capabilities, skip_for_capabilities, step_judgement, JudgementModel, StepJudgement, SuiteOutcome, SuiteResolution,
    SuiteRun,
};
use crate::suite::{SessionMode, SuiteFile};

verus! {

/// What came of the last action.
#[derive(Debug)]
pub enum RunEvent {
    /// The session is open; the server announced these capabilities.
    Connected(JsonValue),
    /// The session could not be opened.
    ConnectFailed(CoreError),
    /// The server answered the request sent: its `result` or its JSON-RPC error.
    Answered(Result<JsonValue, RpcError>),
    /// The request could not be completed (transport failure, timeout).
    CallFailed(CoreError),
    /// The schema file was read and parsed, or could not be.
    SchemaLoaded(Result<JsonValue, CoreError>),
}

/// What to do next.
#[derive(Debug)]
pub enum RunAction {
    /// Open a (fresh) session with the suite's server.
    Connect,
    /// Send this request on the current session.
    Send { method: String, params: JsonValue },
    /// Read the schema file `relative` under the suite directory `base`.
    LoadSchema { base: String, relative: String },
    /// A step names a schema the validator cannot build from; the validator refuses it.
    UnusableSchema,
    /// The run is over.
    Finish(Result<SuiteOutcome, CoreError>),
}

/// What the driver waits for.
#[derive(Debug)]
enum Phase {
    AwaitConnect,
    AwaitAnswer,
    AwaitSchema(JsonValue),
    Done,
}

/// Drives a suite run: one outcome per scenario, in suite order.
pub struct SuiteDriver {
    run: SuiteRun,
    resolution: SuiteResolution,
    scenario: usize,
    step: usize,
    phase: Phase,
    caps: JsonValue,
}

impl SuiteDriver {
    /// The outcomes recorded so far, one per finished scenario.
    pub closed spec fn outcomes(&self) -> Seq<crate::runner::ScenarioOutcome> {
        self.run.outcomes()
    }

    /// The index of the scenario being run.
    pub closed spec fn scenario_index(&self) -> nat {
        self.scenario as nat
    }

    /// The index of the step being run.
    pub closed spec fn step_index(&self) -> nat {
        self.step as nat
    }

    /// The driver waits for a session to open.
    pub closed spec fn awaits_connect(&self) -> bool {
        self.phase is AwaitConnect
    }

    /// The driver waits for the answer to a request.
    pub closed spec fn awaits_answer(&self) -> bool {
        self.phase is AwaitAnswer
    }

    /// The driver waits for a schema file.
    pub closed spec fn awaits_schema(&self) -> bool {
        self.phase is AwaitSchema
    }

    /// The part of the result a pending schema file is checked against.
    pub closed spec fn awaited_effective(&self) -> Json {
        match self.phase {
            Phase::AwaitSchema(v) => v@,
            _ => Json::Null,
        }
    }

    /// The run is over.
    pub closed spec fn is_done(&self) -> bool {
        self.phase is Done
    }

    /// The suite directory used for `result_schema_path`.
    pub closed spec fn resolution(&self) -> SuiteResolution {
        self.resolution
    }

    /// `ev` is what the driver waits for.
    pub open spec fn accepts(&self, ev: RunEvent) -> bool {
        ||| self.awaits_connect() && (ev is Connected || ev is ConnectFailed)
        ||| self.awaits_answer() && (ev is Answered || ev is CallFailed)
        ||| self.awaits_schema() && ev is SchemaLoaded
    }

    /// The driver's state agrees with `suite`: one recorded outcome per finished
    /// scenario, named as the suite names it, and the current step exists.
    pub closed spec fn wf(&self, suite: SuiteFile) -> bool {
        match self.phase {
            Phase::Done => true,
            _ => {
                &&& self.run.wf()
                &&& self.run.outcomes().len() == self.scenario
                &&& self.scenario <= suite.scenarios@.len()
                &&& forall|i: int| 0 <= i < self.scenario ==> (#[trigger] self.run.outcomes()[i]).name@ == suite.scenarios@[i].name@
                &&& (self.phase is AwaitConnect ==> self.scenario < suite.scenarios@.len()
                    || (suite.session == SessionMode::PerSuite && self.scenario == 0))
                &&& (self.phase is AwaitConnect && suite.session == SessionMode::PerSuite ==> self.scenario == 0)
                &&& (self.phase is AwaitAnswer || self.phase is AwaitSchema ==> self.scenario < suite.scenarios@.len()
                    && self.step < suite.scenarios@[self.scenario as int].steps@.len())
            },
        }
    }

    /// Starts a run of `suite`: the driver and its first action. A suite with no
    /// scenarios and a fresh session per scenario finishes at once, without a session.
    pub fn new(suite: &SuiteFile, resolution: SuiteResolution) -> (r: (SuiteDriver, RunAction))
        ensures
            r.0.wf(*suite),
            r.0.resolution() == resolution,
            r.0.outcomes().len() == 0,
            suite.session == SessionMode::PerScenario && suite.scenarios@.len() == 0 ==> (r.1 matches RunAction::Finish(Ok(o))
                && o.passed && o.scenarios@.len() == 0),
            !(suite.session == SessionMode::PerScenario && suite.scenarios@.len() == 0) ==> r.1 is Connect && r.0.awaits_connect(),
    {
        let mut d = SuiteDriver {
            run: SuiteRun::new(),
            resolution,
            scenario: 0,
            step: 0,
            phase: Phase::AwaitConnect,
            caps: JsonValue::Null,
        };
        if suite.session == SessionMode::PerScenario && suite.scenarios.len() == 0 {
            let a = d.finish();
            (d, a)
        } else {
            (d, RunAction::Connect)
        }
    }

    /// Ends the run and hands out the report.
    fn finish(&mut self) -> (a: RunAction)
        requires
            old(self).run.wf(),
        ensures
            final(self).phase is Done,
            final(self).resolution == old(self).resolution,
            final(self).run.outcomes().len() == 0,
            a matches RunAction::Finish(Ok(o)) && o.scenarios@ == old(self).run.outcomes() && o.passed == all_passed(o.scenarios@)
                && all_consistent(o.scenarios@),
    {
        let mut taken = SuiteRun::new();
        core::mem::swap(&mut self.run, &mut taken);
        self.phase = Phase::Done;
        RunAction::Finish(Ok(taken.finish()))
    }

    /// Moves on after scenario `self.scenario - 1` ended: the next session, the next
    /// scenario on the shared session, or the report.
    fn next_scenario(&mut self, suite: &SuiteFile) -> (a: RunAction)
        requires
            old(self).run.wf(),
            old(self).run.outcomes().len() == old(self).scenario,
            1 <= old(self).scenario <= suite.scenarios@.len(),
            forall|i: int| 0 <= i < old(self).scenario ==> (#[trigger] old(self).run.outcomes()[i]).name@ == suite.scenarios@[i].name@,
        ensures
            final(self).wf(*suite),
            final(self).resolution == old(self).resolution,
            old(self).run.outcomes().is_prefix_of(final(self).outcomes()) || final(self).phase is Done,
            a matches RunAction::Finish(Ok(o)) ==> finished_in_order(o, *suite),
            a matches RunAction::Send { method, params } ==> sends_prepared(*final(self), *suite, method, params),
            a is Connect ==> suite.session == SessionMode::PerScenario && final(self).phase is AwaitConnect
                && final(self).scenario == old(self).scenario && final(self).outcomes() == old(self).run.outcomes(),
            !(a is Finish) ==> !(final(self).phase is Done),
            a is Finish ==> (a matches RunAction::Finish(Ok(_))) && final(self).phase is Done,
            !(a is LoadSchema) && !(a is UnusableSchema),
            suite.session == SessionMode::PerScenario ==> (a is Connect || a is Finish),
        decreases 3 * (suite.scenarios@.len() - old(self).scenario) + 3,
    {
        if self.scenario == suite.scenarios.len() {
            return self.finish();
        }
        match suite.session {
            SessionMode::PerScenario => {
                self.phase = Phase::AwaitConnect;
                RunAction::Connect
            },
            SessionMode::PerSuite => self.advance(suite, true),
        }
    }

    /// Runs forward from step `self.step` of scenario `self.scenario` (first checking the
    /// capability gate when `entering`), until a request is to be sent or the run ends.
    fn advance(&mut self, suite: &SuiteFile, entering: bool) -> (a: RunAction)
        requires
            old(self).run.wf(),
            old(self).run.outcomes().len() == old(self).scenario,
            old(self).scenario <= suite.scenarios@.len(),
            forall|i: int| 0 <= i < old(self).scenario ==> (#[trigger] old(self).run.outcomes()[i]).name@ == suite.scenarios@[i].name@,
            entering ==> suite.session == SessionMode::PerSuite || old(self).scenario < suite.scenarios@.len(),
            !entering ==> old(self).scenario < suite.scenarios@.len()
                && old(self).step <= suite.scenarios@[old(self).scenario as int].steps@.len(),
        ensures
            final(self).wf(*suite),
            final(self).resolution == old(self).resolution,
            old(self).run.outcomes().is_prefix_of(final(self).outcomes()) || final(self).phase is Done,
            a matches RunAction::Finish(Ok(o)) ==> finished_in_order(o, *suite),
            a matches RunAction::Send { method, params } ==> sends_prepared(*final(self), *suite, method, params),
            a is Connect ==> suite.session == SessionMode::PerScenario && final(self).phase is AwaitConnect,
            !(a is Finish) ==> !(final(self).phase is Done),
            a is Finish ==> (a matches RunAction::Finish(Ok(_))) && final(self).phase is Done,
            !(a is LoadSchema) && !(a is UnusableSchema),
            entering && old(self).scenario < suite.scenarios@.len()
                && skip_for_capabilities(old(self).caps@, suite.scenarios@[old(self).scenario as int].skip_unless_any_capability@)
                ==> final(self).phase is Done || (final(self).scenario > old(self).scenario
                && outcome_is(final(self).outcomes()[old(self).scenario as int], suite.scenarios@[old(self).scenario as int].name@,
                    true, true, None)),
            entering && old(self).scenario < suite.scenarios@.len()
                && !skip_for_capabilities(old(self).caps@, suite.scenarios@[old(self).scenario as int].skip_unless_any_capability@)
                ==> (a is Send && final(self).scenario == old(self).scenario && final(self).step == 0)
                || final(self).phase is Done || (final(self).scenario > old(self).scenario
                && final(self).outcomes()[old(self).scenario as int].passed
                    == (suite.scenarios@[old(self).scenario as int].steps@.len() == 0)),
            !entering ==> (a is Send && final(self).scenario == old(self).scenario && final(self).step == old(self).step)
                || final(self).phase is Done || (final(self).scenario > old(self).scenario
                && final(self).outcomes()[old(self).scenario as int].passed
                    == (old(self).step == suite.scenarios@[old(self).scenario as int].steps@.len())),
        decreases 3 * (suite.scenarios@.len() - old(self).scenario) + if entering { 2int } else { 1int },
    {
        if self.scenario == suite.scenarios.len() {
            return self.finish();
        }
        let ghost before = self.run.outcomes();
        let sc = &suite.scenarios[self.scenario];
        if entering {
            if should_skip_for_capabilities(&self.caps, &sc.skip_unless_any_capability) {
                self.run.record_skip(sc);
                let ghost x = self.run.outcomes().last();
                self.scenario = self.scenario + 1;
                let ghost mid = self.run.outcomes();
                proof {
                    assert(before.is_prefix_of(mid));
                    assert(mid[before.len() as int] == x);
                }
                if self.scenario == suite.scenarios.len() {
                    return self.finish();
                }
                match suite.session {
                    SessionMode::PerScenario => {
                        self.phase = Phase::AwaitConnect;
                        return RunAction::Connect;
                    },
                    SessionMode::PerSuite => {
                        let a = self.advance(suite, true);
                        proof {
                            if !(self.phase is Done) {
                                assert(mid.is_prefix_of(self.run.outcomes()));
                                assert(self.run.outcomes().subrange(0, mid.len() as int)[before.len() as int] == x);
                            }
                        }
                        return a;
                    },
                }
            }
            self.step = 0;
        }
        if self.step == sc.steps.len() {
            self.run.record_result(sc, Ok(()));
            let ghost x = self.run.outcomes().last();
            self.scenario = self.scenario + 1;
            let ghost mid = self.run.outcomes();
            assert(before.is_prefix_of(mid));
            let a = self.next_scenario(suite);
            proof {
                if !(self.phase is Done) {
                    assert(mid.is_prefix_of(self.run.outcomes()));
                    assert(mid[before.len() as int] == x);
                    assert(self.run.outcomes().subrange(0, mid.len() as int)[before.len() as int] == x);
                }
            }
            return a;
        }
        match prepare_step(sc, self.step) {
            Err(e) => {
                self.run.record_result(sc, Err(e));
                let ghost x = self.run.outcomes().last();
                self.scenario = self.scenario + 1;
                let ghost mid = self.run.outcomes();
                assert(before.is_prefix_of(mid));
                let a = self.next_scenario(suite);
                proof {
                    if !(self.phase is Done) {
                        assert(mid.is_prefix_of(self.run.outcomes()));
                        assert(mid[before.len() as int] == x);
                        assert(self.run.outcomes().subrange(0, mid.len() as int)[before.len() as int] == x);
                    }
                }
                a
            },
            Ok((method, params)) => {
                self.phase = Phase::AwaitAnswer;
                RunAction::Send { method, params }
            },
        }
    }

    /// Ends the current scenario with `res` and moves on.
    fn end_scenario(&mut self, suite: &SuiteFile, res: Result<(), CoreError>) -> (a: RunAction)
        requires
            old(self).run.wf(),
            old(self).run.outcomes().len() == old(self).scenario,
            old(self).scenario < suite.scenarios@.len(),
            forall|i: int| 0 <= i < old(self).scenario ==> (#[trigger] old(self).run.outcomes()[i]).name@ == suite.scenarios@[i].name@,
        ensures
            final(self).wf(*suite),
            final(self).resolution == old(self).resolution,
            final(self).phase is Done || (final(self).scenario > old(self).scenario
                && outcome_is(final(self).outcomes()[old(self).scenario as int], suite.scenarios@[old(self).scenario as int].name@,
                    res is Ok, false, crate::runner::result_message(res))),
            a matches RunAction::Finish(Ok(o)) ==> finished_in_order(o, *suite),
            a matches RunAction::Send { method, params } ==> sends_prepared(*final(self), *suite, method, params),
            a is Connect ==> suite.session == SessionMode::PerScenario && final(self).phase is AwaitConnect,
            !(a is Finish) ==> !(final(self).phase is Done),
            a is Finish ==> (a matches RunAction::Finish(Ok(_))) && final(self).phase is Done,
            !(a is LoadSchema) && !(a is UnusableSchema),
    {
        let _n = suite.scenarios.len();
        let sc = &suite.scenarios[self.scenario];
        let ghost before = self.run.outcomes();
        self.run.record_result(sc, res);
        let ghost x = self.run.outcomes().last();
        self.scenario = self.scenario + 1;
        let ghost mid = self.run.outcomes();
        let a = self.next_scenario(suite);
        proof {
            if !(self.phase is Done) {
                assert(mid.is_prefix_of(self.run.outcomes()));
                assert(mid[before.len() as int] == x);
                assert(self.run.outcomes().subrange(0, mid.len() as int)[before.len() as int] == x);
            }
        }
        a
    }

    /// Takes in what came of the last action and decides the next one.
    pub fn step(&mut self, suite: &SuiteFile, ev: RunEvent) -> (a: RunAction)
        requires
            old(self).wf(*suite),
            old(self).accepts(ev),
        ensures
            final(self).wf(*suite),
            final(self).resolution() == old(self).resolution(),
            // The report has one outcome per scenario, in suite order, and passes
            // exactly when every scenario passed (or was skipped).
            a matches RunAction::Finish(Ok(o)) ==> finished_in_order(o, *suite),
            // Only a shared session that cannot be opened aborts the run.
            a matches RunAction::Finish(Err(e)) ==> (suite.session == SessionMode::PerSuite
                && (ev matches RunEvent::ConnectFailed(e2) && e == e2)),
            ev is ConnectFailed && suite.session == SessionMode::PerSuite ==> a is Finish,
            // Under fresh sessions a failed connection fails that scenario and the run
            // goes on with the next one.
            ev is ConnectFailed && suite.session == SessionMode::PerScenario ==> (a is Connect || a is Finish),
            ev is ConnectFailed && suite.session == SessionMode::PerScenario ==> final(self).is_done()
                || final(self).scenario_index() == old(self).scenario_index() + 1,
            ev matches RunEvent::ConnectFailed(e) ==> suite.session == SessionMode::PerScenario ==> final(self).is_done()
                || outcome_is(final(self).outcomes()[old(self).scenario_index() as int],
                    suite.scenarios@[old(self).scenario_index() as int].name@, false, false, Some(error_text(e))),
            // A failing step ends its scenario: no later step of it is sent.
            ev is CallFailed || (ev matches RunEvent::Answered(out) && judged_failure(*old(self), *suite, out))
                ==> final(self).is_done() || (final(self).scenario_index() > old(self).scenario_index()
                    && !final(self).outcomes()[old(self).scenario_index() as int].passed),
            // Once a session is open, a scenario gated on capabilities the server lacks is
            // recorded as skipped (and passed); otherwise its first step is sent.
            ev matches RunEvent::Connected(caps) && old(self).scenario_index() < suite.scenarios@.len()
                && skip_for_capabilities(caps@, suite.scenarios@[old(self).scenario_index() as int].skip_unless_any_capability@)
                ==> final(self).is_done() || (final(self).scenario_index() > old(self).scenario_index()
                && outcome_is(final(self).outcomes()[old(self).scenario_index() as int],
                    suite.scenarios@[old(self).scenario_index() as int].name@, true, true, None)),
            ev matches RunEvent::Connected(caps) && old(self).scenario_index() < suite.scenarios@.len()
                && !skip_for_capabilities(caps@, suite.scenarios@[old(self).scenario_index() as int].skip_unless_any_capability@)
                ==> (a is Send && final(self).scenario_index() == old(self).scenario_index() && final(self).step_index() == 0)
                || final(self).is_done() || (final(self).scenario_index() > old(self).scenario_index()
                && final(self).outcomes()[old(self).scenario_index() as int].passed
                    == (suite.scenarios@[old(self).scenario_index() as int].steps@.len() == 0)),
            // After a passing step, the scenario's next step is sent, or the scenario ends,
            // passed exactly when that was its last step.
            ev matches RunEvent::Answered(out) && judged_pass(*old(self), *suite, out) ==> (a is Send
                && final(self).scenario_index() == old(self).scenario_index()
                && final(self).step_index() == old(self).step_index() + 1) || final(self).is_done()
                || (final(self).scenario_index() > old(self).scenario_index()
                && final(self).outcomes()[old(self).scenario_index() as int].passed
                    == (old(self).step_index() + 1 == suite.scenarios@[old(self).scenario_index() as int].steps@.len())),
            // A step whose judgement needs its schema file asks for exactly that file and
            // waits for it, holding the part of the result the schema applies to.
            ev matches RunEvent::Answered(out) ==> requests_schema(*old(self), *final(self), a,
                judgement_of(*old(self), *suite, out)),
            // Once the schema file is in, its verdict decides the step as an answer would.
            ev matches RunEvent::SchemaLoaded(l) ==> after_schema_file(*old(self), *final(self), a, *suite,
                file_verdict(*old(self), *suite, l)),
            // The run stops on an unusable schema exactly when a step's schema is one.
            (a is UnusableSchema) == unusable_event(*old(self), *suite, ev),
            // Every request sent is the one its step prepares.
            a matches RunAction::Send { method, params } ==> sends_prepared(*final(self), *suite, method, params),
            a is Connect ==> suite.session == SessionMode::PerScenario && final(self).awaits_connect(),
            a is LoadSchema ==> final(self).awaits_schema(),
            !(a is Finish) && !(a is UnusableSchema) ==> !final(self).is_done(),
    {
        match ev {
            RunEvent::Connected(caps) => {
                self.caps = caps;
                self.advance(suite, true)
            },
            RunEvent::ConnectFailed(e) => {
                match suite.session {
                    SessionMode::PerSuite => {
                        self.phase = Phase::Done;
                        RunAction::Finish(Err(e))
                    },
                    SessionMode::PerScenario => {
                        let _n = suite.scenarios.len();
                        let sc = &suite.scenarios[self.scenario];
                        let ghost before = self.run.outcomes();
                        self.run.record_connect_failure(sc, e);
                        let ghost mid = self.run.outcomes();
                        assert(mid[before.len() as int] == mid.last());
                        self.scenario = self.scenario + 1;
                        self.next_scenario(suite)
                    },
                }
            },
            RunEvent::CallFailed(e) => self.end_scenario(suite, Err(e)),
            RunEvent::Answered(out) => {
                let sc = &suite.scenarios[self.scenario];
                let _k = sc.steps.len();
                match judge_step(sc, self.step, out, &self.resolution) {
                    StepJudgement::Done(Ok(())) => {
                        self.step = self.step + 1;
                        self.advance(suite, false)
                    },
                    StepJudgement::Done(Err(e)) => self.end_scenario(suite, Err(e)),
                    StepJudgement::LoadSchemaFile { base, relative, effective } => {
                        self.phase = Phase::AwaitSchema(effective);
                        RunAction::LoadSchema { base, relative }
                    },
                    StepJudgement::UnusableSchema => {
                        self.phase = Phase::Done;
                        RunAction::UnusableSchema
                    },
                }
            },
            RunEvent::SchemaLoaded(loaded) => {
                let sc = &suite.scenarios[self.scenario];
                let _k = sc.steps.len();
                let effective = match &self.phase {
                    Phase::AwaitSchema(v) => v.deep_clone(),
                    _ => JsonValue::Null,
                };
                let ghost loaded0 = loaded;
                match apply_schema_file(&effective, loaded, sc.name.as_str(), self.step + 1) {
                    Some(Ok(())) => {
                        self.step = self.step + 1;
                        self.advance(suite, false)
                    },
                    Some(Err(e)) => {
                        proof {
                            if loaded0 is Ok {
                                let m = schema_report(effective@, loaded0->Ok_0@)->Some_0;
                                lemma_mismatch_text(e, sc.name@, (self.step + 1) as usize, m);
                            }
                        }
                        self.end_scenario(suite, Err(e))
                    },
                    None => {
                        self.phase = Phase::Done;
                        RunAction::UnusableSchema
                    },
                }
            },
        }
    }
}

/// How the current step's answer `out` is judged.
pub open spec fn judgement_of(d: SuiteDriver, suite: SuiteFile, out: Result<JsonValue, RpcError>) -> JudgementModel {
    step_judgement(
        suite.scenarios@[d.scenario_index() as int],
        d.step_index() as int,
        out,
        d.resolution().suite_directory,
    )
}

/// When the judgement asks for a schema file, the action requests that file and the
/// driver waits for it, on the same step, with nothing recorded.
pub open spec fn requests_schema(before: SuiteDriver, after: SuiteDriver, a: RunAction, j: JudgementModel) -> bool {
    match j {
        JudgementModel::LoadSchemaFile(b, r, e) => {
            &&& (a matches RunAction::LoadSchema { base, relative } && base@ == b && relative@ == r)
            &&& after.awaits_schema()
            &&& after.awaited_effective() == e
            &&& after.scenario_index() == before.scenario_index()
            &&& after.step_index() == before.step_index()
            &&& after.outcomes() == before.outcomes()
        },
        _ => true,
    }
}

/// What a loaded schema file makes of the current step: `None` when the schema cannot
/// be used, `Some(None)` when the step passes, `Some(Some(m))` when it fails with the
/// scenario error `m`.
pub open spec fn file_verdict(d: SuiteDriver, suite: SuiteFile, loaded: Result<JsonValue, CoreError>) -> Option<Option<Seq<char>>> {
    match loaded {
        Err(e) => Some(Some(error_text(e))),
        Ok(schema) => if !schema_compiles(json_text(schema@)) {
            None
        } else {
            match schema_report(d.awaited_effective(), schema@) {
                Some(m) => Some(
                    Some(
                        step_prefix(suite.scenarios@[d.scenario_index() as int].name@, (d.step_index() + 1) as usize)
                            + "result JSON Schema mismatch: "@ + m,
                    ),
                ),
                None => Some(None),
            }
        },
    }
}

/// What follows a schema file's verdict `v`: an unusable schema stops the run; a
/// passing step moves on (the next step, or the scenario ends, passed exactly when it
/// was the last step); a failing step ends its scenario, recorded failed with `m`, so
/// no later step of it is sent.
pub open spec fn after_schema_file(before: SuiteDriver, after: SuiteDriver, a: RunAction, suite: SuiteFile, v: Option<Option<Seq<char>>>) -> bool {
    let i = before.scenario_index() as int;
    match v {
        None => a is UnusableSchema,
        Some(None) => (a is Send && after.scenario_index() == before.scenario_index()
            && after.step_index() == before.step_index() + 1) || after.is_done()
            || (after.scenario_index() > before.scenario_index() && after.outcomes()[i].passed
                == (before.step_index() + 1 == suite.scenarios@[i].steps@.len())),
        Some(Some(m)) => after.is_done() || (after.scenario_index() > before.scenario_index()
            && outcome_is(after.outcomes()[i], suite.scenarios@[i].name@, false, false, Some(m))),
    }
}

/// `ev` reveals a schema the validator cannot build from.
pub open spec fn unusable_event(d: SuiteDriver, suite: SuiteFile, ev: RunEvent) -> bool {
    match ev {
        RunEvent::Answered(out) => judgement_of(d, suite, out) is UnusableSchema,
        RunEvent::SchemaLoaded(l) => file_verdict(d, suite, l) is None,
        _ => false,
    }
}

/// `o` has one outcome per scenario of `suite`, in order, and passes exactly when every
/// scenario passed (or was skipped).
pub open spec fn finished_in_order(o: SuiteOutcome, suite: SuiteFile) -> bool {
    &&& o.scenarios@.len() == suite.scenarios@.len()
    &&& forall|i: int| 0 <= i < o.scenarios@.len() ==> (#[trigger] o.scenarios@[i]).name@ == suite.scenarios@[i].name@
    &&& o.passed == all_passed(o.scenarios@)
    &&& all_consistent(o.scenarios@)
}

/// Law: a report the driver finishes with lists the suite's scenarios in order, passes
/// exactly when every scenario passed, and each scenario passed exactly when it carries
/// no error, a skipped scenario counting as passed.
pub proof fn law_suite_outcome(o: SuiteOutcome, suite: SuiteFile)
    requires
        finished_in_order(o, suite),
    ensures
        o.scenarios@.len() == suite.scenarios@.len(),
        forall|i: int| 0 <= i < o.scenarios@.len() ==> (#[trigger] o.scenarios@[i]).name@ == suite.scenarios@[i].name@,
        o.passed <==> forall|i: int| 0 <= i < o.scenarios@.len() ==> (#[trigger] o.scenarios@[i]).passed,
        forall|i: int| 0 <= i < o.scenarios@.len() ==> (#[trigger] o.scenarios@[i]).passed == (o.scenarios@[i].error is None),
        forall|i: int| 0 <= i < o.scenarios@.len() && (#[trigger] o.scenarios@[i]).skipped ==> o.scenarios@[i].passed,
{
    assert forall|i: int| 0 <= i < o.scenarios@.len() implies (#[trigger] o.scenarios@[i]).passed == (o.scenarios@[i].error is None)
        && (o.scenarios@[i].skipped ==> o.scenarios@[i].passed) by {
        assert(crate::runner::outcome_consistent(o.scenarios@[i]));
    }
}

/// The request the driver sends is the one its current step prepares.
pub open spec fn sends_prepared(d: SuiteDriver, suite: SuiteFile, method: String, params: JsonValue) -> bool {
    &&& d.awaits_answer()
    &&& d.scenario_index() < suite.scenarios@.len()
    &&& d.step_index() < suite.scenarios@[d.scenario_index() as int].steps@.len()
    &&& request_of(Ok((method, params))) == prepared_step(suite.scenarios@[d.scenario_index() as int], d.step_index() as int)
}

/// The answer to the current step passes it.
pub open spec fn judged_pass(d: SuiteDriver, suite: SuiteFile, out: Result<JsonValue, RpcError>) -> bool {
    d.awaits_answer() && d.scenario_index() < suite.scenarios@.len()
        && d.step_index() < suite.scenarios@[d.scenario_index() as int].steps@.len()
        && crate::runner::step_judgement(
        suite.scenarios@[d.scenario_index() as int],
        d.step_index() as int,
        out,
        d.resolution().suite_directory,
    ) == crate::runner::JudgementModel::Done(None)
}

/// The answer to the current step fails it.
pub open spec fn judged_failure(d: SuiteDriver, suite: SuiteFile, out: Result<JsonValue, RpcError>) -> bool {
    d.awaits_answer() && d.scenario_index() < suite.scenarios@.len()
        && d.step_index() < suite.scenarios@[d.scenario_index() as int].steps@.len()
        && crate::runner::step_judgement(
        suite.scenarios@[d.scenario_index() as int],
        d.step_index() as int,
        out,
        d.resolution().suite_directory,
    ) matches crate::runner::JudgementModel::Done(Some(_))
}

} // verus!
