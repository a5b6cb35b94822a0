//! Errors surfaced by the harness, with their human-readable messages.
use vstd::prelude::*;
use crate::expect::{failure_text, MatchFailure};
use crate::json::{Json, JsonValue};
use crate::text::{int_text, nat_text, push_i64, push_str, push_usize};

verus! {

/// JSON-RPC error object returned by the MCP server for a request.
#[derive(Clone, Debug)]
pub struct RpcError {
    pub code: i64,
    pub message: String,
    pub data: Option<JsonValue>,
}

/// `json-rpc error code={code} message={message}`.
pub open spec fn rpc_error_text(e: RpcError) -> Seq<char> {
    "json-rpc error code="@ + int_text(e.code as int) + " message="@ + e.message@
}

impl RpcError {
    /// The error's human-readable message.
    pub fn to_message(&self) -> (r: String)
        ensures
            r@ == rpc_error_text(*self),
    {
        let mut out = String::new();
        push_str(&mut out, "json-rpc error code=");
        push_i64(&mut out, self.code);
        push_str(&mut out, " message=");
        push_str(&mut out, self.message.as_str());
        out
    }
}

/// Errors surfaced by the MCP test harness library.
///
/// Variants that wrap an error of the operating system or of a parser hold that
/// error's rendered text; `Timeout` holds the rendered duration and `ChildExited`
/// the rendered exit status.
#[derive(Clone, Debug)]
pub enum CoreError {
    Io(String),
    Json(String),
    JsonRpc(RpcError),
    Handshake(String),
    Timeout(String),
    StepExpectation { scenario: String, step: usize, source: MatchFailure },
    InvalidExpectConfig { scenario: String, step: usize, detail: String },
    ResultSchemaMismatch { scenario: String, step: usize, message: String },
    RpcExpectationMismatch { scenario: String, step: usize, detail: String },
    UnexpectedRpcSuccess { scenario: String, step: usize },
    Http(String),
    PathTraversal(String),
    InvalidStep(String),
    ChildExited(String),
    UnexpectedMessage(String),
}

/// The mathematical content of an error, variant by variant.
pub enum ErrorModel {
    Io(Seq<char>),
    Json(Seq<char>),
    JsonRpc(i64, Seq<char>, Option<Json>),
    Handshake(Seq<char>),
    Timeout(Seq<char>),
    StepExpectation(Seq<char>, usize, (Seq<char>, Seq<char>)),
    InvalidExpectConfig(Seq<char>, usize, Seq<char>),
    ResultSchemaMismatch(Seq<char>, usize, Seq<char>),
    RpcExpectationMismatch(Seq<char>, usize, Seq<char>),
    UnexpectedRpcSuccess(Seq<char>, usize),
    Http(Seq<char>),
    PathTraversal(Seq<char>),
    InvalidStep(Seq<char>),
    ChildExited(Seq<char>),
    UnexpectedMessage(Seq<char>),
}

/// The model of an RPC error: code, message, data.
pub open spec fn rpc_model(e: RpcError) -> (i64, Seq<char>, Option<Json>) {
    (e.code, e.message@, match e.data {
        Some(d) => Some(d@),
        None => None,
    })
}

impl View for CoreError {
    type V = ErrorModel;

    open spec fn view(&self) -> ErrorModel {
        match self {
            CoreError::Io(m) => ErrorModel::Io(m@),
            CoreError::Json(m) => ErrorModel::Json(m@),
            CoreError::JsonRpc(r) => ErrorModel::JsonRpc(r.code, r.message@, rpc_model(*r).2),
            CoreError::Handshake(m) => ErrorModel::Handshake(m@),
            CoreError::Timeout(d) => ErrorModel::Timeout(d@),
            CoreError::StepExpectation { scenario, step, source } => ErrorModel::StepExpectation(
                scenario@,
                *step,
                source@,
            ),
            CoreError::InvalidExpectConfig { scenario, step, detail } => ErrorModel::InvalidExpectConfig(
                scenario@,
                *step,
                detail@,
            ),
            CoreError::ResultSchemaMismatch { scenario, step, message } => ErrorModel::ResultSchemaMismatch(
                scenario@,
                *step,
                message@,
            ),
            CoreError::RpcExpectationMismatch { scenario, step, detail } => ErrorModel::RpcExpectationMismatch(
                scenario@,
                *step,
                detail@,
            ),
            CoreError::UnexpectedRpcSuccess { scenario, step } => ErrorModel::UnexpectedRpcSuccess(scenario@, *step),
            CoreError::Http(m) => ErrorModel::Http(m@),
            CoreError::PathTraversal(m) => ErrorModel::PathTraversal(m@),
            CoreError::InvalidStep(m) => ErrorModel::InvalidStep(m@),
            CoreError::ChildExited(s) => ErrorModel::ChildExited(s@),
            CoreError::UnexpectedMessage(m) => ErrorModel::UnexpectedMessage(m@),
        }
    }
}

/// `scenario `{scenario}` step {step}: ` — the prefix of per-step errors.
pub open spec fn step_prefix(scenario: Seq<char>, step: usize) -> Seq<char> {
    "scenario `"@ + scenario + "` step "@ + nat_text(step as nat) + ": "@
}

/// The human-readable message of an error.
pub open spec fn error_text(e: CoreError) -> Seq<char> {
    match e {
        CoreError::Io(m) => "i/o error: "@ + m@,
        CoreError::Json(m) => "json error: "@ + m@,
        CoreError::JsonRpc(r) => "json-rpc error: "@ + rpc_error_text(r),
        CoreError::Handshake(m) => "handshake failed: "@ + m@,
        CoreError::Timeout(d) => "timed out after "@ + d@ + " waiting for a response"@,
        CoreError::StepExpectation { scenario, step, source } => step_prefix(scenario@, step)
            + "expectation failed: "@ + failure_text(source@),
        CoreError::InvalidExpectConfig { scenario, step, detail } => step_prefix(scenario@, step)
            + "invalid expect configuration: "@ + detail@,
        CoreError::ResultSchemaMismatch { scenario, step, message } => step_prefix(scenario@, step)
            + "result JSON Schema mismatch: "@ + message@,
        CoreError::RpcExpectationMismatch { scenario, step, detail } => step_prefix(scenario@, step)
            + "rpc error expectation failed: "@ + detail@,
        CoreError::UnexpectedRpcSuccess { scenario, step } => step_prefix(scenario@, step)
            + "expected JSON-RPC error but call succeeded"@,
        CoreError::Http(m) => "http transport error: "@ + m@,
        CoreError::PathTraversal(m) => "blocked potentially unsafe path: "@ + m@,
        CoreError::InvalidStep(m) => "invalid step: "@ + m@,
        CoreError::ChildExited(s) => "server subprocess exited unexpectedly: "@ + s@,
        CoreError::UnexpectedMessage(m) => "received an unexpected message from the server: "@ + m@,
    }
}

/// The message of a schema-mismatch error is fixed by its model.
pub proof fn lemma_mismatch_text(e: CoreError, scenario: Seq<char>, step: usize, message: Seq<char>)
    requires
        e@ == ErrorModel::ResultSchemaMismatch(scenario, step, message),
    ensures
        error_text(e) == step_prefix(scenario, step) + "result JSON Schema mismatch: "@ + message,
{
    match e {
        CoreError::ResultSchemaMismatch { scenario: s, step: n, message: m } => {
            assert(s@ == scenario && n == step && m@ == message);
        },
        _ => {},
    }
}

/// Appends the per-step prefix.
fn push_step_prefix(out: &mut String, scenario: &str, step: usize)
    ensures
        final(out)@ == old(out)@ + step_prefix(scenario@, step),
{
    let ghost start = out@;
    push_str(out, "scenario `");
    push_str(out, scenario);
    push_str(out, "` step ");
    push_usize(out, step);
    push_str(out, ": ");
    assert(out@ =~= start + step_prefix(scenario@, step));
}

/// `head` followed by `tail`.
fn joined(head: &str, tail: &str) -> (r: String)
    ensures
        r@ == head@ + tail@,
{
    let mut out = String::new();
    push_str(&mut out, head);
    push_str(&mut out, tail);
    out
}

impl CoreError {
    /// The error's human-readable message.
    pub fn to_message(&self) -> (r: String)
        ensures
            r@ == error_text(*self),
    {
        match self {
            CoreError::Io(m) => joined("i/o error: ", m.as_str()),
            CoreError::Json(m) => joined("json error: ", m.as_str()),
            CoreError::JsonRpc(r) => {
                let t = r.to_message();
                joined("json-rpc error: ", t.as_str())
            },
            CoreError::Handshake(m) => joined("handshake failed: ", m.as_str()),
            CoreError::Timeout(d) => {
                let mut out = joined("timed out after ", d.as_str());
                push_str(&mut out, " waiting for a response");
                out
            },
            CoreError::StepExpectation { scenario, step, source } => {
                let mut out = String::new();
                push_step_prefix(&mut out, scenario.as_str(), *step);
                push_str(&mut out, "expectation failed: ");
                let t = source.message();
                push_str(&mut out, t.as_str());
                out
            },
            CoreError::InvalidExpectConfig { scenario, step, detail } => {
                let mut out = String::new();
                push_step_prefix(&mut out, scenario.as_str(), *step);
                push_str(&mut out, "invalid expect configuration: ");
                push_str(&mut out, detail.as_str());
                out
            },
            CoreError::ResultSchemaMismatch { scenario, step, message } => {
                let mut out = String::new();
                push_step_prefix(&mut out, scenario.as_str(), *step);
                push_str(&mut out, "result JSON Schema mismatch: ");
                push_str(&mut out, message.as_str());
                out
            },
            CoreError::RpcExpectationMismatch { scenario, step, detail } => {
                let mut out = String::new();
                push_step_prefix(&mut out, scenario.as_str(), *step);
                push_str(&mut out, "rpc error expectation failed: ");
                push_str(&mut out, detail.as_str());
                out
            },
            CoreError::UnexpectedRpcSuccess { scenario, step } => {
                let mut out = String::new();
                push_step_prefix(&mut out, scenario.as_str(), *step);
                push_str(&mut out, "expected JSON-RPC error but call succeeded");
                out
            },
            CoreError::Http(m) => joined("http transport error: ", m.as_str()),
            CoreError::PathTraversal(m) => joined("blocked potentially unsafe path: ", m.as_str()),
            CoreError::InvalidStep(m) => joined("invalid step: ", m.as_str()),
            CoreError::ChildExited(s) => joined("server subprocess exited unexpectedly: ", s.as_str()),
            CoreError::UnexpectedMessage(m) => joined("received an unexpected message from the server: ", m.as_str()),
        }
    }
}

} // verus!
