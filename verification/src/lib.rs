//! Verified core of a conformance harness for Model Context Protocol servers: the suite
//! model, structural expectations on JSON results, JSON Schema and JSON-RPC error checks,
//! the message-level decisions of a session, and JUnit/SARIF reporting.
use vstd::prelude::*;

pub mod conformance;
pub mod driver;
pub mod error;
pub mod expect;
pub mod fuzz;
pub mod json;
pub mod junit;
pub mod pointer;
pub mod protocol;
pub mod runner;
pub mod sarif;
pub mod schema;
pub mod suite;
pub mod text;
pub mod trace;
pub mod transport;

pub use conformance::{builtin_scenarios, load_pack_scenarios, suite_from_pack, suite_with_server};
pub use error::{CoreError, RpcError};
pub use expect::{strict_equal, subset_match, subset_match_with_options, MatchFailure};
pub use json::{JsonNumber, JsonValue};
pub use junit::render_junit;
pub use protocol::{ClientInfo, ConnectOptions};
pub use runner::{ScenarioOutcome, SuiteOutcome, SuiteResolution};
pub use sarif::render_sarif;
pub use schema::validate_json_schema;
pub use suite::{
    ExpectRpcError, ExpectSpec, HttpEndpoint, MatchMode, Scenario, SendSpec, ServerSpec,
    SessionMode, Step, SuiteFile, ToolCallSpec,
};
pub use trace::{redact_secrets, trace_event};

verus! {

} // verus!
