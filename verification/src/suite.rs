//! The suite document model and its shape checks.
use vstd::prelude::*;
use vstd::string::StringExecFns;
use crate::json::{Json, JsonValue};
use crate::text::{nat_text, push_u64, trim_chars, trimmed};

verus! {

/// How scenarios share a server process.
#[derive(Clone, Copy, Debug, PartialEq, Eq, Structural)]
pub enum SessionMode {
    /// Fresh subprocess + handshake for every scenario (default, most deterministic).
    PerScenario,
    /// One subprocess for the whole suite; scenarios run in order on the same session.
    PerSuite,
}

impl SessionMode {
    /// The default mode: one session per scenario.
    pub fn per_scenario() -> (r: SessionMode)
        ensures
            r == SessionMode::PerScenario,
    {
        SessionMode::PerScenario
    }
}

/// HTTP(S) MCP endpoint (experimental: JSON-RPC POST with optional session header).
#[derive(Clone, Debug)]
pub struct HttpEndpoint {
    pub url: String,
    /// Extra request headers, by name (names are expected to be distinct).
    pub headers: Vec<(String, String)>,
}

/// Child process specification for stdio MCP servers.
#[derive(Clone, Debug)]
pub struct ServerSpec {
    pub http: Option<HttpEndpoint>,
    pub command: String,
    pub args: Vec<String>,
    pub cwd: Option<String>,
    /// Environment variables for the child, by name (names are expected to be distinct).
    pub env: Vec<(String, String)>,
}

/// Top-level suite document.
#[derive(Clone, Debug)]
pub struct SuiteFile {
    pub version: u32,
    pub session: SessionMode,
    pub server: ServerSpec,
    pub scenarios: Vec<Scenario>,
}

#[derive(Clone, Debug)]
pub struct Scenario {
    pub name: String,
    /// If non-empty, the scenario is skipped unless the `initialize` result `capabilities`
    /// object contains **at least one** of these top-level keys (for example `"resources"`).
    pub skip_unless_any_capability: Vec<String>,
    pub steps: Vec<Step>,
}

#[derive(Clone, Debug)]
pub struct Step {
    pub send: Option<SendSpec>,
    pub call_tool: Option<ToolCallSpec>,
    /// Present for successful JSON-RPC `result` expectations.
    pub expect: Option<ExpectSpec>,
    /// When present, the RPC call must fail with a JSON-RPC error matching this spec.
    pub expect_error: Option<ExpectRpcError>,
}

#[derive(Clone, Debug)]
pub struct ToolCallSpec {
    pub name: String,
    pub arguments: JsonValue,
}

#[derive(Clone, Debug)]
pub struct SendSpec {
    pub method: String,
    pub params: JsonValue,
}

#[derive(Clone, Copy, Debug, PartialEq, Eq, Structural)]
pub enum MatchMode {
    Subset,
    Strict,
}

/// Expectations are applied to the JSON-RPC **`result`** object only (unless
/// `expect_error` is used on the step).
#[derive(Clone, Debug)]
pub struct ExpectSpec {
    pub result: Option<JsonValue>,
    pub result_schema: Option<JsonValue>,
    pub result_schema_path: Option<String>,
    pub match_mode: MatchMode,
    /// JSON Pointer (RFC 6901) into `result` before assertions.
    pub result_pointer: Option<String>,
    pub ordered_arrays: bool,
}

/// Match a JSON-RPC error response.
#[derive(Clone, Debug)]
pub struct ExpectRpcError {
    pub code: Option<i64>,
    pub message_contains: Option<String>,
    /// Regular expression matched against the error `message`.
    pub message_regex: Option<String>,
}

/// Whether a `result_schema_path` is set to something other than blanks.
pub open spec fn has_schema_path(p: Option<String>) -> bool {
    match p {
        Some(s) => trimmed(s@).len() > 0,
        None => false,
    }
}

/// Why an `expect` block is malformed, if it is.
pub open spec fn expect_config_error(e: ExpectSpec) -> Option<Seq<char>> {
    let has_subset = e.result is Some;
    let has_inline = e.result_schema is Some;
    let has_path = has_schema_path(e.result_schema_path);
    if !has_subset && !has_inline && !has_path {
        Some(
            "expect requires at least one of `result`, `result_schema`, or `result_schema_path`"@,
        )
    } else if has_inline && has_path {
        Some("use only one of `result_schema` or `result_schema_path`"@)
    } else {
        None
    }
}

/// Why a step is malformed, if it is.
pub open spec fn step_shape_error(s: Step) -> Option<Seq<char>> {
    if s.send is Some && s.call_tool is Some {
        Some("set only one of `send` or `call_tool`"@)
    } else if s.send is None && s.call_tool is None {
        Some("step requires `send` or `call_tool`"@)
    } else if s.expect_error is Some {
        None
    } else {
        match s.expect {
            Some(e) => expect_config_error(e),
            None => Some("step requires `expect` or `expect_error`"@),
        }
    }
}

/// The model of a check result.
pub open spec fn check_of(r: Result<(), String>) -> Option<Seq<char>> {
    match r {
        Ok(()) => None,
        Err(m) => Some(m@),
    }
}

/// Whether `p` is set to something other than blanks.
pub fn schema_path_is_set(p: &Option<String>) -> (r: bool)
    ensures
        r == has_schema_path(*p),
{
    match p {
        Some(s) => trim_chars(s.as_str()).len() > 0,
        None => false,
    }
}

impl ExpectSpec {
    /// Checks that the block asks for something and does not name two schemas.
    pub fn validate_success_expect(&self) -> (r: Result<(), String>)
        ensures
            check_of(r) == expect_config_error(*self),
    {
        let has_subset = self.result.is_some();
        let has_inline = self.result_schema.is_some();
        let has_path = schema_path_is_set(&self.result_schema_path);
        if !has_subset && !has_inline && !has_path {
            return Err(
                String::from_str(
                    "expect requires at least one of `result`, `result_schema`, or `result_schema_path`",
                ),
            );
        }
        if has_inline && has_path {
            return Err(String::from_str("use only one of `result_schema` or `result_schema_path`"));
        }
        Ok(())
    }
}

/// The RPC a step sends: method and params, or why it has none.
pub open spec fn rpc_target(s: Step) -> Result<(Seq<char>, Json), Seq<char>> {
    match s.call_tool {
        Some(ct) => Ok(
            (
                "tools/call"@,
                Json::Object(
                    seq![("arguments"@, ct.arguments@), ("name"@, Json::Str(ct.name@))],
                ),
            ),
        ),
        None => match s.send {
            Some(sp) => Ok((sp.method@, sp.params@)),
            None => Err("step has no rpc target"@),
        },
    }
}

/// The model of an executable RPC target.
pub open spec fn target_of(r: Result<(String, JsonValue), String>) -> Result<(Seq<char>, Json), Seq<char>> {
    match r {
        Ok((m, p)) => Ok((m@, p@)),
        Err(e) => Err(e@),
    }
}

impl Step {
    /// Validates step shape (call-time).
    pub fn validate(&self) -> (r: Result<(), String>)
        ensures
            check_of(r) == step_shape_error(*self),
    {
        if self.send.is_some() && self.call_tool.is_some() {
            return Err(String::from_str("set only one of `send` or `call_tool`"));
        }
        if self.send.is_none() && self.call_tool.is_none() {
            return Err(String::from_str("step requires `send` or `call_tool`"));
        }
        if self.expect_error.is_some() {
            return Ok(());
        }
        match &self.expect {
            Some(e) => e.validate_success_expect(),
            None => Err(String::from_str("step requires `expect` or `expect_error`")),
        }
    }

    /// The JSON-RPC method and params this step sends.
    pub fn rpc_method_and_params(&self) -> (r: Result<(String, JsonValue), String>)
        ensures
            target_of(r) == rpc_target(*self),
    {
        if let Some(ct) = &self.call_tool {
            let mut members: Vec<(String, JsonValue)> = Vec::new();
            members.push((String::from_str("arguments"), ct.arguments.deep_clone()));
            members.push((String::from_str("name"), JsonValue::String(ct.name.clone())));
            let params = JsonValue::Object(members);
            assert(members@[0].1@ == ct.arguments@);
            assert(members@[1].1@ == Json::Str(ct.name@));
            assert(params@->Object_0 =~= seq![("arguments"@, ct.arguments@), ("name"@, Json::Str(ct.name@))]);
            return Ok((String::from_str("tools/call"), params));
        }
        if let Some(s) = &self.send {
            return Ok((s.method.clone(), s.params.deep_clone()));
        }
        Err(String::from_str("step has no rpc target"))
    }
}

/// Why a suite document's `version` is not accepted, if it is not (1 and 2 are).
pub open spec fn version_error(version: u32) -> Option<Seq<char>> {
    if version < 1 || version > 2 {
        Some("unsupported suite version: "@ + nat_text(version as nat))
    } else {
        None
    }
}

/// Checks that a suite document's `version` is supported.
pub fn check_suite_version(version: u32) -> (r: Result<(), String>)
    ensures
        check_of(r) == version_error(version),
{
    if version < 1 || version > 2 {
        let mut out = String::from_str("unsupported suite version: ");
        push_u64(&mut out, version as u64);
        return Err(out);
    }
    Ok(())
}

/// Law: a step that passes the shape check always has an RPC to send.
pub proof fn law_valid_step_has_rpc_target(step: Step)
    requires
        step_shape_error(step) is None,
    ensures
        rpc_target(step) is Ok,
{
}

} // verus!
