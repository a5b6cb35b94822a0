//! Client identity and connection tunables.
use vstd::prelude::*;
use vstd::string::StringExecFns;
use crate::json::JsonValue;

verus! {

/// The version this library reports about itself.
pub const PACKAGE_VERSION: &'static str = "0.1.0";

/// Information about this test client, sent during `initialize`.
#[derive(Clone, Debug)]
pub struct ClientInfo {
    pub name: String,
    pub version: String,
}

impl Default for ClientInfo {
    fn default() -> (r: ClientInfo)
        ensures
            r.name@ == "mcp-test"@,
            r.version@ == PACKAGE_VERSION@,
    {
        ClientInfo { name: String::from_str("mcp-test"), version: String::from_str(PACKAGE_VERSION) }
    }
}

/// Tunables for connecting to an MCP server (stdio or HTTP).
#[derive(Clone, Debug)]
pub struct ConnectOptions {
    /// MCP protocol version string negotiated with `initialize`.
    pub protocol_version: String,
    /// Wall-clock timeout, in milliseconds, waiting for each JSON-RPC response.
    pub response_timeout_ms: u64,
    pub client_info: ClientInfo,
    /// Automatic JSON-RPC **results** for server→client requests, by `method`.
    pub client_jsonrpc_results: Vec<(String, JsonValue)>,
    /// When set, one NDJSON object per RPC exchange (redacted) is appended to this file.
    pub trace_ndjson_path: Option<String>,
}

impl Default for ConnectOptions {
    fn default() -> (r: ConnectOptions)
        ensures
            r.protocol_version@ == "2024-11-05"@,
            r.response_timeout_ms == 5000,
            r.client_info.name@ == "mcp-test"@,
            r.client_info.version@ == PACKAGE_VERSION@,
            r.client_jsonrpc_results@.len() == 0,
            r.trace_ndjson_path is None,
    {
        ConnectOptions {
            protocol_version: String::from_str("2024-11-05"),
            response_timeout_ms: 5000,
            client_info: ClientInfo::default(),
            client_jsonrpc_results: Vec::new(),
            trace_ndjson_path: None,
        }
    }
}

} // verus!
