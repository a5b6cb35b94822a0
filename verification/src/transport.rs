//! The message-level decisions of an MCP session: framing requests, classifying what
//! the server writes, matching responses to requests, and checking the handshake.
use vstd::prelude::*;
use vstd::string::StringExecFns;
use crate::error::{CoreError, ErrorModel, RpcError};
use crate::json::{
    find_key, find_member, json_parse, lemma_find_key_from, parse_json_text, json_as_i64, json_as_str, json_eq, json_get, json_str, json_text, members_of,
    object3, Json, JsonNumber,
    JsonValue,
};
use crate::protocol::ConnectOptions;
use crate::text::{push_char, trim_chars, string_of, trimmed};

verus! {

/// A message read from the server, classified.
#[derive(Debug)]
pub enum Incoming {
    /// A response to one of our requests.
    Response { id: JsonValue, payload: Result<JsonValue, RpcError> },
    /// A server-initiated JSON-RPC request toward the client.
    ServerRequest(JsonValue),
    /// Other JSON traffic (such as stray logs that parse as JSON).
    Other(JsonValue),
}

/// The model of a classified message.
pub enum IncomingModel {
    Response(Json, Result<Json, (i64, Seq<char>, Option<Json>)>),
    ServerRequest(Json),
    Other(Json),
}

impl View for Incoming {
    type V = IncomingModel;

    open spec fn view(&self) -> IncomingModel {
        match self {
            Incoming::Response { id, payload } => IncomingModel::Response(
                id@,
                match payload {
                    Ok(v) => Ok(v@),
                    Err(e) => Err(crate::error::rpc_model(*e)),
                },
            ),
            Incoming::ServerRequest(v) => IncomingModel::ServerRequest(v@),
            Incoming::Other(v) => IncomingModel::Other(v@),
        }
    }
}

/// How a JSON message from the server is classified; `None` for notifications, which
/// are dropped.
pub open spec fn classify(v: Json) -> Option<IncomingModel> {
    let has_method = json_get(v, "method"@) is Some;
    let has_id = json_get(v, "id"@) is Some;
    if has_method && !has_id {
        None
    } else if has_method && has_id {
        Some(IncomingModel::ServerRequest(v))
    } else if has_id && json_get(v, "error"@) is Some {
        let err = json_get(v, "error"@)->Some_0;
        let code = match json_get(err, "code"@) {
            Some(c) => match json_as_i64(c) {
                Some(n) => n,
                None => 0,
            },
            None => 0,
        };
        let message = match json_get(err, "message"@) {
            Some(m) => match json_as_str(m) {
                Some(s) => s,
                None => Seq::empty(),
            },
            None => Seq::empty(),
        };
        Some(IncomingModel::Response(json_get(v, "id"@)->Some_0, Err((code, message, json_get(err, "data"@)))))
    } else if has_id && json_get(v, "result"@) is Some {
        Some(IncomingModel::Response(json_get(v, "id"@)->Some_0, Ok(json_get(v, "result"@)->Some_0)))
    } else {
        Some(IncomingModel::Other(v))
    }
}

/// Classifies one JSON message read from the server.
pub fn classify_incoming(value: JsonValue) -> (r: Option<Incoming>)
    ensures
        match r {
            Some(m) => classify(value@) == Some(m@),
            None => classify(value@) is None,
        },
{
    let has_method = value.get("method").is_some();
    let has_id = value.get("id").is_some();
    if has_method && !has_id {
        return None;
    }
    if has_method && has_id {
        return Some(Incoming::ServerRequest(value));
    }
    if let Some(id) = value.get("id") {
        if let Some(err) = value.get("error") {
            let code = match err.get("code") {
                Some(c) => match c.as_i64() {
                    Some(n) => n,
                    None => 0,
                },
                None => 0,
            };
            let message = match err.get("message") {
                Some(m) => match m.as_str() {
                    Some(s) => String::from_str(s),
                    None => String::new(),
                },
                None => String::new(),
            };
            let data = match err.get("data") {
                Some(d) => Some(d.deep_clone()),
                None => None,
            };
            return Some(
                Incoming::Response { id: id.deep_clone(), payload: Err(RpcError { code, message, data }) },
            );
        }
        if let Some(result) = value.get("result") {
            return Some(Incoming::Response { id: id.deep_clone(), payload: Ok(result.deep_clone()) });
        }
    }
    Some(Incoming::Other(value))
}

/// What one line read from the server amounts to: nothing for a blank line or one that
/// is not JSON, else the classified message.
pub open spec fn line_message(line: Seq<char>) -> Option<IncomingModel> {
    let t = trimmed(line);
    if t.len() == 0 {
        None
    } else {
        match json_parse(t) {
            None => None,
            Some(v) => classify(v),
        }
    }
}

/// Trims, parses and classifies one line read from the server.
pub fn classify_line(line: &str) -> (r: Option<Incoming>)
    ensures
        match r {
            Some(m) => line_message(line@) == Some(m@),
            None => line_message(line@) is None,
        },
{
    let cs = trim_chars(line);
    if cs.len() == 0 {
        return None;
    }
    let t = string_of(&cs);
    match parse_json_text(t.as_str()) {
        None => None,
        Some(v) => classify_incoming(v),
    }
}

/// What waiting for the response to request `id` makes of a classified message:
/// the call's outcome when it answers `id`, else nothing (keep waiting).
pub open spec fn response_for(id: Json, m: IncomingModel) -> Option<Result<Json, (i64, Seq<char>, Option<Json>)>> {
    match m {
        IncomingModel::Response(rid, payload) => if json_eq(rid, id) { Some(payload) } else { None },
        _ => None,
    }
}

/// The call outcome carried by `m` when it answers request `id`.
pub fn take_response(id: &JsonValue, m: Incoming) -> (r: Option<Result<JsonValue, RpcError>>)
    ensures
        match r {
            Some(Ok(v)) => response_for(id@, m@) == Some(Ok::<Json, (i64, Seq<char>, Option<Json>)>(v@)),
            Some(Err(e)) => response_for(id@, m@) == Some(Err::<Json, (i64, Seq<char>, Option<Json>)>(crate::error::rpc_model(e))),
            None => response_for(id@, m@) is None,
        },
{
    match m {
        Incoming::Response { id: rid, payload } => {
            if rid.json_equal(id) {
                Some(payload)
            } else {
                None
            }
        },
        _ => None,
    }
}

/// Why an `initialize` result is refused, if it is: it must carry a non-empty string
/// `protocolVersion`.
pub open spec fn initialize_result_error(result: Json) -> Option<Seq<char>> {
    match json_get(result, "protocolVersion"@) {
        Some(v) => match json_as_str(v) {
            Some(s) => if s.len() == 0 {
                Some("initialize result contained empty protocolVersion"@)
            } else {
                None
            },
            None => Some("initialize result missing protocolVersion"@),
        },
        None => Some("initialize result missing protocolVersion"@),
    }
}

/// Checks the server's `initialize` result.
pub fn validate_initialize_result(result: &JsonValue) -> (r: Result<(), CoreError>)
    ensures
        match r {
            Ok(()) => initialize_result_error(result@) is None,
            Err(e) => initialize_result_error(result@) matches Some(m) && e@ == ErrorModel::Handshake(m),
        },
{
    let version = match result.get("protocolVersion") {
        Some(v) => v.as_str(),
        None => None,
    };
    match version {
        None => Err(CoreError::Handshake(String::from_str("initialize result missing protocolVersion"))),
        Some(s) => {
            if s.unicode_len() == 0 {
                Err(CoreError::Handshake(String::from_str("initialize result contained empty protocolVersion")))
            } else {
                Ok(())
            }
        },
    }
}

/// The server capabilities announced in an `initialize` result (`null` when absent).
pub open spec fn announced_capabilities(init_result: Json) -> Json {
    match json_get(init_result, "capabilities"@) {
        Some(c) => c,
        None => Json::Null,
    }
}

/// The server capabilities announced in an `initialize` result.
pub fn capabilities_of(init_result: &JsonValue) -> (r: JsonValue)
    ensures
        r@ == announced_capabilities(init_result@),
{
    match init_result.get("capabilities") {
        Some(c) => c.deep_clone(),
        None => JsonValue::Null,
    }
}

/// The `params` of the `initialize` request.
pub open spec fn initialize_params_model(protocol_version: Seq<char>, name: Seq<char>, version: Seq<char>) -> Json {
    Json::Object(
        seq![
            ("capabilities"@, Json::Object(Seq::empty())),
            ("clientInfo"@, Json::Object(seq![("name"@, Json::Str(name)), ("version"@, Json::Str(version))])),
            ("protocolVersion"@, Json::Str(protocol_version)),
        ],
    )
}

/// The `params` of the `initialize` request for these options.
pub fn initialize_params(options: &ConnectOptions) -> (r: JsonValue)
    ensures
        r@ == initialize_params_model(options.protocol_version@, options.client_info.name@, options.client_info.version@),
{
    let mut info: Vec<(String, JsonValue)> = Vec::new();
    info.push((String::from_str("name"), json_str(options.client_info.name.as_str())));
    info.push((String::from_str("version"), json_str(options.client_info.version.as_str())));
    let info_v = JsonValue::Object(info);
    assert(info_v@->Object_0 =~= seq![("name"@, Json::Str(options.client_info.name@)), ("version"@, Json::Str(options.client_info.version@))]);
    let caps = JsonValue::Object(Vec::new());
    assert(caps@->Object_0 =~= Seq::<(Seq<char>, Json)>::empty());
    let mut top: Vec<(String, JsonValue)> = Vec::new();
    top.push((String::from_str("capabilities"), caps));
    top.push((String::from_str("clientInfo"), info_v));
    top.push((String::from_str("protocolVersion"), json_str(options.protocol_version.as_str())));
    let r = JsonValue::Object(top);
    assert(r@->Object_0 =~= initialize_params_model(options.protocol_version@, options.client_info.name@, options.client_info.version@)->Object_0);
    r
}

/// A JSON-RPC request envelope.
pub open spec fn request_model(id: Json, method: Seq<char>, params: Json) -> Json {
    Json::Object(
        seq![("id"@, id), ("jsonrpc"@, Json::Str("2.0"@)), ("method"@, Json::Str(method)), ("params"@, params)],
    )
}

/// Wraps a call in a JSON-RPC 2.0 request envelope.
pub fn request_envelope(id: &JsonValue, method: &str, params: JsonValue) -> (r: JsonValue)
    ensures
        r@ == request_model(id@, method@, params@),
{
    let ghost p = params@;
    let mut top: Vec<(String, JsonValue)> = Vec::new();
    top.push((String::from_str("id"), id.deep_clone()));
    top.push((String::from_str("jsonrpc"), json_str("2.0")));
    top.push((String::from_str("method"), json_str(method)));
    top.push((String::from_str("params"), params));
    let r = JsonValue::Object(top);
    assert(r@->Object_0 =~= request_model(id@, method@, p)->Object_0);
    r
}

/// The `notifications/initialized` message sent after a successful handshake.
pub open spec fn initialized_model() -> Json {
    Json::Object(seq![("jsonrpc"@, Json::Str("2.0"@)), ("method"@, Json::Str("notifications/initialized"@))])
}

/// The `notifications/initialized` message.
pub fn initialized_notification() -> (r: JsonValue)
    ensures
        r@ == initialized_model(),
{
    let mut top: Vec<(String, JsonValue)> = Vec::new();
    top.push((String::from_str("jsonrpc"), json_str("2.0")));
    top.push((String::from_str("method"), json_str("notifications/initialized")));
    let r = JsonValue::Object(top);
    assert(r@->Object_0 =~= initialized_model()->Object_0);
    r
}

/// One newline-delimited frame: the message's compact JSON text and `\n`.
pub fn frame_message(message: &JsonValue) -> (r: String)
    ensures
        r@ == json_text(message@).push('\n'),
{
    let mut line = message.to_text();
    push_char(&mut line, '\n');
    line
}

/// The id of the handshake's `initialize` request.
pub fn initialize_request_id() -> (r: JsonValue)
    ensures
        r@ == Json::Int(1),
{
    JsonValue::Number(JsonNumber::PosInt(1))
}

/// The id for the request after one with id `current`; ids saturate at `u64::MAX`.
pub fn next_request_id(current: u64) -> (r: (JsonValue, u64))
    ensures
        r.0@ == Json::Int(current as int),
        r.1 == if current == u64::MAX { current } else { (current + 1) as u64 },
{
    let next = if current == u64::MAX { current } else { current + 1 };
    (JsonValue::Number(JsonNumber::PosInt(current)), next)
}

/// The id of a session's request number `k` (counting from 0): `k + 2`, saturating
/// at `u64::MAX`; id 1 belongs to the handshake.
pub open spec fn request_id(k: nat) -> nat {
    if k + 2 <= u64::MAX { k + 2 } else { u64::MAX as nat }
}

/// The ids of a session's requests after the handshake.
pub struct RequestIds {
    next: u64,
    taken: Ghost<nat>,
}

impl RequestIds {
    /// How many ids have been handed out.
    pub closed spec fn taken(&self) -> nat {
        self.taken@
    }

    /// The counter agrees with the number of ids handed out.
    pub closed spec fn wf(&self) -> bool {
        self.next as nat == request_id(self.taken@)
    }

    /// Ids for a session whose handshake used id 1.
    pub fn new() -> (r: RequestIds)
        ensures
            r.wf(),
            r.taken() == 0,
    {
        RequestIds { next: 2, taken: Ghost(0) }
    }

    /// Hands out the id of the next request.
    pub fn take(&mut self) -> (r: JsonValue)
        requires
            old(self).wf(),
        ensures
            final(self).wf(),
            final(self).taken() == old(self).taken() + 1,
            r@ == Json::Int(request_id(old(self).taken()) as int),
    {
        let (id, next) = next_request_id(self.next);
        self.next = next;
        self.taken = Ghost(self.taken@ + 1);
        id
    }
}

/// Law: request ids are never the handshake's id 1, and two different requests of a
/// session get different ids as long as ids have not saturated at `u64::MAX`.
pub proof fn law_request_ids_are_fresh(i: nat, j: nat)
    requires
        i != j,
        i + 2 <= u64::MAX,
        j + 2 <= u64::MAX,
    ensures
        request_id(i) != 1,
        request_id(i) != request_id(j),
{
}

/// The reply to a server→client request whose `method` has a configured result:
/// `{"id": <request id>, "jsonrpc": "2.0", "result": <configured result>}`.
pub open spec fn configured_reply(request: Json, replies: Seq<(String, JsonValue)>) -> Option<Json> {
    match json_get(request, "method"@) {
        Some(m) => match json_as_str(m) {
            Some(name) => match find_key(members_of(replies), name) {
                Some(k) => Some(
                    Json::Object(
                        seq![
                            ("id"@, match json_get(request, "id"@) {
                                Some(i) => i,
                                None => Json::Null,
                            }),
                            ("jsonrpc"@, Json::Str("2.0"@)),
                            ("result"@, replies[k].1@),
                        ],
                    ),
                ),
                None => None,
            },
            None => None,
        },
        None => None,
    }
}

/// The reply to send for a server→client request, when its method has a configured
/// result (the first configured entry for that method).
pub fn server_request_reply(request: &JsonValue, replies: &Vec<(String, JsonValue)>) -> (r: Option<JsonValue>)
    ensures
        match r {
            Some(v) => configured_reply(request@, replies@) == Some(v@),
            None => configured_reply(request@, replies@) is None,
        },
{
    let method = match request.get("method") {
        Some(m) => m,
        None => {
            return None;
        },
    };
    let name = match method.as_str() {
        Some(n) => n,
        None => {
            return None;
        },
    };
    let ghost ms = members_of(replies@);
    let found = find_member(replies, name);
    proof {
        lemma_find_key_from(ms, name@, 0);
        assert(forall|j: int| 0 <= j < ms.len() ==> #[trigger] ms[j].0 == replies@[j].0@);
        match found {
            Some(k) => assert(ms[k as int].0 == name@),
            None => {
                if let Some(i) = find_key(ms, name@) {
                    assert(ms[i].0 == replies@[i].0@);
                }
                assert(find_key(ms, name@) is None);
            },
        }
    }
    match found {
        None => None,
        Some(k) => {
            let id = match request.get("id") {
                Some(i) => i.deep_clone(),
                None => JsonValue::Null,
            };
            let ghost id_model = match json_get(request@, "id"@) {
                Some(i) => i,
                None => Json::Null,
            };
            let result = replies[k].1.deep_clone();
            let ghost result_model = result@;
            let two = json_str("2.0");
            let ghost two_model = two@;
            let reply = object3("id", id, "jsonrpc", two, "result", result);
            let ghost cr = configured_reply(request@, replies@)->Some_0->Object_0;
            assert(cr =~= seq![("id"@, id_model), ("jsonrpc"@, two_model), ("result"@, result_model)]);
            Some(reply)
        },
    }
}

} // verus!
