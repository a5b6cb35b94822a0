//! Built-in MCP surface checks: a starter conformance pack.
use vstd::prelude::*;
use vstd::string::StringExecFns;
use crate::error::{CoreError, ErrorModel};
use crate::json::{
    array_of, empty_object, json_get, json_str, lemma_find_key_from, object1, object2, object3, Json, JsonNumber,
    JsonValue,
};
use crate::suite::{ExpectSpec, MatchMode, Scenario, SendSpec, ServerSpec, SessionMode, Step, SuiteFile};
use crate::text::{push_str, str_eq};

verus! {

/// `{"type": t}`.
pub open spec fn typed(t: Seq<char>) -> Json {
    Json::Object(seq![("type"@, Json::Str(t))])
}

/// The schema `tools/list` results must satisfy.
pub open spec fn tools_list_schema_model() -> Json {
    Json::Object(
        seq![
            (
                "properties"@,
                Json::Object(
                    seq![
                        (
                            "tools"@,
                            Json::Object(
                                seq![
                                    (
                                        "items"@,
                                        Json::Object(
                                            seq![
                                                (
                                                    "properties"@,
                                                    Json::Object(
                                                        seq![
                                                            ("description"@, typed("string"@)),
                                                            ("inputSchema"@, typed("object"@)),
                                                            (
                                                                "name"@,
                                                                Json::Object(
                                                                    seq![("minLength"@, Json::Int(1)), ("type"@, Json::Str("string"@))],
                                                                ),
                                                            ),
                                                        ],
                                                    ),
                                                ),
                                                ("required"@, Json::Array(seq![Json::Str("name"@), Json::Str("inputSchema"@)])),
                                                ("type"@, Json::Str("object"@)),
                                            ],
                                        ),
                                    ),
                                    ("type"@, Json::Str("array"@)),
                                ],
                            ),
                        ),
                    ],
                ),
            ),
            ("required"@, Json::Array(seq![Json::Str("tools"@)])),
            ("type"@, Json::Str("object"@)),
        ],
    )
}

/// The schema a `*/list` result holding an array under `key` must satisfy.
pub open spec fn list_schema_model(key: Seq<char>) -> Json {
    Json::Object(
        seq![
            ("properties"@, Json::Object(seq![(key, typed("array"@))])),
            ("required"@, Json::Array(seq![Json::Str(key)])),
            ("type"@, Json::Str("object"@)),
        ],
    )
}

/// `{"type": t}`.
fn typed_exec(t: &str) -> (r: JsonValue)
    ensures
        r@ == typed(t@),
{
    object1("type", json_str(t))
}

/// An array of the given strings.
fn string_array2(a: &str, b: &str) -> (r: JsonValue)
    ensures
        r@ == Json::Array(seq![Json::Str(a@), Json::Str(b@)]),
{
    let mut v: Vec<JsonValue> = Vec::new();
    v.push(json_str(a));
    v.push(json_str(b));
    let r = array_of(v);
    assert(r@->Array_0 =~= seq![Json::Str(a@), Json::Str(b@)]);
    r
}

/// An array holding one string.
fn string_array1(a: &str) -> (r: JsonValue)
    ensures
        r@ == Json::Array(seq![Json::Str(a@)]),
{
    let mut v: Vec<JsonValue> = Vec::new();
    v.push(json_str(a));
    let r = array_of(v);
    assert(r@->Array_0 =~= seq![Json::Str(a@)]);
    r
}

/// The schema `tools/list` results must satisfy.
fn tools_list_schema() -> (r: JsonValue)
    ensures
        r@ == tools_list_schema_model(),
{
    let name = object2("minLength", JsonValue::Number(JsonNumber::PosInt(1)), "type", json_str("string"));
    let props = object3("description", typed_exec("string"), "inputSchema", typed_exec("object"), "name", name);
    let items = object3("properties", props, "required", string_array2("name", "inputSchema"), "type", json_str("object"));
    let tools = object2("items", items, "type", json_str("array"));
    object3("properties", object1("tools", tools), "required", string_array1("tools"), "type", json_str("object"))
}

/// The schema for a `*/list` result holding an array under `key`.
fn list_schema(key: &str) -> (r: JsonValue)
    ensures
        r@ == list_schema_model(key@),
{
    object3("properties", object1(key, typed_exec("array")), "required", string_array1(key), "type", json_str("object"))
}

/// `s` is a one-step check that sends `method` with empty params and expects the result
/// to satisfy `schema`.
pub open spec fn is_list_check(s: Scenario, name: Seq<char>, method: Seq<char>, schema: Json) -> bool {
    &&& s.name@ == name
    &&& s.skip_unless_any_capability@.len() == 0
    &&& s.steps@.len() == 1
    &&& s.steps@[0].send matches Some(sp) && sp.method@ == method && sp.params@ == Json::Object(Seq::empty())
    &&& s.steps@[0].call_tool is None
    &&& s.steps@[0].expect_error is None
    &&& s.steps@[0].expect matches Some(e) && {
        &&& e.result is None
        &&& e.result_schema matches Some(sch) && sch@ == schema
        &&& e.result_schema_path is None
        &&& e.match_mode == MatchMode::Subset
        &&& e.result_pointer is None
        &&& !e.ordered_arrays
    }
}

/// The starter scenarios, in order.
pub open spec fn is_builtin_pack(s: Seq<Scenario>) -> bool {
    &&& s.len() == 3
    &&& is_list_check(s[0], "conformance:mcp.tools_list"@, "tools/list"@, tools_list_schema_model())
    &&& is_list_check(s[1], "conformance:mcp.resources_list"@, "resources/list"@, list_schema_model("resources"@))
    &&& is_list_check(s[2], "conformance:mcp.prompts_list"@, "prompts/list"@, list_schema_model("prompts"@))
}

/// A one-step scenario checking a list method against a schema.
fn list_check(name: &str, method: &str, schema: JsonValue) -> (r: Scenario)
    ensures
        is_list_check(r, name@, method@, schema@),
{
    let ghost sm = schema@;
    let step = Step {
        send: Some(SendSpec { method: String::from_str(method), params: empty_object() }),
        call_tool: None,
        expect: Some(
            ExpectSpec {
                result: None,
                result_schema: Some(schema),
                result_schema_path: None,
                match_mode: MatchMode::Subset,
                result_pointer: None,
                ordered_arrays: false,
            },
        ),
        expect_error: None,
    };
    let mut steps: Vec<Step> = Vec::new();
    steps.push(step);
    Scenario { name: String::from_str(name), skip_unless_any_capability: Vec::new(), steps }
}

/// Scenarios that should pass against any spec-shaped MCP server exposing these methods.
pub fn builtin_scenarios() -> (r: Vec<Scenario>)
    ensures
        is_builtin_pack(r@),
{
    let mut out: Vec<Scenario> = Vec::new();
    out.push(list_check("conformance:mcp.tools_list", "tools/list", tools_list_schema()));
    out.push(list_check("conformance:mcp.resources_list", "resources/list", list_schema("resources")));
    out.push(list_check("conformance:mcp.prompts_list", "prompts/list", list_schema("prompts")));
    out
}

/// A version 2 suite with the built-in scenarios and the provided server.
pub fn suite_with_server(server: ServerSpec) -> (r: SuiteFile)
    ensures
        r.version == 2,
        r.session == SessionMode::PerScenario,
        r.server == server,
        is_builtin_pack(r.scenarios@),
{
    SuiteFile { version: 2, session: SessionMode::PerScenario, server, scenarios: builtin_scenarios() }
}

/// Load the scenarios of a named pack; `default` is the starter conformance surface.
pub fn load_pack_scenarios(name: &str) -> (r: Result<Vec<Scenario>, CoreError>)
    ensures
        name@ == "default"@ ==> (r matches Ok(s) && is_builtin_pack(s@)),
        name@ != "default"@ ==> (r matches Err(e) && e@ == ErrorModel::Handshake("unknown conformance pack: "@ + name@)),
{
    if str_eq(name, "default") {
        Ok(builtin_scenarios())
    } else {
        let mut msg = String::from_str("unknown conformance pack: ");
        push_str(&mut msg, name);
        Err(CoreError::Handshake(msg))
    }
}

/// Build a version 3 suite from a named pack plus a server.
pub fn suite_from_pack(server: ServerSpec, pack: &str) -> (r: Result<SuiteFile, CoreError>)
    ensures
        pack@ == "default"@ ==> (r matches Ok(s) && s.version == 3 && s.session == SessionMode::PerScenario
            && s.server == server && is_builtin_pack(s.scenarios@)),
        pack@ != "default"@ ==> (r matches Err(e) && e@ == ErrorModel::Handshake("unknown conformance pack: "@ + pack@)),
{
    let scenarios = load_pack_scenarios(pack)?;
    Ok(SuiteFile { version: 3, session: SessionMode::PerScenario, server, scenarios })
}

/// Scenario `sc` calls `{key}/list` and checks that the result requires `key`, holding
/// an array there.
pub open spec fn checks_list_of(sc: Scenario, key: Seq<char>) -> bool {
    &&& sc.steps@.len() >= 1
    &&& sc.steps@[0].send matches Some(sp) && sp.method@ == key + "/list"@
    &&& sc.steps@[0].expect matches Some(e) && e.result_schema matches Some(sch) && {
        &&& json_get(sch@, "required"@) == Some(Json::Array(seq![Json::Str(key)]))
        &&& json_get(sch@, "properties"@) matches Some(props) && json_get(props, key) matches Some(kv)
            && json_get(kv, "type"@) == Some(Json::Str("array"@))
    }
}

/// A list schema requires its key and holds an array there.
proof fn lemma_list_schema_checks(key: Seq<char>)
    ensures
        json_get(list_schema_model(key), "required"@) == Some(Json::Array(seq![Json::Str(key)])),
        json_get(list_schema_model(key), "properties"@) == Some(Json::Object(seq![(key, typed("array"@))])),
        json_get(Json::Object(seq![(key, typed("array"@))]), key) == Some(typed("array"@)),
        json_get(typed("array"@), "type"@) == Some(Json::Str("array"@)),
{
    reveal_strlit("properties");
    reveal_strlit("required");
    reveal_strlit("type");
    let ms = list_schema_model(key)->Object_0;
    assert(ms[0].0 == "properties"@ && ms[1].0 == "required"@);
    assert("properties"@.len() != "required"@.len());
    lemma_find_key_from(ms, "required"@, 0);
    lemma_find_key_from(ms, "properties"@, 0);
    lemma_find_key_from(seq![(key, typed("array"@))], key, 0);
    lemma_find_key_from(typed("array"@)->Object_0, "type"@, 0);
}

/// Law: each built-in conformance check calls a `…/list` method and its result schema
/// requires exactly the key that method lists (`tools`, `resources`, `prompts`, in that
/// order), holding an array there.
pub proof fn law_builtin_checks_require_their_listed_key(s: Seq<Scenario>)
    requires
        is_builtin_pack(s),
    ensures
        s.len() == 3,
        checks_list_of(s[0], "tools"@),
        checks_list_of(s[1], "resources"@),
        checks_list_of(s[2], "prompts"@),
{
    reveal_strlit("tools/list");
    reveal_strlit("resources/list");
    reveal_strlit("prompts/list");
    reveal_strlit("tools");
    reveal_strlit("resources");
    reveal_strlit("prompts");
    reveal_strlit("/list");
    assert("tools/list"@ =~= "tools"@ + "/list"@);
    assert("resources/list"@ =~= "resources"@ + "/list"@);
    assert("prompts/list"@ =~= "prompts"@ + "/list"@);
    lemma_list_schema_checks("resources"@);
    lemma_list_schema_checks("prompts"@);
    // The tools schema.
    reveal_strlit("properties");
    reveal_strlit("required");
    reveal_strlit("type");
    reveal_strlit("items");
    let tm = tools_list_schema_model()->Object_0;
    assert(tm[0].0 == "properties"@ && tm[1].0 == "required"@);
    assert("properties"@.len() != "required"@.len());
    lemma_find_key_from(tm, "required"@, 0);
    lemma_find_key_from(tm, "properties"@, 0);
    let props = tm[0].1->Object_0;
    assert(props[0].0 == "tools"@);
    lemma_find_key_from(props, "tools"@, 0);
    let tv = props[0].1->Object_0;
    assert(tv[0].0 == "items"@ && tv[1].0 == "type"@);
    assert("items"@.len() != "type"@.len());
    lemma_find_key_from(tv, "type"@, 0);
}

} // verus!
