//! JSON Schema validation of values, through the `jsonschema` crate.
use vstd::prelude::*;
use crate::json::{json_text, JsonValue};

verus! {

/// Whether `jsonschema` builds a validator from the schema whose JSON text is
/// `schema_json` (false as well when the text is not JSON).
pub uninterp spec fn schema_compiles(schema_json: Seq<char>) -> bool;

/// The first validation error `jsonschema::validate` reports for the instance whose
/// JSON text is `instance_json` against the schema whose text is `schema_json`
/// (`None` when the instance is valid).
pub uninterp spec fn schema_first_error(schema_json: Seq<char>, instance_json: Seq<char>) -> Option<Seq<char>>;

/// Calls `jsonschema::validator_for` on the parsed schema text and reports whether a
/// validator was built. The claim is only that the answer is a function of the text.
#[verifier::external_body]
fn validator_builds(schema_json: &str) -> (r: bool)
    ensures
        r == schema_compiles(schema_json@),
{
    match serde_json::from_str::<serde_json::Value>(schema_json) {
        Ok(schema) => jsonschema::validator_for(&schema).is_ok(),
        Err(_) => false,
    }
}

/// Calls `jsonschema::validate` on the parsed schema and instance texts and renders the
/// first error it reports. That function panics on a schema it cannot compile, hence the
/// `requires`. The claim is only that the result is a function of the two texts.
#[verifier::external_body]
fn first_validation_error(schema_json: &str, instance_json: &str) -> (r: Option<String>)
    requires
        schema_compiles(schema_json@),
    ensures
        match r {
            Some(m) => schema_first_error(schema_json@, instance_json@) == Some(m@),
            None => schema_first_error(schema_json@, instance_json@) is None,
        },
{
    let schema: serde_json::Value = match serde_json::from_str(schema_json) {
        Ok(v) => v,
        Err(e) => return Some(e.to_string()),
    };
    let instance: serde_json::Value = match serde_json::from_str(instance_json) {
        Ok(v) => v,
        Err(e) => return Some(e.to_string()),
    };
    jsonschema::validate(&schema, &instance).err().map(|e| e.to_string())
}

/// Whether `schema` is a JSON Schema that validation can use.
pub fn json_schema_compiles(schema: &JsonValue) -> (r: bool)
    ensures
        r == schema_compiles(json_text(schema@)),
{
    let text = schema.to_text();
    validator_builds(text.as_str())
}

/// The model of a validation result.
pub open spec fn validation_of(r: Result<(), String>) -> Option<Seq<char>> {
    match r {
        Ok(()) => None,
        Err(m) => Some(m@),
    }
}

/// What validating `instance` against `schema` reports: `None` when valid, else the
/// first error.
pub open spec fn schema_report(instance: crate::json::Json, schema: crate::json::Json) -> Option<Seq<char>> {
    schema_first_error(json_text(schema), json_text(instance))
}

/// Validates `instance` against a JSON Schema value (draft detected from the schema).
pub fn validate_json_schema(instance: &JsonValue, schema: &JsonValue) -> (r: Result<(), String>)
    requires
        schema_compiles(json_text(schema@)),
    ensures
        validation_of(r) == schema_report(instance@, schema@),
{
    let schema_text = schema.to_text();
    let instance_text = instance.to_text();
    match first_validation_error(schema_text.as_str(), instance_text.as_str()) {
        Some(m) => Err(m),
        None => Ok(()),
    }
}

/// Validates `instance` against `schema` when the schema compiles; `None` when it does not.
pub fn try_validate_json_schema(instance: &JsonValue, schema: &JsonValue) -> (r: Option<Result<(), String>>)
    ensures
        match r {
            None => !schema_compiles(json_text(schema@)),
            Some(v) => schema_compiles(json_text(schema@)) && validation_of(v) == schema_report(instance@, schema@),
        },
{
    if json_schema_compiles(schema) {
        Some(validate_json_schema(instance, schema))
    } else {
        None
    }
}

} // verus!
