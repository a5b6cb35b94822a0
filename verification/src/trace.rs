//! Redacted trace records of RPC exchanges.
use vstd::prelude::*;
use vstd::string::StringExecFns;
use crate::error::{rpc_model, RpcError};
use crate::json::{json_str, json_text, object2, object3, Json, JsonNumber, JsonValue};
use crate::text::{ascii_lower, ascii_lower_char, occurs_at, push_char, seq_contains, str_contains, to_ascii_lowercase};

verus! {

/// Whether an object key names a secret: its ASCII lower-case contains `password`,
/// `token`, `secret` or `authorization`.
pub open spec fn is_secret_key(k: Seq<char>) -> bool {
    let l = ascii_lower(k);
    seq_contains(l, "password"@) || seq_contains(l, "token"@) || seq_contains(l, "secret"@)
        || seq_contains(l, "authorization"@)
}

/// `j` with the value of every secret-named object member, at any depth, replaced by
/// the string `***`.
pub open spec fn redacted(j: Json) -> Json
    decreases j,
{
    match j {
        Json::Object(ms) => Json::Object(
            Seq::new(
                ms.len(),
                |i: int|
                    if 0 <= i < ms.len() {
                        (ms[i].0, if is_secret_key(ms[i].0) { Json::Str("***"@) } else { redacted(ms[i].1) })
                    } else {
                        (Seq::empty(), Json::Null)
                    },
            ),
        ),
        Json::Array(xs) => Json::Array(
            Seq::new(xs.len(), |i: int| if 0 <= i < xs.len() { redacted(xs[i]) } else { Json::Null }),
        ),
        _ => j,
    }
}

/// Whether an object key names a secret.
pub fn key_is_secret(k: &str) -> (r: bool)
    ensures
        r == is_secret_key(k@),
{
    let lk = to_ascii_lowercase(k);
    str_contains(lk.as_str(), "password") || str_contains(lk.as_str(), "token") || str_contains(
        lk.as_str(),
        "secret",
    ) || str_contains(lk.as_str(), "authorization")
}

/// Best-effort redaction for trace output (keys only; secrets inside opaque strings are
/// not recognised).
pub fn redact_secrets(value: &JsonValue) -> (r: JsonValue)
    ensures
        r@ == redacted(value@),
    decreases value,
{
    match value {
        JsonValue::Object(members) => {
            let ghost ms = value@->Object_0;
            assert(value@ == Json::Object(ms));
            assert(forall|k: int| 0 <= k < members@.len() ==> #[trigger] ms[k] == (members@[k].0@, members@[k].1@));
            let mut out: Vec<(String, JsonValue)> = Vec::new();
            let mut i: usize = 0;
            while i < members.len()
                invariant
                    i <= members@.len(),
                    ms.len() == members@.len(),
                    *value == JsonValue::Object(*members),
                    forall|k: int| 0 <= k < members@.len() ==> #[trigger] ms[k] == (members@[k].0@, members@[k].1@),
                    out@.len() == i,
                    forall|k: int|
                        0 <= k < i ==> #[trigger] out@[k].0@ == ms[k].0 && out@[k].1@ == (if is_secret_key(ms[k].0) {
                            Json::Str("***"@)
                        } else {
                            redacted(ms[k].1)
                        }),
                decreases members@.len() - i,
            {
                let k = &members[i].0;
                if key_is_secret(k.as_str()) {
                    out.push((k.clone(), JsonValue::String(String::from_str("***"))));
                } else {
                    proof {
                        assert(decreases_to!(*value => (*value)->Object_0));
                        assert(decreases_to!(*members => members@));
                        assert(decreases_to!(members@ => members@[i as int]));
                        assert(decreases_to!(members@[i as int] => members@[i as int].1));
                    }
                    out.push((k.clone(), redact_secrets(&members[i].1)));
                }
                i = i + 1;
            }
            let r = JsonValue::Object(out);
            assert(r@->Object_0 =~= redacted(value@)->Object_0);
            r
        },
        JsonValue::Array(items) => {
            let ghost xs = value@->Array_0;
            assert(value@ == Json::Array(xs));
            assert(forall|k: int| 0 <= k < items@.len() ==> #[trigger] xs[k] == items@[k]@);
            let mut out: Vec<JsonValue> = Vec::new();
            let mut i: usize = 0;
            while i < items.len()
                invariant
                    i <= items@.len(),
                    xs.len() == items@.len(),
                    *value == JsonValue::Array(*items),
                    forall|k: int| 0 <= k < items@.len() ==> #[trigger] xs[k] == items@[k]@,
                    out@.len() == i,
                    forall|k: int| 0 <= k < i ==> #[trigger] out@[k]@ == redacted(xs[k]),
                decreases items@.len() - i,
            {
                proof {
                    assert(decreases_to!(*value => (*value)->Array_0));
                    assert(decreases_to!(*items => items@));
                    assert(decreases_to!(items@ => items@[i as int]));
                }
                out.push(redact_secrets(&items[i]));
                i = i + 1;
            }
            let r = JsonValue::Array(out);
            assert(r@->Array_0 =~= redacted(value@)->Array_0) by {
                assert forall|k: int| 0 <= k < out@.len() implies r@->Array_0[k] == redacted(value@)->Array_0[k] by {
                    assert(out@[k]@ == redacted(xs[k]));
                }
            }
            r
        },
        other => other.deep_clone(),
    }
}

/// The trace record for one event: `{"kind": kind, "payload": redacted payload}`.
pub open spec fn trace_record(kind: Seq<char>, payload: Json) -> Json {
    Json::Object(seq![("kind"@, Json::Str(kind)), ("payload"@, redacted(payload))])
}

/// A JSON-RPC error object: `code`, `message` and, when present, `data`.
pub open spec fn rpc_error_object(e: (i64, Seq<char>, Option<Json>)) -> Json {
    match e.2 {
        Some(d) => Json::Object(
            seq![("code"@, Json::Int(e.0 as int)), ("message"@, Json::Str(e.1)), ("data"@, d)],
        ),
        None => Json::Object(seq![("code"@, Json::Int(e.0 as int)), ("message"@, Json::Str(e.1))]),
    }
}

/// What is traced of one RPC exchange: the request sent, and the `result` or the
/// `error` the server answered with.
pub open spec fn exchange_model(request: Json, outcome: Result<Json, (i64, Seq<char>, Option<Json>)>) -> Json {
    match outcome {
        Ok(v) => Json::Object(seq![("request"@, request), ("result"@, v)]),
        Err(e) => Json::Object(seq![("request"@, request), ("error"@, rpc_error_object(e))]),
    }
}

/// The trace payload of one RPC exchange.
pub fn exchange_payload(request: &JsonValue, outcome: &Result<JsonValue, RpcError>) -> (r: JsonValue)
    ensures
        r@ == exchange_model(
            request@,
            match outcome {
                Ok(v) => Ok(v@),
                Err(e) => Err(rpc_model(*e)),
            },
        ),
{
    match outcome {
        Ok(v) => object2("request", request.deep_clone(), "result", v.deep_clone()),
        Err(e) => {
            let code = JsonValue::Number(JsonNumber::NegInt(e.code));
            let message = json_str(e.message.as_str());
            let error = match &e.data {
                Some(d) => object3("code", code, "message", message, "data", d.deep_clone()),
                None => object2("code", code, "message", message),
            };
            object2("request", request.deep_clone(), "error", error)
        },
    }
}

/// Builds a trace record for one event, with secrets redacted from the payload.
pub fn trace_event(kind: &str, payload: &JsonValue) -> (r: JsonValue)
    ensures
        r@ == trace_record(kind@, payload@),
{
    let mut top: Vec<(String, JsonValue)> = Vec::new();
    top.push((String::from_str("kind"), JsonValue::String(String::from_str(kind))));
    top.push((String::from_str("payload"), redact_secrets(payload)));
    let r = JsonValue::Object(top);
    assert(top@[0].1@ == Json::Str(kind@));
    assert(top@[1].1@ == redacted(payload@));
    assert(r@->Object_0 =~= trace_record(kind@, payload@)->Object_0);
    r
}

/// The NDJSON line appended for a record: its redacted compact JSON text and `\n`.
pub fn ndjson_line(record: &JsonValue) -> (r: String)
    ensures
        r@ == json_text(redacted(record@)).push('\n'),
{
    let red = redact_secrets(record);
    let mut line = red.to_text();
    push_char(&mut line, '\n');
    line
}

/// Law: redaction is idempotent — redacting a redacted value changes nothing.
pub proof fn law_redaction_is_idempotent(j: Json)
    ensures
        redacted(redacted(j)) == redacted(j),
    decreases j,
{
    match j {
        Json::Object(ms) => {
            let r = redacted(j)->Object_0;
            assert forall|i: int| 0 <= i < ms.len() implies (if is_secret_key(r[i].0) {
                Json::Str("***"@)
            } else {
                redacted(r[i].1)
            }) == r[i].1 by {
                if !is_secret_key(ms[i].0) {
                    law_redaction_is_idempotent(ms[i].1);
                }
            }
            assert(redacted(redacted(j))->Object_0 =~= r);
        },
        Json::Array(xs) => {
            let r = redacted(j)->Array_0;
            assert forall|i: int| 0 <= i < xs.len() implies redacted(r[i]) == r[i] by {
                law_redaction_is_idempotent(xs[i]);
            }
            assert(redacted(redacted(j))->Array_0 =~= r);
        },
        _ => {},
    }
}

/// `k` holds the word whose lower-case spelling is `lw` and upper-case spelling is `uw`
/// at index `at`, each letter in either case.
pub open spec fn word_at(k: Seq<char>, lw: Seq<char>, uw: Seq<char>, at: int) -> bool {
    &&& 0 <= at
    &&& at + lw.len() <= k.len()
    &&& forall|j: int| 0 <= j < lw.len() ==> #[trigger] k[at + j] == lw[j] || k[at + j] == uw[j]
}

/// `k` names a secret: it holds `password`, `token`, `secret` or `authorization`
/// somewhere, in any mix of ASCII case.
pub open spec fn names_secret(k: Seq<char>) -> bool {
    exists|at: int| {
        ||| #[trigger] word_at(k, "password"@, "PASSWORD"@, at)
        ||| word_at(k, "token"@, "TOKEN"@, at)
        ||| word_at(k, "secret"@, "SECRET"@, at)
        ||| word_at(k, "authorization"@, "AUTHORIZATION"@, at)
    }
}

/// A word held in either case shows up in the key's lower-case form.
proof fn lemma_word_lowered(k: Seq<char>, lw: Seq<char>, uw: Seq<char>, at: int)
    requires
        word_at(k, lw, uw, at),
        uw.len() == lw.len(),
        forall|j: int| 0 <= j < lw.len() ==> ascii_lower_char(#[trigger] lw[j]) == lw[j] && ascii_lower_char(uw[j]) == lw[j],
    ensures
        seq_contains(ascii_lower(k), lw),
{
    let l = ascii_lower(k);
    assert forall|j: int| 0 <= j < lw.len() implies #[trigger] l.subrange(at, at + lw.len())[j] == lw[j] by {
        assert(k[at + j] == lw[j] || k[at + j] == uw[j]);
    }
    assert(l.subrange(at, at + lw.len()) =~= lw);
    assert(occurs_at(l, lw, at));
}

/// Law: in a redacted object, the value of every member whose key names a secret (in
/// any ASCII case) is the string `***`; the key itself is kept.
pub proof fn law_secret_members_are_masked(ms: Seq<(Seq<char>, Json)>, i: int)
    requires
        0 <= i < ms.len(),
        names_secret(ms[i].0),
    ensures
        redacted(Json::Object(ms))->Object_0.len() == ms.len(),
        redacted(Json::Object(ms))->Object_0[i] == (ms[i].0, Json::Str("***"@)),
{
    let k = ms[i].0;
    let at = choose|at: int| {
        ||| #[trigger] word_at(k, "password"@, "PASSWORD"@, at)
        ||| word_at(k, "token"@, "TOKEN"@, at)
        ||| word_at(k, "secret"@, "SECRET"@, at)
        ||| word_at(k, "authorization"@, "AUTHORIZATION"@, at)
    };
    reveal_strlit("password");
    reveal_strlit("PASSWORD");
    reveal_strlit("token");
    reveal_strlit("TOKEN");
    reveal_strlit("secret");
    reveal_strlit("SECRET");
    reveal_strlit("authorization");
    reveal_strlit("AUTHORIZATION");
    if word_at(k, "password"@, "PASSWORD"@, at) {
        lemma_word_lowered(k, "password"@, "PASSWORD"@, at);
    } else if word_at(k, "token"@, "TOKEN"@, at) {
        lemma_word_lowered(k, "token"@, "TOKEN"@, at);
    } else if word_at(k, "secret"@, "SECRET"@, at) {
        lemma_word_lowered(k, "secret"@, "SECRET"@, at);
    } else {
        lemma_word_lowered(k, "authorization"@, "AUTHORIZATION"@, at);
    }
    assert(is_secret_key(k));
}

} // verus!
