//! Parameter and method mutations for crash-smoke fuzzing of a server.
use vstd::prelude::*;
use vstd::string::StringExecFns;
use rand::Rng;
use crate::json::{
    array_of, find_key, find_member, json_str, lemma_find_key_from, object1,
    object2, Json, JsonNumber, JsonValue,
};
use crate::suite::{rpc_target, step_shape_error, target_of, SuiteFile};
use crate::text::{ascii_upper, chars_of, nat_text, push_char, push_str, push_u64, to_ascii_uppercase};

verus! {

/// The method string sent in fuzz iteration `seed`.
pub open spec fn fuzzed_method(base: Seq<char>, seed: u64) -> Seq<char> {
    let mode = seed % 8;
    if mode == 0 {
        base
    } else if mode == 1 {
        base + "/"@
    } else if mode == 2 && base.len() > 0 {
        base.drop_last()
    } else if mode == 3 {
        "__not_an_mcp_method__"@
    } else if mode == 4 {
        Seq::empty()
    } else if mode == 5 {
        "NOT_"@ + ascii_upper(base)
    } else if mode == 6 {
        base + "::"@ + nat_text(seed as nat)
    } else {
        base.reverse()
    }
}

/// `s` reversed.
fn reversed(s: &str) -> (r: String)
    ensures
        r@ == s@.reverse(),
{
    let cs = chars_of(s);
    let mut out = String::new();
    let mut i: usize = cs.len();
    while i > 0
        invariant
            i <= cs@.len(),
            cs@ == s@,
            out@ == cs@.subrange(i as int, cs@.len() as int).reverse(),
        decreases i,
    {
        i = i - 1;
        push_char(&mut out, cs[i]);
        assert(out@ =~= cs@.subrange(i as int, cs@.len() as int).reverse());
    }
    assert(cs@.subrange(0, cs@.len() as int) =~= cs@);
    out
}

/// The method string for fuzz iteration `seed`: the base method, variations of it, or
/// methods no server implements. Dropping the last character of `base` is only done
/// when that character is ASCII.
pub fn fuzz_method(base: &str, seed: u64) -> (r: String)
    requires
        seed % 8 == 2 && base@.len() > 0 ==> (base@.last() as u32) < 0x80,
    ensures
        r@ == fuzzed_method(base@, seed),
{
    let mode = seed % 8;
    if mode == 0 {
        String::from_str(base)
    } else if mode == 1 {
        let mut out = String::from_str(base);
        push_str(&mut out, "/");
        out
    } else if mode == 2 && base.unicode_len() > 0 {
        let cs = chars_of(base);
        let mut out = String::new();
        let last = cs.len() - 1;
        let mut i: usize = 0;
        while i < last
            invariant
                cs@ == base@,
                cs@.len() > 0,
                last == cs@.len() - 1,
                i <= last,
                out@ == cs@.take(i as int),
            decreases cs@.len() - i,
        {
            push_char(&mut out, cs[i]);
            assert(cs@.take(i + 1) =~= cs@.take(i as int).push(cs@[i as int]));
            i = i + 1;
        }
        assert(cs@.take(i as int) =~= cs@.drop_last());
        out
    } else if mode == 3 {
        String::from_str("__not_an_mcp_method__")
    } else if mode == 4 {
        String::new()
    } else if mode == 5 {
        let mut out = String::from_str("NOT_");
        let up = to_ascii_uppercase(base);
        push_str(&mut out, up.as_str());
        out
    } else if mode == 6 {
        let mut out = String::from_str(base);
        push_str(&mut out, "::");
        push_u64(&mut out, seed);
        out
    } else {
        reversed(base)
    }
}

/// Lexicographic order of keys (by character code, which is the order of their UTF-8 bytes).
pub open spec fn key_less(a: Seq<char>, b: Seq<char>) -> bool
    decreases a.len(),
{
    if b.len() == 0 {
        false
    } else if a.len() == 0 {
        true
    } else if a[0] != b[0] {
        (a[0] as u32) < (b[0] as u32)
    } else {
        key_less(a.drop_first(), b.drop_first())
    }
}

/// Where a new key goes among sorted members: before the first member not less than it.
pub open spec fn insert_position(ms: Seq<(Seq<char>, Json)>, k: Seq<char>, from: int) -> int
    decreases ms.len() - from,
{
    if from < 0 || from >= ms.len() {
        ms.len() as int
    } else if !key_less(ms[from].0, k) {
        from
    } else {
        insert_position(ms, k, from + 1)
    }
}

/// A map insert on key-sorted members: replace the value of an existing key, else add
/// the member at its sorted position.
pub open spec fn map_insert(ms: Seq<(Seq<char>, Json)>, k: Seq<char>, v: Json) -> Seq<(Seq<char>, Json)> {
    match find_key(ms, k) {
        Some(i) => ms.update(i, (k, v)),
        None => ms.insert(insert_position(ms, k, 0), (k, v)),
    }
}

/// The key at position `(seed as usize) % len` of a non-empty object.
pub open spec fn picked_key(ms: Seq<(Seq<char>, Json)>, seed: u64) -> Seq<char> {
    ms[((seed as usize) as int) % (ms.len() as int)].0
}

/// The params sent in fuzz iteration `seed`, given the random numbers drawn for it.
pub open spec fn mutated_params(base: Json, seed: u64, r32: u32, r64: i64) -> Json {
    let mode = seed % 10;
    if mode <= 1 {
        match base {
            Json::Object(ms) => if ms.len() > 0 {
                Json::Object(map_insert(ms, "_fuzz_"@ + nat_text(seed as nat), Json::Int(r32 as int)))
            } else {
                Json::Object(seq![("_fuzz_empty"@, Json::Bool(true))])
            },
            _ => Json::Object(seq![("_fuzz"@, Json::Int(r32 as int))]),
        }
    } else if mode == 2 {
        Json::Null
    } else if mode == 3 {
        Json::Int(r64 as int)
    } else if mode == 4 {
        Json::Str("wrong_param_type"@)
    } else if mode == 5 {
        match base {
            Json::Object(ms) => if ms.len() > 0 {
                Json::Object(ms.remove(find_key(ms, picked_key(ms, seed))->Some_0))
            } else {
                base
            },
            _ => base,
        }
    } else if mode == 6 {
        match base {
            Json::Object(ms) => if ms.len() > 0 {
                Json::Object(map_insert(ms, picked_key(ms, seed), nested_value()))
            } else {
                Json::Object(seq![("nested"@, Json::Object(seq![("a"@, Json::Int(1))]))])
            },
            _ => Json::Object(seq![("nested"@, Json::Object(seq![("a"@, Json::Int(1))]))]),
        }
    } else if mode == 7 {
        Json::Array(Seq::empty())
    } else if mode == 8 {
        Json::Object(
            seq![("cursor"@, Json::Int(seed as int)), ("extra"@, Json::Object(seq![("b"@, Json::Bool(false))]))],
        )
    } else {
        base
    }
}

/// `{"nested": [1, 2, {"x": null}]}`.
pub open spec fn nested_value() -> Json {
    Json::Object(
        seq![("nested"@, Json::Array(seq![Json::Int(1), Json::Int(2), Json::Object(seq![("x"@, Json::Null)])]))],
    )
}

/// Lexicographic comparison of two keys.
fn key_less_exec(a: &str, b: &str) -> (r: bool)
    ensures
        r == key_less(a@, b@),
{
    let xs = chars_of(a);
    let ys = chars_of(b);
    let mut i: usize = 0;
    assert(xs@.subrange(0, xs@.len() as int) =~= xs@);
    assert(ys@.subrange(0, ys@.len() as int) =~= ys@);
    while i < xs.len() && i < ys.len() && xs[i] == ys[i]
        invariant
            i <= xs@.len(),
            i <= ys@.len(),
            xs@ == a@,
            ys@ == b@,
            key_less(a@, b@) == key_less(xs@.subrange(i as int, xs@.len() as int), ys@.subrange(i as int, ys@.len() as int)),
        decreases xs@.len() - i,
    {
        let ghost sa = xs@.subrange(i as int, xs@.len() as int);
        let ghost sb = ys@.subrange(i as int, ys@.len() as int);
        assert(sa.drop_first() =~= xs@.subrange(i + 1, xs@.len() as int));
        assert(sb.drop_first() =~= ys@.subrange(i + 1, ys@.len() as int));
        i = i + 1;
    }
    let ghost sa = xs@.subrange(i as int, xs@.len() as int);
    let ghost sb = ys@.subrange(i as int, ys@.len() as int);
    if i == ys.len() {
        false
    } else if i == xs.len() {
        true
    } else {
        assert(sa[0] == xs@[i as int] && sb[0] == ys@[i as int]);
        (xs[i] as u32) < (ys[i] as u32)
    }
}

/// Inserts `(k, v)` into key-sorted members as a map insert.
fn insert_member(members: &mut Vec<(String, JsonValue)>, k: String, v: JsonValue)
    ensures
        crate::json::members_of(final(members)@) == map_insert(crate::json::members_of(old(members)@), k@, v@),
{
    let ghost ms = crate::json::members_of(members@);
    let ghost km = k@;
    let ghost vm = v@;
    proof {
        lemma_find_key_from(ms, km, 0);
    }
    match find_member(members, k.as_str()) {
        Some(i) => {
            proof {
                match find_key(ms, km) {
                    Some(q) => {
                        assert(ms[q].0 == members@[q].0@);
                    },
                    None => {},
                }
                assert(ms[i as int].0 == members@[i as int].0@);
            }
            members.set(i, (k, v));
            assert(crate::json::members_of(members@) =~= ms.update(i as int, (km, vm)));
        },
        None => {
            proof {
                match find_key(ms, km) {
                    Some(q) => {
                        assert(ms[q].0 == members@[q].0@);
                    },
                    None => {},
                }
            }
            let mut p: usize = 0;
            while p < members.len() && key_less_exec(members[p].0.as_str(), k.as_str())
                invariant
                    p <= members@.len(),
                    ms == crate::json::members_of(members@),
                    km == k@,
                    insert_position(ms, km, 0) == insert_position(ms, km, p as int),
                decreases members@.len() - p,
            {
                p = p + 1;
            }
            members.insert(p, (k, v));
            assert(crate::json::members_of(members@) =~= ms.insert(p as int, (km, vm)));
        },
    }
}

/// A random `u32` from the thread-local generator (`rand::Rng::gen`); any value may come back.
#[verifier::external_body]
fn random_u32() -> (r: u32) {
    rand::thread_rng().gen::<u32>()
}

/// A random `i64` from the thread-local generator (`rand::Rng::gen`); any value may come back.
#[verifier::external_body]
fn random_i64() -> (r: i64) {
    rand::thread_rng().gen::<i64>()
}

/// A JSON integer holding `n`.
fn int_value(n: i64) -> (r: JsonValue)
    ensures
        r@ == Json::Int(n as int),
{
    if n >= 0 {
        JsonValue::Number(JsonNumber::PosInt(n as u64))
    } else {
        JsonValue::Number(JsonNumber::NegInt(n))
    }
}

/// `{"nested": [1, 2, {"x": null}]}`.
fn nested_exec() -> (r: JsonValue)
    ensures
        r@ == nested_value(),
{
    let mut items: Vec<JsonValue> = Vec::new();
    items.push(JsonValue::Number(JsonNumber::PosInt(1)));
    items.push(JsonValue::Number(JsonNumber::PosInt(2)));
    items.push(object1("x", JsonValue::Null));
    let arr = array_of(items);
    assert(arr@->Array_0 =~= seq![Json::Int(1), Json::Int(2), Json::Object(seq![("x"@, Json::Null)])]);
    object1("nested", arr)
}

/// A copy of an object's members.
fn members_copy(base: &JsonValue) -> (r: Vec<(String, JsonValue)>)
    requires
        base@ is Object,
    ensures
        crate::json::members_of(r@) == base@->Object_0,
{
    match base.deep_clone() {
        JsonValue::Object(ms) => {
            proof {
                crate::json::lemma_object_model(ms);
            }
            ms
        },
        _ => Vec::new(),
    }
}

/// The params for fuzz iteration `seed` given the random numbers drawn for it.
pub fn mutate_params_with(base: &JsonValue, seed: u64, r32: u32, r64: i64) -> (r: JsonValue)
    ensures
        r@ == mutated_params(base@, seed, r32, r64),
{
    let mode = seed % 10;
    if mode <= 1 {
        match base {
            JsonValue::Object(m) => {
                assert(base@ == Json::Object(base@->Object_0));
                assert(base@->Object_0.len() == m@.len());
                if m.len() > 0 {
                    let mut out = members_copy(base);
                    let mut key = String::from_str("_fuzz_");
                    push_u64(&mut key, seed);
                    insert_member(&mut out, key, JsonValue::Number(JsonNumber::PosInt(r32 as u64)));
                    proof {
                        crate::json::lemma_object_model(out);
                    }
                    let r = JsonValue::Object(out);
                    assert(r@ == mutated_params(base@, seed, r32, r64));
                    r
                } else {
                    object1("_fuzz_empty", JsonValue::Bool(true))
                }
            },
            _ => object1("_fuzz", JsonValue::Number(JsonNumber::PosInt(r32 as u64))),
        }
    } else if mode == 2 {
        JsonValue::Null
    } else if mode == 3 {
        int_value(r64)
    } else if mode == 4 {
        json_str("wrong_param_type")
    } else if mode == 5 {
        match base {
            JsonValue::Object(m) => {
                assert(base@ == Json::Object(base@->Object_0));
                assert(base@->Object_0.len() == m@.len());
                if m.len() > 0 {
                    let mut out = members_copy(base);
                    let ghost ms = crate::json::members_of(out@);
                    let pick = (seed as usize) % out.len();
                    let key = out[pick].0.clone();
                    proof {
                        lemma_find_key_from(ms, key@, 0);
                        assert(ms[pick as int].0 == out@[pick as int].0@);
                        match find_key(ms, key@) {
                            Some(q) => {
                                assert(ms[q].0 == out@[q].0@);
                            },
                            None => {},
                        }
                    }
                    assert(picked_key(ms, seed) == key@);
                    match find_member(&out, key.as_str()) {
                        Some(i) => {
                            proof {
                                assert(ms[i as int].0 == out@[i as int].0@);
                                assert(find_key(ms, key@) == Some(i as int));
                            }
                            out.remove(i);
                            assert(crate::json::members_of(out@) =~= ms.remove(i as int));
                        },
                        None => {},
                    }
                    proof {
                        crate::json::lemma_object_model(out);
                    }
                    let r = JsonValue::Object(out);
                    assert(r@ == mutated_params(base@, seed, r32, r64));
                    r
                } else {
                    base.deep_clone()
                }
            },
            _ => base.deep_clone(),
        }
    } else if mode == 6 {
        match base {
            JsonValue::Object(m) => {
                assert(base@ == Json::Object(base@->Object_0));
                assert(base@->Object_0.len() == m@.len());
                if m.len() > 0 {
                    let mut out = members_copy(base);
                    let ghost ms = crate::json::members_of(out@);
                    let pick = (seed as usize) % out.len();
                    let key = out[pick].0.clone();
                    assert(ms[pick as int].0 == out@[pick as int].0@);
                    insert_member(&mut out, key, nested_exec());
                    proof {
                        crate::json::lemma_object_model(out);
                    }
                    let r = JsonValue::Object(out);
                    assert(r@ == mutated_params(base@, seed, r32, r64));
                    r
                } else {
                    object1("nested", object1("a", JsonValue::Number(JsonNumber::PosInt(1))))
                }
            },
            _ => object1("nested", object1("a", JsonValue::Number(JsonNumber::PosInt(1)))),
        }
    } else if mode == 7 {
        let r = array_of(Vec::new());
        assert(r@->Array_0 =~= Seq::<Json>::empty());
        assert(r@ == mutated_params(base@, seed, r32, r64));
        r
    } else if mode == 8 {
        object2(
            "cursor",
            JsonValue::Number(JsonNumber::PosInt(seed)),
            "extra",
            object1("b", JsonValue::Bool(false)),
        )
    } else {
        base.deep_clone()
    }
}

/// The params for fuzz iteration `seed`: variations of `base`, some with random numbers
/// drawn from the thread-local generator.
pub fn mutate_params(base: &JsonValue, seed: u64) -> (r: JsonValue)
    ensures
        exists|r32: u32, r64: i64| r@ == mutated_params(base@, seed, r32, r64),
{
    let mode = seed % 10;
    let r32 = if mode <= 1 { random_u32() } else { 0 };
    let r64 = if mode == 3 { random_i64() } else { 0 };
    mutate_params_with(base, seed, r32, r64)
}

/// The request a fuzz run varies: the first step of the first scenario.
pub open spec fn fuzz_base(suite: SuiteFile) -> Result<(Seq<char>, Json), Seq<char>> {
    if suite.scenarios@.len() == 0 {
        Err("suite needs at least one scenario"@)
    } else if suite.scenarios@[0].steps@.len() == 0 {
        Err("first scenario needs at least one step"@)
    } else {
        let st = suite.scenarios@[0].steps@[0];
        match step_shape_error(st) {
            Some(d) => Err(d),
            None => rpc_target(st),
        }
    }
}

/// The method and params of the request a fuzz run varies.
pub fn fuzz_target(suite: &SuiteFile) -> (r: Result<(String, JsonValue), String>)
    ensures
        target_of(r) == fuzz_base(*suite),
{
    if suite.scenarios.len() == 0 {
        return Err(String::from_str("suite needs at least one scenario"));
    }
    let scenario = &suite.scenarios[0];
    if scenario.steps.len() == 0 {
        return Err(String::from_str("first scenario needs at least one step"));
    }
    let step = &scenario.steps[0];
    match step.validate() {
        Err(d) => Err(d),
        Ok(()) => step.rpc_method_and_params(),
    }
}

/// `fuzz complete: iterations=… successes=… rpc_errors=… transport_errors=…`.
pub open spec fn fuzz_summary_text(iterations: u64, successes: u64, rpc_errors: u64, transport_errors: u64) -> Seq<char> {
    "fuzz complete: iterations="@ + nat_text(iterations as nat) + " successes="@ + nat_text(successes as nat)
        + " rpc_errors="@ + nat_text(rpc_errors as nat) + " transport_errors="@ + nat_text(transport_errors as nat)
}

/// The closing line of a fuzz run.
pub fn fuzz_summary(iterations: u64, successes: u64, rpc_errors: u64, transport_errors: u64) -> (r: String)
    ensures
        r@ == fuzz_summary_text(iterations, successes, rpc_errors, transport_errors),
{
    let mut out = String::from_str("fuzz complete: iterations=");
    push_u64(&mut out, iterations);
    push_str(&mut out, " successes=");
    push_u64(&mut out, successes);
    push_str(&mut out, " rpc_errors=");
    push_u64(&mut out, rpc_errors);
    push_str(&mut out, " transport_errors=");
    push_u64(&mut out, transport_errors);
    out
}

} // verus!
