//! The JSON data model used throughout the library.
use vstd::prelude::*;
use serde_json::Value;
use vstd::string::StringExecFns;
use crate::text::{chars_of, hex_char, int_text, push_char, push_i64, push_str, push_u64, str_eq};

verus! {

/// A JSON number as `serde_json` distinguishes it: non-negative integers, negative
/// integers, and finite floating-point values held as their canonical decimal text.
#[derive(Clone, Debug)]
pub enum JsonNumber {
    PosInt(u64),
    NegInt(i64),
    Float(String),
}

/// A JSON document. Object members keep their order; keys are expected to be unique.
#[derive(Debug)]
pub enum JsonValue {
    Null,
    Bool(bool),
    Number(JsonNumber),
    String(String),
    Array(Vec<JsonValue>),
    Object(Vec<(String, JsonValue)>),
}

/// Mathematical JSON value.
pub enum Json {
    Null,
    Bool(bool),
    Int(int),
    Float(Seq<char>),
    Str(Seq<char>),
    Array(Seq<Json>),
    Object(Seq<(Seq<char>, Json)>),
}

impl JsonNumber {
    pub open spec fn model(&self) -> Json {
        match self {
            JsonNumber::PosInt(n) => Json::Int(*n as int),
            JsonNumber::NegInt(n) => Json::Int(*n as int),
            JsonNumber::Float(t) => Json::Float(t@),
        }
    }
}

impl JsonValue {
    pub open spec fn model(&self) -> Json
        decreases self,
    {
        match self {
            JsonValue::Null => Json::Null,
            JsonValue::Bool(b) => Json::Bool(*b),
            JsonValue::Number(n) => n.model(),
            JsonValue::String(s) => Json::Str(s@),
            JsonValue::Array(items) => Json::Array(
                Seq::new(items@.len(), |i: int| if 0 <= i < items@.len() { items@[i].model() } else { Json::Null }),
            ),
            JsonValue::Object(members) => Json::Object(
                Seq::new(members@.len(), |i: int| if 0 <= i < members@.len() { (members@[i].0@, members@[i].1.model()) } else { (Seq::empty(), Json::Null) }),
            ),
        }
    }
}

impl View for JsonValue {
    type V = Json;

    open spec fn view(&self) -> Json {
        self.model()
    }
}


/// Index of the first member whose key is `key`, scanning from `from`.
pub open spec fn find_key_from(members: Seq<(Seq<char>, Json)>, key: Seq<char>, from: int) -> Option<int>
    decreases members.len() - from,
{
    if from < 0 || from >= members.len() {
        None
    } else if members[from].0 == key {
        Some(from)
    } else {
        find_key_from(members, key, from + 1)
    }
}

/// Index of the first member whose key is `key` (what `Map::get` finds).
pub open spec fn find_key(members: Seq<(Seq<char>, Json)>, key: Seq<char>) -> Option<int> {
    find_key_from(members, key, 0)
}

/// Object keys are pairwise distinct, at every depth.
pub open spec fn json_wf(j: Json) -> bool
    decreases j,
{
    match j {
        Json::Array(items) => forall|i: int| 0 <= i < items.len() ==> json_wf(#[trigger] items[i]),
        Json::Object(members) => {
            &&& forall|i: int, k: int|
                0 <= i < members.len() && 0 <= k < members.len() && i != k ==> #[trigger] members[i].0
                    != #[trigger] members[k].0
            &&& forall|i: int| 0 <= i < members.len() ==> json_wf(#[trigger] members[i].1)
        },
        _ => true,
    }
}

/// What a float's text stands for: `serde_json` writes each `f64` one way, except that
/// `-0.0` and `0.0` are the same number.
pub open spec fn float_key(t: Seq<char>) -> Seq<char> {
    if t == "-0.0"@ {
        "0.0"@
    } else {
        t
    }
}

/// Equality of scalars: floats by value, everything else as written.
pub open spec fn scalar_eq(a: Json, b: Json) -> bool {
    match (a, b) {
        (Json::Float(x), Json::Float(y)) => float_key(x) == float_key(y),
        _ => a == b,
    }
}

/// Equality of JSON values: arrays element-wise, objects as maps from keys to values,
/// scalars by [`scalar_eq`].
pub open spec fn json_eq(a: Json, b: Json) -> bool
    decreases a,
{
    match a {
        Json::Array(xs) => match b {
            Json::Array(ys) => xs.len() == ys.len() && forall|i: int|
                0 <= i < xs.len() ==> json_eq(#[trigger] xs[i], ys[i]),
            _ => false,
        },
        Json::Object(xs) => match b {
            Json::Object(ys) => xs.len() == ys.len() && forall|i: int|
                0 <= i < xs.len() ==> match find_key(ys, #[trigger] xs[i].0) {
                    Some(j) => json_eq(xs[i].1, ys[j].1),
                    None => false,
                },
            _ => false,
        },
        _ => scalar_eq(a, b),
    }
}

/// How `serde_json` writes one character inside a string literal.
pub open spec fn escape_char(c: char) -> Seq<char> {
    if c == '"' {
        seq!['\\', '"']
    } else if c == '\\' {
        seq!['\\', '\\']
    } else if c == '\u{8}' {
        seq!['\\', 'b']
    } else if c == '\u{c}' {
        seq!['\\', 'f']
    } else if c == '\n' {
        seq!['\\', 'n']
    } else if c == '\r' {
        seq!['\\', 'r']
    } else if c == '\t' {
        seq!['\\', 't']
    } else if (c as u32) < 0x20 {
        seq!['\\', 'u', '0', '0', hex_char((c as u32 / 16) as nat), hex_char((c as u32 % 16) as nat)]
    } else {
        seq![c]
    }
}

/// The escaped body of a string literal.
pub open spec fn escaped(s: Seq<char>) -> Seq<char>
    decreases s.len(),
{
    if s.len() == 0 {
        Seq::empty()
    } else {
        escaped(s.drop_last()) + escape_char(s.last())
    }
}

/// A JSON string literal.
pub open spec fn quoted(s: Seq<char>) -> Seq<char> {
    seq!['"'] + escaped(s) + seq!['"']
}

/// Compact JSON text, as `serde_json` displays a value.
pub open spec fn json_text(j: Json) -> Seq<char>
    decreases j, 0int,
{
    match j {
        Json::Null => "null"@,
        Json::Bool(b) => if b { "true"@ } else { "false"@ },
        Json::Int(n) => int_text(n),
        Json::Float(t) => t,
        Json::Str(s) => quoted(s),
        Json::Array(items) => seq!['['] + items_text(items, items.len() as int) + seq![']'],
        Json::Object(members) => seq!['{'] + members_text(members, members.len() as int) + seq!['}'],
    }
}

/// The first `n` array elements, comma separated.
pub open spec fn items_text(items: Seq<Json>, n: int) -> Seq<char>
    decreases items, n,
{
    if n <= 0 || n > items.len() {
        Seq::empty()
    } else if n == 1 {
        json_text(items[0])
    } else {
        items_text(items, n - 1) + seq![','] + json_text(items[n - 1])
    }
}

/// The first `n` object members, comma separated.
pub open spec fn members_text(members: Seq<(Seq<char>, Json)>, n: int) -> Seq<char>
    decreases members, n,
{
    if n <= 0 || n > members.len() {
        Seq::empty()
    } else if n == 1 {
        quoted(members[0].0) + seq![':'] + json_text(members[0].1)
    } else {
        members_text(members, n - 1) + seq![','] + quoted(members[n - 1].0) + seq![':']
            + json_text(members[n - 1].1)
    }
}

/// Appends `s` as the body of a JSON string literal.
pub fn push_escaped(out: &mut String, s: &str)
    ensures
        final(out)@ == old(out)@ + escaped(s@),
{
    let cs = chars_of(s);
    let ghost start = out@;
    let mut i: usize = 0;
    while i < cs.len()
        invariant
            i <= cs@.len(),
            cs@ == s@,
            out@ == start + escaped(cs@.take(i as int)),
        decreases cs@.len() - i,
    {
        let c = cs[i];
        let ghost before = out@;
        if c == '"' {
            push_char(out, '\\');
            push_char(out, '"');
        } else if c == '\\' {
            push_char(out, '\\');
            push_char(out, '\\');
        } else if c == '\u{8}' {
            push_char(out, '\\');
            push_char(out, 'b');
        } else if c == '\u{c}' {
            push_char(out, '\\');
            push_char(out, 'f');
        } else if c == '\n' {
            push_char(out, '\\');
            push_char(out, 'n');
        } else if c == '\r' {
            push_char(out, '\\');
            push_char(out, 'r');
        } else if c == '\t' {
            push_char(out, '\\');
            push_char(out, 't');
        } else if (c as u32) < 0x20 {
            let code: u32 = c as u32;
            push_char(out, '\\');
            push_char(out, 'u');
            push_char(out, '0');
            push_char(out, '0');
            push_char(out, hex_digit(code / 16));
            push_char(out, hex_digit(code % 16));
        } else {
            push_char(out, c);
        }
        assert(out@ =~= before + escape_char(c));
        assert(cs@.take(i + 1).drop_last() =~= cs@.take(i as int));
        i = i + 1;
    }
    assert(cs@.take(i as int) =~= cs@);
}

/// Lower-case hexadecimal digit.
pub fn hex_digit(d: u32) -> (c: char)
    requires
        d < 16,
    ensures
        c == hex_char(d as nat),
{
    if d < 10 {
        ((48 + d) as u8) as char
    } else {
        ((87 + d) as u8) as char
    }
}

/// Appends a JSON string literal.
pub fn push_quoted(out: &mut String, s: &str)
    ensures
        final(out)@ == old(out)@ + quoted(s@),
{
    push_char(out, '"');
    push_escaped(out, s);
    push_char(out, '"');
    assert(final(out)@ =~= old(out)@ + quoted(s@));
}

impl JsonNumber {
    /// Appends the number's JSON text.
    pub fn write_text(&self, out: &mut String)
        ensures
            final(out)@ == old(out)@ + json_text(self.model()),
    {
        match self {
            JsonNumber::PosInt(n) => push_u64(out, *n),
            JsonNumber::NegInt(n) => push_i64(out, *n),
            JsonNumber::Float(t) => push_str(out, t.as_str()),
        }
    }
}

impl JsonValue {
    /// Appends the compact JSON text of this value.
    pub fn write_text(&self, out: &mut String)
        ensures
            final(out)@ == old(out)@ + json_text(self@),
        decreases self,
    {
        match self {
            JsonValue::Null => push_str(out, "null"),
            JsonValue::Bool(b) => {
                if *b {
                    push_str(out, "true")
                } else {
                    push_str(out, "false")
                }
            },
            JsonValue::Number(n) => n.write_text(out),
            JsonValue::String(s) => push_quoted(out, s.as_str()),
            JsonValue::Array(items) => {
                let ghost model = self@;
                let ghost xs = model->Array_0;
                let ghost start = out@;
                push_char(out, '[');
                let mut i: usize = 0;
                while i < items.len()
                    invariant
                        i <= items@.len(),
                        *self == JsonValue::Array(*items),
                        xs.len() == items@.len(),
                        forall|k: int| 0 <= k < xs.len() ==> #[trigger] xs[k] == items@[k]@,
                        out@ == start.push('[') + items_text(xs, i as int),
                    decreases items@.len() - i,
                {
                    if i > 0 {
                        push_char(out, ',');
                    }
                    proof {
                        assert(decreases_to!(*self => (*self)->Array_0));
                        assert(decreases_to!(*items => items@));
                        assert(decreases_to!(items@ => items@[i as int]));
                        assert(decreases_to!(*self => items@[i as int]));
                    }
                    items[i].write_text(out);
                    i = i + 1;
                }
                push_char(out, ']');
                assert(out@ =~= start + json_text(model));
            },
            JsonValue::Object(members) => {
                let ghost model = self@;
                let ghost ms = model->Object_0;
                let ghost start = out@;
                push_char(out, '{');
                let mut i: usize = 0;
                while i < members.len()
                    invariant
                        i <= members@.len(),
                        *self == JsonValue::Object(*members),
                        ms.len() == members@.len(),
                        forall|k: int| 0 <= k < ms.len() ==> #[trigger] ms[k] == (members@[k].0@, members@[k].1@),
                        out@ == start.push('{') + members_text(ms, i as int),
                    decreases members@.len() - i,
                {
                    if i > 0 {
                        push_char(out, ',');
                    }
                    push_quoted(out, members[i].0.as_str());
                    push_char(out, ':');
                    proof {
                        assert(decreases_to!(*self => (*self)->Object_0));
                        assert(decreases_to!(*members => members@));
                        assert(decreases_to!(members@ => members@[i as int]));
                        assert(decreases_to!(members@[i as int] => members@[i as int].1));
                        assert(decreases_to!(*self => members@[i as int].1));
                    }
                    members[i].1.write_text(out);
                    i = i + 1;
                }
                push_char(out, '}');
                assert(out@ =~= start + json_text(model));
            },
        }
    }

    /// The compact JSON text of this value.
    pub fn to_text(&self) -> (r: String)
        ensures
            r@ == json_text(self@),
    {
        let mut out = String::new();
        self.write_text(&mut out);
        assert(out@ =~= json_text(self@));
        out
    }
}

/// `find_key_from` finds the first member at or after `from` with the key.
pub proof fn lemma_find_key_from(members: Seq<(Seq<char>, Json)>, key: Seq<char>, from: int)
    requires
        0 <= from,
    ensures
        match find_key_from(members, key, from) {
            Some(i) => from <= i < members.len() && members[i].0 == key && forall|j: int|
                from <= j < i ==> members[j].0 != key,
            None => forall|j: int| from <= j < members.len() ==> members[j].0 != key,
        },
    decreases members.len() - from,
{
    if from < members.len() && members[from].0 != key {
        lemma_find_key_from(members, key, from + 1);
    }
}

/// Index of the first member whose key equals `key`.
pub fn find_member(members: &Vec<(String, JsonValue)>, key: &str) -> (r: Option<usize>)
    ensures
        match r {
            Some(i) => i < members@.len() && members@[i as int].0@ == key@ && forall|j: int|
                0 <= j < i ==> members@[j].0@ != key@,
            None => forall|j: int| 0 <= j < members@.len() ==> members@[j].0@ != key@,
        },
{
    let mut i: usize = 0;
    while i < members.len()
        invariant
            i <= members@.len(),
            forall|j: int| 0 <= j < i ==> members@[j].0@ != key@,
        decreases members@.len() - i,
    {
        if str_eq(members[i].0.as_str(), key) {
            return Some(i);
        }
        i = i + 1;
    }
    None
}

impl JsonValue {
    /// Whether two values are equal as JSON (objects compared as maps).
    pub fn json_equal(&self, other: &JsonValue) -> (r: bool)
        ensures
            r == json_eq(self@, other@),
        decreases self,
    {
        match (self, other) {
            (JsonValue::Array(xs), JsonValue::Array(ys)) => {
                if xs.len() != ys.len() {
                    return false;
                }
                let ghost mx = self@->Array_0;
                let ghost my = other@->Array_0;
                assert(self@ == Json::Array(mx));
                assert(other@ == Json::Array(my));
                assert(forall|k: int| 0 <= k < xs@.len() ==> #[trigger] mx[k] == xs@[k]@);
                assert(forall|k: int| 0 <= k < ys@.len() ==> #[trigger] my[k] == ys@[k]@);
                let mut i: usize = 0;
                while i < xs.len()
                    invariant
                        i <= xs@.len(),
                        xs@.len() == ys@.len(),
                        mx.len() == xs@.len(),
                        my.len() == ys@.len(),
                        *self == JsonValue::Array(*xs),
                        self@ == Json::Array(mx),
                        other@ == Json::Array(my),
                        forall|k: int| 0 <= k < xs@.len() ==> #[trigger] mx[k] == xs@[k]@,
                        forall|k: int| 0 <= k < ys@.len() ==> #[trigger] my[k] == ys@[k]@,
                        forall|k: int| 0 <= k < i ==> json_eq(#[trigger] mx[k], my[k]),
                    decreases xs@.len() - i,
                {
                    proof {
                        assert(decreases_to!(*self => (*self)->Array_0));
                        assert(decreases_to!(*xs => xs@));
                        assert(decreases_to!(xs@ => xs@[i as int]));
                    }
                    if !xs[i].json_equal(&ys[i]) {
                        assert(!json_eq(mx[i as int], my[i as int]));
                        return false;
                    }
                    i = i + 1;
                }
                true
            },
            (JsonValue::Object(xs), JsonValue::Object(ys)) => {
                if xs.len() != ys.len() {
                    return false;
                }
                let ghost mx = self@->Object_0;
                let ghost my = other@->Object_0;
                assert(self@ == Json::Object(mx));
                assert(other@ == Json::Object(my));
                assert(forall|k: int| 0 <= k < xs@.len() ==> #[trigger] mx[k] == (xs@[k].0@, xs@[k].1@));
                assert(forall|k: int| 0 <= k < ys@.len() ==> #[trigger] my[k] == (ys@[k].0@, ys@[k].1@));
                let mut i: usize = 0;
                while i < xs.len()
                    invariant
                        i <= xs@.len(),
                        xs@.len() == ys@.len(),
                        mx.len() == xs@.len(),
                        my.len() == ys@.len(),
                        *self == JsonValue::Object(*xs),
                        self@ == Json::Object(mx),
                        other@ == Json::Object(my),
                        forall|k: int| 0 <= k < xs@.len() ==> #[trigger] mx[k] == (xs@[k].0@, xs@[k].1@),
                        forall|k: int| 0 <= k < ys@.len() ==> #[trigger] my[k] == (ys@[k].0@, ys@[k].1@),
                        forall|k: int|
                            0 <= k < i ==> match find_key(my, #[trigger] mx[k].0) {
                                Some(j) => json_eq(mx[k].1, my[j].1),
                                None => false,
                            },
                    decreases xs@.len() - i,
                {
                    proof {
                        lemma_find_key_from(my, mx[i as int].0, 0);
                    }
                    match find_member(ys, xs[i].0.as_str()) {
                        None => {
                            proof {
                                match find_key(my, mx[i as int].0) {
                                    Some(q) => {
                                        assert(my[q] == (ys@[q].0@, ys@[q].1@));
                                    },
                                    None => {},
                                }
                            }
                            return false;
                        },
                        Some(j) => {
                            proof {
                                assert(decreases_to!(*self => (*self)->Object_0));
                                assert(decreases_to!(*xs => xs@));
                                assert(decreases_to!(xs@ => xs@[i as int]));
                                assert(decreases_to!(xs@[i as int] => xs@[i as int].1));
                            }
                            proof {
                                let key = mx[i as int].0;
                                assert(my[j as int] == (ys@[j as int].0@, ys@[j as int].1@));
                                match find_key(my, key) {
                                    Some(q) => {
                                        assert(my[q] == (ys@[q].0@, ys@[q].1@));
                                    },
                                    None => {},
                                }
                            }
                            assert(find_key(my, mx[i as int].0) == Some(j as int));
                            if !xs[i].1.json_equal(&ys[j].1) {
                                return false;
                            }
                        },
                    }
                    i = i + 1;
                }
                true
            },
            (JsonValue::Array(_), _) => false,
            (JsonValue::Object(_), _) => false,
            (_, JsonValue::Array(_)) => false,
            (_, JsonValue::Object(_)) => false,
            (JsonValue::Null, JsonValue::Null) => true,
            (JsonValue::Bool(a), JsonValue::Bool(b)) => *a == *b,
            (JsonValue::String(a), JsonValue::String(b)) => str_eq(a.as_str(), b.as_str()),
            (JsonValue::Number(a), JsonValue::Number(b)) => a.number_equal(b),
            _ => false,
        }
    }

    /// A structurally identical copy.
    pub fn deep_clone(&self) -> (r: JsonValue)
        ensures
            r@ == self@,
        decreases self,
    {
        match self {
            JsonValue::Null => JsonValue::Null,
            JsonValue::Bool(b) => JsonValue::Bool(*b),
            JsonValue::Number(n) => JsonValue::Number(n.duplicate()),
            JsonValue::String(s) => JsonValue::String(s.clone()),
            JsonValue::Array(xs) => {
                let mut out: Vec<JsonValue> = Vec::new();
                let mut i: usize = 0;
                while i < xs.len()
                    invariant
                        i <= xs@.len(),
                        out@.len() == i,
                        *self == JsonValue::Array(*xs),
                        forall|k: int| 0 <= k < i ==> #[trigger] out@[k]@ == xs@[k]@,
                    decreases xs@.len() - i,
                {
                    proof {
                        assert(decreases_to!(*self => (*self)->Array_0));
                        assert(decreases_to!(*xs => xs@));
                        assert(decreases_to!(xs@ => xs@[i as int]));
                    }
                    out.push(xs[i].deep_clone());
                    i = i + 1;
                }
                let r = JsonValue::Array(out);
                assert(r@->Array_0 =~= self@->Array_0) by {
                    assert(r@->Array_0.len() == self@->Array_0.len());
                    assert forall|k: int| 0 <= k < r@->Array_0.len() implies r@->Array_0[k] == self@->Array_0[k] by {
                        assert(out@[k]@ == xs@[k]@);
                    }
                }
                r
            },
            JsonValue::Object(xs) => {
                let mut out: Vec<(String, JsonValue)> = Vec::new();
                let mut i: usize = 0;
                while i < xs.len()
                    invariant
                        i <= xs@.len(),
                        out@.len() == i,
                        *self == JsonValue::Object(*xs),
                        forall|k: int|
                            0 <= k < i ==> #[trigger] out@[k].0@ == xs@[k].0@ && out@[k].1@ == xs@[k].1@,
                    decreases xs@.len() - i,
                {
                    proof {
                        assert(decreases_to!(*self => (*self)->Object_0));
                        assert(decreases_to!(*xs => xs@));
                        assert(decreases_to!(xs@ => xs@[i as int]));
                        assert(decreases_to!(xs@[i as int] => xs@[i as int].1));
                    }
                    out.push((xs[i].0.clone(), xs[i].1.deep_clone()));
                    i = i + 1;
                }
                let r = JsonValue::Object(out);
                assert(r@->Object_0 =~= self@->Object_0);
                r
            },
        }
    }
}

/// Whether a float's text is `0.0` or `-0.0`.
fn is_zero_text(t: &str) -> (r: bool)
    ensures
        r == (t@ == "0.0"@ || t@ == "-0.0"@),
{
    str_eq(t, "0.0") || str_eq(t, "-0.0")
}

impl JsonNumber {
    /// Whether two numbers denote the same JSON number.
    pub fn number_equal(&self, other: &JsonNumber) -> (r: bool)
        ensures
            r == scalar_eq(self.model(), other.model()),
    {
        match (self, other) {
            (JsonNumber::PosInt(a), JsonNumber::PosInt(b)) => *a == *b,
            (JsonNumber::NegInt(a), JsonNumber::NegInt(b)) => *a == *b,
            (JsonNumber::PosInt(a), JsonNumber::NegInt(b)) => *b >= 0 && *a == *b as u64,
            (JsonNumber::NegInt(a), JsonNumber::PosInt(b)) => *a >= 0 && *a as u64 == *b,
            (JsonNumber::Float(a), JsonNumber::Float(b)) => {
                proof {
                    reveal_strlit("0.0");
                    reveal_strlit("-0.0");
                }
                str_eq(a.as_str(), b.as_str()) || (is_zero_text(a.as_str()) && is_zero_text(b.as_str()))
            },
            _ => false,
        }
    }

    /// A copy of this number.
    pub fn duplicate(&self) -> (r: JsonNumber)
        ensures
            r.model() == self.model(),
    {
        match self {
            JsonNumber::PosInt(n) => JsonNumber::PosInt(*n),
            JsonNumber::NegInt(n) => JsonNumber::NegInt(*n),
            JsonNumber::Float(t) => JsonNumber::Float(t.clone()),
        }
    }
}

/// The member of an object stored under `key` (what `Value::get` with a string finds).
pub open spec fn json_get(j: Json, key: Seq<char>) -> Option<Json> {
    match j {
        Json::Object(ms) => match find_key(ms, key) {
            Some(i) => Some(ms[i].1),
            None => None,
        },
        _ => None,
    }
}

/// The value as a signed 64-bit integer, if it is an integer in range.
pub open spec fn json_as_i64(j: Json) -> Option<i64> {
    match j {
        Json::Int(n) => if i64::MIN <= n && n <= i64::MAX { Some(n as i64) } else { None },
        _ => None,
    }
}

/// The value as a string, if it is one.
pub open spec fn json_as_str(j: Json) -> Option<Seq<char>> {
    match j {
        Json::Str(s) => Some(s),
        _ => None,
    }
}

impl JsonValue {
    /// The member stored under `key`, when this value is an object holding it.
    pub fn get(&self, key: &str) -> (r: Option<&JsonValue>)
        ensures
            match r {
                Some(v) => json_get(self@, key@) == Some(v@),
                None => json_get(self@, key@) is None,
            },
    {
        match self {
            JsonValue::Object(members) => {
                let ghost ms = self@->Object_0;
                assert(self@ == Json::Object(ms));
                assert(forall|k: int| 0 <= k < members@.len() ==> #[trigger] ms[k] == (members@[k].0@, members@[k].1@));
                proof {
                    lemma_find_key_from(ms, key@, 0);
                    match find_key(ms, key@) {
                        Some(q) => {
                            assert(ms[q] == (members@[q].0@, members@[q].1@));
                        },
                        None => {},
                    }
                }
                match find_member(members, key) {
                    Some(i) => {
                        assert(ms[i as int] == (members@[i as int].0@, members@[i as int].1@));
                        Some(&members[i].1)
                    },
                    None => None,
                }
            },
            _ => None,
        }
    }

    /// The value as a signed 64-bit integer, if it is an integer in range.
    pub fn as_i64(&self) -> (r: Option<i64>)
        ensures
            r == json_as_i64(self@),
    {
        match self {
            JsonValue::Number(JsonNumber::PosInt(n)) => {
                if *n <= 9223372036854775807u64 {
                    Some(*n as i64)
                } else {
                    None
                }
            },
            JsonValue::Number(JsonNumber::NegInt(n)) => Some(*n),
            _ => None,
        }
    }

    /// The value as a string slice, if it is a string.
    pub fn as_str(&self) -> (r: Option<&str>)
        ensures
            match r {
                Some(s) => json_as_str(self@) == Some(s@),
                None => json_as_str(self@) is None,
            },
    {
        match self {
            JsonValue::String(s) => Some(s.as_str()),
            _ => None,
        }
    }
}

/// Pretty JSON text (two-space indentation, `"key": value`), as `serde_json`'s pretty
/// printer writes it; `ind` is the indentation of the line the value starts on.
pub open spec fn pretty_text(j: Json, ind: Seq<char>) -> Seq<char>
    decreases j, 0int,
{
    match j {
        Json::Array(xs) => if xs.len() == 0 {
            "[]"@
        } else {
            seq!['['] + pretty_items(xs, xs.len() as int, ind + "  "@) + seq!['\n'] + ind + seq![']']
        },
        Json::Object(ms) => if ms.len() == 0 {
            "{}"@
        } else {
            seq!['{'] + pretty_members(ms, ms.len() as int, ind + "  "@) + seq!['\n'] + ind + seq!['}']
        },
        _ => json_text(j),
    }
}

/// The first `n` array elements, each on its own line at indentation `ind`.
pub open spec fn pretty_items(xs: Seq<Json>, n: int, ind: Seq<char>) -> Seq<char>
    decreases xs, n,
{
    if n <= 0 || n > xs.len() {
        Seq::empty()
    } else {
        pretty_items(xs, n - 1, ind) + (if n == 1 { seq!['\n'] } else { seq![',', '\n'] }) + ind
            + pretty_text(xs[n - 1], ind)
    }
}

/// The first `n` object members, each on its own line at indentation `ind`.
pub open spec fn pretty_members(ms: Seq<(Seq<char>, Json)>, n: int, ind: Seq<char>) -> Seq<char>
    decreases ms, n,
{
    if n <= 0 || n > ms.len() {
        Seq::empty()
    } else {
        pretty_members(ms, n - 1, ind) + (if n == 1 { seq!['\n'] } else { seq![',', '\n'] }) + ind
            + quoted(ms[n - 1].0) + ": "@ + pretty_text(ms[n - 1].1, ind)
    }
}

impl JsonValue {
    /// Appends the pretty JSON text of this value, starting at indentation `ind`.
    pub fn write_pretty(&self, out: &mut String, ind: &str)
        ensures
            final(out)@ == old(out)@ + pretty_text(self@, ind@),
        decreases self,
    {
        match self {
            JsonValue::Array(items) => {
                if items.len() == 0 {
                    push_str(out, "[]");
                    return;
                }
                let ghost model = self@;
                let ghost xs = model->Array_0;
                assert(model == Json::Array(xs));
                assert(forall|k: int| 0 <= k < items@.len() ==> #[trigger] xs[k] == items@[k]@);
                let ghost start = out@;
                let mut inner = String::from_str(ind);
                push_str(&mut inner, "  ");
                push_char(out, '[');
                let mut i: usize = 0;
                while i < items.len()
                    invariant
                        i <= items@.len(),
                        *self == JsonValue::Array(*items),
                        xs.len() == items@.len(),
                        forall|k: int| 0 <= k < xs.len() ==> #[trigger] xs[k] == items@[k]@,
                        inner@ == ind@ + "  "@,
                        out@ == start.push('[') + pretty_items(xs, i as int, inner@),
                    decreases items@.len() - i,
                {
                    if i == 0 {
                        push_char(out, '\n');
                    } else {
                        push_char(out, ',');
                        push_char(out, '\n');
                    }
                    push_str(out, inner.as_str());
                    proof {
                        assert(decreases_to!(*self => (*self)->Array_0));
                        assert(decreases_to!(*items => items@));
                        assert(decreases_to!(items@ => items@[i as int]));
                    }
                    items[i].write_pretty(out, inner.as_str());
                    i = i + 1;
                }
                push_char(out, '\n');
                push_str(out, ind);
                push_char(out, ']');
                assert(out@ =~= start + pretty_text(model, ind@));
            },
            JsonValue::Object(members) => {
                if members.len() == 0 {
                    push_str(out, "{}");
                    return;
                }
                let ghost model = self@;
                let ghost ms = model->Object_0;
                assert(model == Json::Object(ms));
                assert(forall|k: int| 0 <= k < members@.len() ==> #[trigger] ms[k] == (members@[k].0@, members@[k].1@));
                let ghost start = out@;
                let mut inner = String::from_str(ind);
                push_str(&mut inner, "  ");
                push_char(out, '{');
                let mut i: usize = 0;
                while i < members.len()
                    invariant
                        i <= members@.len(),
                        *self == JsonValue::Object(*members),
                        ms.len() == members@.len(),
                        forall|k: int| 0 <= k < ms.len() ==> #[trigger] ms[k] == (members@[k].0@, members@[k].1@),
                        inner@ == ind@ + "  "@,
                        out@ == start.push('{') + pretty_members(ms, i as int, inner@),
                    decreases members@.len() - i,
                {
                    if i == 0 {
                        push_char(out, '\n');
                    } else {
                        push_char(out, ',');
                        push_char(out, '\n');
                    }
                    push_str(out, inner.as_str());
                    push_quoted(out, members[i].0.as_str());
                    push_str(out, ": ");
                    proof {
                        assert(decreases_to!(*self => (*self)->Object_0));
                        assert(decreases_to!(*members => members@));
                        assert(decreases_to!(members@ => members@[i as int]));
                        assert(decreases_to!(members@[i as int] => members@[i as int].1));
                    }
                    members[i].1.write_pretty(out, inner.as_str());
                    i = i + 1;
                }
                push_char(out, '\n');
                push_str(out, ind);
                push_char(out, '}');
                assert(out@ =~= start + pretty_text(model, ind@));
            },
            _ => self.write_text(out),
        }
    }

    /// The pretty JSON text of this value.
    pub fn to_pretty_text(&self) -> (r: String)
        ensures
            r@ == pretty_text(self@, Seq::empty()),
    {
        let mut out = String::new();
        self.write_pretty(&mut out, "");
        proof {
            reveal_strlit("");
        }
        assert(out@ =~= pretty_text(self@, ""@));
        assert(""@ =~= Seq::<char>::empty());
        out
    }
}

/// A JSON string holding `s`.
pub fn json_str(s: &str) -> (r: JsonValue)
    ensures
        r@ == Json::Str(s@),
        json_wf(r@),
{
    JsonValue::String(String::from_str(s))
}

/// A one-member object.
pub fn object1(k1: &str, v1: JsonValue) -> (r: JsonValue)
    ensures
        r@ == Json::Object(seq![(k1@, v1@)]),
        json_wf(v1@) ==> json_wf(r@),
{
    let ghost m1 = v1@;
    let mut ms: Vec<(String, JsonValue)> = Vec::new();
    ms.push((String::from_str(k1), v1));
    let r = JsonValue::Object(ms);
    assert(r@->Object_0 =~= seq![(k1@, m1)]);
    assert(r@->Object_0[0] == (k1@, m1));
    r
}

/// A two-member object.
pub fn object2(k1: &str, v1: JsonValue, k2: &str, v2: JsonValue) -> (r: JsonValue)
    ensures
        r@ == Json::Object(seq![(k1@, v1@), (k2@, v2@)]),
        k1@ != k2@ && json_wf(v1@) && json_wf(v2@) ==> json_wf(r@),
{
    let ghost m1 = v1@;
    let ghost m2 = v2@;
    let mut ms: Vec<(String, JsonValue)> = Vec::new();
    ms.push((String::from_str(k1), v1));
    ms.push((String::from_str(k2), v2));
    let r = JsonValue::Object(ms);
    assert(r@->Object_0 =~= seq![(k1@, m1), (k2@, m2)]);
    assert(r@->Object_0[0] == (k1@, m1) && r@->Object_0[1] == (k2@, m2));
    r
}

/// A three-member object.
pub fn object3(k1: &str, v1: JsonValue, k2: &str, v2: JsonValue, k3: &str, v3: JsonValue) -> (r: JsonValue)
    ensures
        r@ == Json::Object(seq![(k1@, v1@), (k2@, v2@), (k3@, v3@)]),
        k1@ != k2@ && k1@ != k3@ && k2@ != k3@ && json_wf(v1@) && json_wf(v2@) && json_wf(v3@) ==> json_wf(r@),
{
    let ghost m1 = v1@;
    let ghost m2 = v2@;
    let ghost m3 = v3@;
    let mut ms: Vec<(String, JsonValue)> = Vec::new();
    ms.push((String::from_str(k1), v1));
    ms.push((String::from_str(k2), v2));
    ms.push((String::from_str(k3), v3));
    let r = JsonValue::Object(ms);
    assert(r@->Object_0 =~= seq![(k1@, m1), (k2@, m2), (k3@, m3)]);
    assert(r@->Object_0[0] == (k1@, m1) && r@->Object_0[1] == (k2@, m2) && r@->Object_0[2] == (k3@, m3));
    r
}

/// A four-member object.
pub fn object4(k1: &str, v1: JsonValue, k2: &str, v2: JsonValue, k3: &str, v3: JsonValue, k4: &str, v4: JsonValue) -> (r: JsonValue)
    ensures
        r@ == Json::Object(seq![(k1@, v1@), (k2@, v2@), (k3@, v3@), (k4@, v4@)]),
        k1@ != k2@ && k1@ != k3@ && k1@ != k4@ && k2@ != k3@ && k2@ != k4@ && k3@ != k4@ && json_wf(v1@)
            && json_wf(v2@) && json_wf(v3@) && json_wf(v4@) ==> json_wf(r@),
{
    let ghost m1 = v1@;
    let ghost m2 = v2@;
    let ghost m3 = v3@;
    let ghost m4 = v4@;
    let mut ms: Vec<(String, JsonValue)> = Vec::new();
    ms.push((String::from_str(k1), v1));
    ms.push((String::from_str(k2), v2));
    ms.push((String::from_str(k3), v3));
    ms.push((String::from_str(k4), v4));
    let r = JsonValue::Object(ms);
    assert(r@->Object_0 =~= seq![(k1@, m1), (k2@, m2), (k3@, m3), (k4@, m4)]);
    assert(r@->Object_0[0] == (k1@, m1) && r@->Object_0[1] == (k2@, m2) && r@->Object_0[2] == (k3@, m3)
        && r@->Object_0[3] == (k4@, m4));
    r
}

/// An empty object.
pub fn empty_object() -> (r: JsonValue)
    ensures
        r@ == Json::Object(Seq::empty()),
        json_wf(r@),
{
    let r = JsonValue::Object(Vec::new());
    assert(r@->Object_0 =~= Seq::<(Seq<char>, Json)>::empty());
    r
}

/// An array of the given items.
pub fn array_of(items: Vec<JsonValue>) -> (r: JsonValue)
    ensures
        r@ == Json::Array(Seq::new(items@.len(), |i: int| items@[i]@)),
        (forall|i: int| 0 <= i < items@.len() ==> json_wf(#[trigger] items@[i]@)) ==> json_wf(r@),
{
    let ghost s = items@;
    let r = JsonValue::Array(items);
    assert(r@->Array_0 =~= Seq::new(s.len(), |i: int| s[i]@));
    r
}

/// The model of a member list.
pub open spec fn members_of(members: Seq<(String, JsonValue)>) -> Seq<(Seq<char>, Json)> {
    Seq::new(members.len(), |i: int| (members[i].0@, members[i].1@))
}

/// The model of an object is the model of its member list.
pub proof fn lemma_object_model(members: Vec<(String, JsonValue)>)
    ensures
        JsonValue::Object(members)@ == Json::Object(members_of(members@)),
{
    assert(JsonValue::Object(members)@->Object_0 =~= members_of(members@));
}

/// `serde_json`'s document type, carried opaquely.
#[verifier::external_type_specification]
#[verifier::external_body]
pub struct ExWireValue(serde_json::Value);

/// The document `serde_json::from_str` parses from `text` (`None` when the text is not
/// JSON), as a library value.
pub uninterp spec fn json_parse(text: Seq<char>) -> Option<Json>;

/// The document `serde_json::from_slice` parses from `bytes`, as a library value, or the
/// text of the error it reports.
pub uninterp spec fn json_parse_bytes(bytes: Seq<u8>) -> Result<Json, Seq<char>>;

/// Converts a parsed `serde_json` document into a library value, one node for one node
/// (a number that fits neither `u64` nor `i64` keeps `serde_json`'s text).
#[verifier::external_body]
fn json_value_of(v: &Value) -> (r: JsonValue) {
    match v {
        Value::Null => JsonValue::Null,
        Value::Bool(b) => JsonValue::Bool(*b),
        Value::Number(n) => JsonValue::Number(match (n.as_u64(), n.as_i64()) {
            (Some(u), _) => JsonNumber::PosInt(u),
            (None, Some(i)) => JsonNumber::NegInt(i),
            _ => JsonNumber::Float(n.to_string()),
        }),
        Value::String(s) => JsonValue::String(s.clone()),
        Value::Array(xs) => JsonValue::Array(xs.iter().map(json_value_of).collect()),
        Value::Object(m) => JsonValue::Object(m.iter().map(|(k, x)| (k.clone(), json_value_of(x))).collect()),
    }
}

/// Parses JSON text with `serde_json::from_str`. The claim is only that the result is a
/// function of the text.
#[verifier::external_body]
pub(crate) fn parse_json_text(text: &str) -> (r: Option<JsonValue>)
    ensures
        match r {
            Some(v) => json_parse(text@) == Some(v@),
            None => json_parse(text@) is None,
        },
{
    match serde_json::from_str::<serde_json::Value>(text) {
        Ok(v) => Some(json_value_of(&v)),
        Err(_) => None,
    }
}

/// Parses JSON bytes with `serde_json::from_slice`, rendering its error as text. The
/// claim is only that the result is a function of the bytes.
#[verifier::external_body]
pub(crate) fn parse_json_bytes(bytes: &[u8]) -> (r: Result<JsonValue, String>)
    ensures
        match r {
            Ok(v) => json_parse_bytes(bytes@) == Ok::<Json, Seq<char>>(v@),
            Err(e) => json_parse_bytes(bytes@) == Err::<Json, Seq<char>>(e@),
        },
{
    match serde_json::from_slice::<serde_json::Value>(bytes) {
        Ok(v) => Ok(json_value_of(&v)),
        Err(e) => Err(e.to_string()),
    }
}

impl Clone for JsonValue {
    fn clone(&self) -> (r: JsonValue)
        ensures
            r@ == self@,
    {
        self.deep_clone()
    }
}

} // verus!
