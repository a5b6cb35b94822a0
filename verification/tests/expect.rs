use mcp_probe::expect::{strict_equal, subset_match, subset_match_with_options};
use mcp_probe::json::{JsonNumber, JsonValue};

fn model(v: &serde_json::Value) -> JsonValue {
    match v {
        serde_json::Value::Null => JsonValue::Null,
        serde_json::Value::Bool(b) => JsonValue::Bool(*b),
        serde_json::Value::Number(n) => {
            if let Some(u) = n.as_u64() {
                JsonValue::Number(JsonNumber::PosInt(u))
            } else if let Some(i) = n.as_i64() {
                JsonValue::Number(JsonNumber::NegInt(i))
            } else {
                JsonValue::Number(JsonNumber::Float(n.to_string()))
            }
        }
        serde_json::Value::String(s) => JsonValue::String(s.clone()),
        serde_json::Value::Array(items) => JsonValue::Array(items.iter().map(model).collect()),
        serde_json::Value::Object(map) => {
            JsonValue::Object(map.iter().map(|(k, v)| (k.clone(), model(v))).collect())
        }
    }
}

fn json(text: &str) -> JsonValue {
    model(&serde_json::from_str::<serde_json::Value>(text).expect("test JSON"))
}

#[test]
fn object_subset_ok() {
    let exp = json(r#"{"a": 1, "b": {"c": 2}}"#);
    let act = json(r#"{"a": 1, "b": {"c": 2, "d": 3}, "x": 9}"#);
    subset_match(&exp, &act).unwrap();
}

#[test]
fn object_subset_missing_key() {
    let exp = json(r#"{"a": 1}"#);
    let act = json(r#"{"b": 1}"#);
    assert!(subset_match(&exp, &act).is_err());
}

#[test]
fn array_order_independent() {
    let exp = json(r#"[{"name": "b"}, {"name": "a"}]"#);
    let act = json(r#"[{"name": "a", "id": 1}, {"name": "b", "id": 2}]"#);
    subset_match(&exp, &act).unwrap();
}

#[test]
fn ordered_arrays_require_alignment() {
    let exp = json(r#"[{"k": 1}, {"k": 2}]"#);
    let act = json(r#"[{"k": 2}, {"k": 1}]"#);
    assert!(subset_match_with_options(&exp, &act, true).is_err());
    subset_match_with_options(&exp, &act, false).unwrap();
}

#[test]
fn strict_equal_checks_exact() {
    let exp = json(r#"{"a": 1}"#);
    let act = json(r#"{"a": 1, "b": 2}"#);
    assert!(strict_equal(&exp, &act).is_err());
}

#[test]
fn failure_paths_and_details_are_exact() {
    let exp = json(r#"{"a": {"b": [1, 2]}}"#);
    let act = json(r#"{"a": {"b": [1, 3]}}"#);
    let f = subset_match(&exp, &act).unwrap_err();
    assert_eq!(f.path(), "$.a.b[1]");
    assert_eq!(f.detail(), "no matching element found in actual array");
    assert_eq!(f.message(), "$.a.b[1] \u{2014} no matching element found in actual array");

    let f = subset_match(&json(r#"{"k": "v"}"#), &json(r#"{"x": 1}"#)).unwrap_err();
    assert_eq!(f.path(), "$.k");
    assert_eq!(f.detail(), "missing key `k` in actual object");

    let f = subset_match_with_options(&json("[1]"), &json("[1, 2]"), true).unwrap_err();
    assert_eq!(f.path(), "$");
    assert_eq!(f.detail(), "ordered array length mismatch: expected 1 elements, got 2");

    let f = subset_match(&json(r#""a\"b""#), &json("-3")).unwrap_err();
    assert_eq!(f.detail(), r#"expected "a\"b", got -3"#);

    let f = strict_equal(&json(r#"{"a":[true,null]}"#), &json(r#"{"a":[true,1.5]}"#)).unwrap_err();
    assert_eq!(f.path(), "$");
    assert_eq!(f.detail(), r#"expected {"a":[true,null]}, got {"a":[true,1.5]}"#);
}

#[test]
fn array_matching_finds_an_assignment_in_any_order() {
    // `{}` could take either element; an assignment exists, whatever the order.
    subset_match(&json(r#"[{}, {"k": 1}]"#), &json(r#"[{"k": 1}, {"j": 2}]"#)).unwrap();
    let exp = json(r#"[{"a": 1}, {"a": 1, "b": 2}]"#);
    subset_match(&exp, &json(r#"[{"a": 1, "b": 2}, {"a": 1}]"#)).unwrap();
    subset_match(&exp, &json(r#"[{"a": 1}, {"a": 1, "b": 2}]"#)).unwrap();
    // Each actual element is used at most once.
    let f = subset_match(&json("[1, 1]"), &json("[1]")).unwrap_err();
    assert_eq!(f.path(), "$[1]");
    assert_eq!(f.detail(), "no matching element found in actual array");
    // Both expected elements match something, but only the first actual element
    // matches either of them: the second expected element is the one reported.
    let f = subset_match(&json(r#"[{"a": 1}, {"a": 1}]"#), &json(r#"[{"a": 1, "b": 2}, {"c": 3}]"#)).unwrap_err();
    assert_eq!(f.path(), "$[1]");
    assert_eq!(f.detail(), "no matching element found in actual array");
    subset_match(&json("[1, 1]"), &json("[1, 2, 1]")).unwrap();
    // An element with no match at all is named.
    let f = subset_match(&json("[1, 3]"), &json("[1, 2]")).unwrap_err();
    assert_eq!(f.path(), "$[1]");
    assert_eq!(f.detail(), "no matching element found in actual array");
}

#[test]
fn strict_equality_ignores_member_order_and_number_kind() {
    let a = JsonValue::Object(vec![
        ("x".to_string(), JsonValue::Number(JsonNumber::PosInt(1))),
        ("y".to_string(), JsonValue::Null),
    ]);
    let b = JsonValue::Object(vec![
        ("y".to_string(), JsonValue::Null),
        ("x".to_string(), JsonValue::Number(JsonNumber::NegInt(1))),
    ]);
    strict_equal(&a, &b).unwrap();
    assert!(strict_equal(&json("1"), &json("1.0")).is_err());
}

#[test]
fn documents_match_themselves() {
    let doc = json(r#"{"tools": [{"name": "a", "tags": [1, 1, {"x": []}]}, {"name": "a"}], "n": null}"#);
    strict_equal(&doc, &doc).unwrap();
    subset_match_with_options(&doc, &doc, false).unwrap();
    subset_match_with_options(&doc, &doc, true).unwrap();
}

#[test]
fn strict_match_implies_subset_match() {
    let exp = json(r#"[{"b": 2, "a": 1}, [3]]"#);
    let act = json(r#"[{"a": 1, "b": 2}, [3]]"#);
    strict_equal(&exp, &act).unwrap();
    subset_match(&exp, &act).unwrap();
    subset_match_with_options(&exp, &act, true).unwrap();
}

#[test]
fn ordered_match_implies_unordered_match() {
    let exp = json(r#"[{"k": 1}, {}, [2]]"#);
    let act = json(r#"[{"k": 1, "z": 0}, {"k": 2}, [2, 3]]"#);
    subset_match_with_options(&exp, &act, true).unwrap_err();
    let exp = json(r#"[{"k": 1}, {}, [2]]"#);
    let act = json(r#"[{"k": 1, "z": 0}, {"k": 2}, [2]]"#);
    subset_match_with_options(&exp, &act, true).unwrap();
    subset_match_with_options(&exp, &act, false).unwrap();
}

#[test]
fn negative_zero_equals_zero() {
    strict_equal(&json("-0.0"), &json("0.0")).unwrap();
    strict_equal(&json("[-0.0]"), &json("[-0.0]")).unwrap();
    subset_match(&json(r#"{"x": 0.0}"#), &json(r#"{"x": -0.0}"#)).unwrap();
    assert!(strict_equal(&json("0.5"), &json("-0.5")).is_err());
}

#[test]
fn reordering_the_actual_array_keeps_the_verdict() {
    let exp = json(r#"[{"k": 1}, {}, 2]"#);
    for act in [r#"[2, {"k": 1}, {"j": 0}]"#, r#"[{"j": 0}, 2, {"k": 1}]"#, r#"[{"k": 1}, {"j": 0}, 2]"#] {
        subset_match(&exp, &json(act)).unwrap();
    }
    for act in [r#"[2, {"k": 1}]"#, r#"[{"k": 1}, 2]"#] {
        assert!(subset_match(&exp, &json(act)).is_err());
    }
}
