use matrix_webhook::json::{write_quoted, Json};
use matrix_webhook::parse::parse_json;

fn s(x: &str) -> Json {
    Json::Str(x.to_string())
}

fn obj(entries: Vec<(&str, Json)>) -> Json {
    Json::Object(entries.into_iter().map(|(k, v)| (k.to_string(), v)).collect())
}

#[test]
fn set_on_null_makes_an_object() {
    assert_eq!(Json::Null.set("body", s("x")), obj(vec![("body", s("x"))]));
}

#[test]
fn set_replaces_and_appends() {
    let v = obj(vec![("a", s("1")), ("b", s("2"))]);
    let v = v.set("a", s("3")).set("c", s("4"));
    assert_eq!(v, obj(vec![("a", s("3")), ("b", s("2")), ("c", s("4"))]));
    assert_eq!(v.get_str("a"), Some("3"));
    assert_eq!(v.get("missing"), None);
}

#[test]
fn remove_takes_the_value_out() {
    let v = obj(vec![("key", s("k")), ("body", s("b"))]);
    let (rest, taken) = v.remove("key");
    assert_eq!(rest, obj(vec![("body", s("b"))]));
    assert_eq!(taken, Some(s("k")));
    let (same, none) = s("text").remove("key");
    assert_eq!(same, s("text"));
    assert_eq!(none, None);
}

#[test]
fn compact_json_text() {
    let v = obj(vec![
        ("a", Json::Array(vec![Json::Number("1".to_string()), Json::Bool(false), Json::Null])),
        ("b", s("tab\tquote\"back\\slash\u{1}")),
    ]);
    assert_eq!(v.to_json_string(), "{\"a\":[1,false,null],\"b\":\"tab\\tquote\\\"back\\\\slash\\u0001\"}");
}

#[test]
fn string_literal_escapes() {
    let mut out = String::from("x=");
    write_quoted(&mut out, "line\nfeed\u{1f}/é\u{7f}\r\u{8}\u{c}");
    assert_eq!(out, "x=\"line\\nfeed\\u001f/é\u{7f}\\r\\b\\f\"");
    let mut keyed = String::new();
    obj(vec![("k\"ey", Json::Number("-1.5".to_string()))]).write_json(&mut keyed);
    assert_eq!(keyed, "{\"k\\\"ey\":-1.5}");
}

#[test]
fn parse_reads_nested_values() {
    let v = parse_json(b" {\"b\": [1.50, 1e2, true, null], \"a\": {\"s\": \"x\\u0041\\n\"}, \"b\": -7} ").unwrap();
    assert_eq!(
        v,
        obj(vec![
            ("a", obj(vec![("s", s("xA\n"))])),
            ("b", Json::Number("-7".to_string())),
        ])
    );
    let w = parse_json(b"[1.50, 1e2, [\"\"], {}]").unwrap();
    assert_eq!(
        w,
        Json::Array(vec![
            Json::Number("1.5".to_string()),
            Json::Number("100.0".to_string()),
            Json::Array(vec![s("")]),
            obj(vec![]),
        ])
    );
    assert_eq!(parse_json(b"\"t\"").unwrap(), s("t"));
    assert_eq!(parse_json(b"null").unwrap(), Json::Null);
}

#[test]
fn parse_refuses_what_is_not_json() {
    assert_eq!(parse_json(b"not json"), None);
    assert_eq!(parse_json(b"{\"a\": 1"), None);
    assert_eq!(parse_json(b"[1] 2"), None);
    assert_eq!(parse_json(b""), None);
}
