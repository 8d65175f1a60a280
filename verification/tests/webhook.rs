use hmac::{Hmac, Mac};
use sha2::Sha256;

use matrix_webhook::formatters::FormatterRegistry;
use matrix_webhook::headers::Headers;
use matrix_webhook::json::Json;
use matrix_webhook::webhook::{
    after_delivery, after_formatter, err, handle_webhook, Delivery, Reply, WebhookError, WebhookRequest,
    WebhookStep,
};

const KEY: &str = "secret";

fn s(x: &str) -> Json {
    Json::Str(x.to_string())
}

fn obj(entries: Vec<(&str, Json)>) -> Json {
    Json::Object(entries.into_iter().map(|(k, v)| (k.to_string(), v)).collect())
}

fn request(body: &str) -> WebhookRequest {
    WebhookRequest {
        path_room_id: None,
        query_room_id: None,
        query_key: None,
        query_formatter: None,
        headers: Headers::new(),
        raw_body: body.as_bytes().to_vec(),
    }
}

fn registry() -> FormatterRegistry {
    FormatterRegistry::new(Vec::new())
}

fn reply(step: WebhookStep) -> Reply {
    match step {
        WebhookStep::Reply(r) => r,
        _ => panic!("expected a reply"),
    }
}

fn delivery(step: WebhookStep) -> Delivery {
    match step {
        WebhookStep::Send(d) => d,
        _ => panic!("expected a delivery"),
    }
}

fn error_text(r: &Reply) -> &str {
    r.body.get_str("error").unwrap()
}

#[test]
fn invalid_json_is_bad_request() {
    let r = reply(handle_webhook(request("not json"), KEY, &registry()));
    assert_eq!(r.status, 400);
    assert_eq!(error_text(&r), "Invalid JSON body");
}

#[test]
fn missing_credentials_are_unauthorized() {
    let data = obj(vec![("body", s("hi")), ("room_id", s("!r:x"))]);
    let r = reply(handle_webhook(request(&data.to_json_string()), KEY, &registry()));
    assert_eq!(r.status, 401);
    assert_eq!(error_text(&r), "Unauthorized");
}

#[test]
fn wrong_key_is_unauthorized() {
    let data = obj(vec![("key", s("nope")), ("body", s("hi")), ("room_id", s("!r:x"))]);
    let r = reply(handle_webhook(request(&data.to_json_string()), KEY, &registry()));
    assert_eq!(r.status, 401);
}

#[test]
fn body_key_takes_precedence_over_query_key() {
    let data = obj(vec![("key", s("nope")), ("body", s("hi"))]);
    let mut req = request(&data.to_json_string());
    req.query_key = Some(KEY.to_string());
    req.path_room_id = Some("!r:x".to_string());
    let r = reply(handle_webhook(req, KEY, &registry()));
    assert_eq!(r.status, 401);
}

#[test]
fn key_in_body_delivers_markdown() {
    let data = obj(vec![("key", s(KEY)), ("body", s("**hi**")), ("room_id", s("!r:x"))]);
    let d = delivery(handle_webhook(request(&data.to_json_string()), KEY, &registry()));
    assert_eq!(d.room_id, "!r:x");
    assert_eq!(d.body, "**hi**");
    assert_eq!(d.html_body, "<p><strong>hi</strong></p>\n");
    assert_eq!(d.msgtype, "m.text");
}

#[test]
fn digest_covers_the_raw_body() {
    // The digest is checked against the raw bytes, which here hold the digest
    // itself, so the digest of the body without it does not match.
    let unsigned = "{\"body\":\"hi\"}";
    let mut mac = <Hmac<Sha256> as Mac>::new_from_slice(KEY.as_bytes()).unwrap();
    mac.update(unsigned.as_bytes());
    let digest = hex::encode(mac.finalize().into_bytes());
    let mut req = request(&format!("{{\"body\":\"hi\",\"digest\":\"{}\"}}", digest));
    req.query_room_id = Some("!q:x".to_string());
    let r = reply(handle_webhook(req, KEY, &registry()));
    assert_eq!(r.status, 401);
}

#[test]
fn body_is_parsed_from_raw_bytes() {
    let mut req = request(" {\"key\": \"secret\", \"body\": \"a\\u0041\", \"n\": 1.50, \"room_id\": \"!r:x\"} ");
    req.query_formatter = Some("identity".to_string());
    let d = delivery(handle_webhook(req, KEY, &registry()));
    assert_eq!(d.room_id, "!r:x");
    assert_eq!(d.body, "aA");
}

#[test]
fn bad_digest_is_unauthorized() {
    let data = obj(vec![("body", s("hi")), ("digest", s("deadbeef"))]);
    let mut req = request(&data.to_json_string());
    req.query_room_id = Some("!q:x".to_string());
    let r = reply(handle_webhook(req, KEY, &registry()));
    assert_eq!(r.status, 401);
}

#[test]
fn room_from_path_wins() {
    let data = obj(vec![("key", s(KEY)), ("body", s("hi")), ("room_id", s("!body:x"))]);
    let mut req = request(&data.to_json_string());
    req.path_room_id = Some("!path:x".to_string());
    req.query_room_id = Some("!query:x".to_string());
    let d = delivery(handle_webhook(req, KEY, &registry()));
    assert_eq!(d.room_id, "!path:x");
}

#[test]
fn missing_room_is_bad_request() {
    let data = obj(vec![("key", s(KEY)), ("body", s("hi"))]);
    let r = reply(handle_webhook(request(&data.to_json_string()), KEY, &registry()));
    assert_eq!(r.status, 400);
    assert_eq!(error_text(&r), "Missing room_id");
}

#[test]
fn text_is_an_alias_for_body() {
    let data = obj(vec![("key", s(KEY)), ("text", s("legacy")), ("room_id", s("!r:x"))]);
    let d = delivery(handle_webhook(request(&data.to_json_string()), KEY, &registry()));
    assert_eq!(d.body, "legacy");
}

#[test]
fn body_wins_over_text() {
    let data = obj(vec![("key", s(KEY)), ("text", s("legacy")), ("body", s("new")), ("room_id", s("!r:x"))]);
    let d = delivery(handle_webhook(request(&data.to_json_string()), KEY, &registry()));
    assert_eq!(d.body, "new");
}

#[test]
fn missing_body_is_bad_request() {
    let data = obj(vec![("key", s(KEY)), ("room_id", s("!r:x"))]);
    let r = reply(handle_webhook(request(&data.to_json_string()), KEY, &registry()));
    assert_eq!(r.status, 400);
    assert_eq!(error_text(&r), "Missing 'body' field in message");
}

#[test]
fn msgtype_is_passed_on() {
    let data = obj(vec![("key", s(KEY)), ("body", s("x")), ("msgtype", s("m.notice")), ("room_id", s("!r:x"))]);
    let d = delivery(handle_webhook(request(&data.to_json_string()), KEY, &registry()));
    assert_eq!(d.msgtype, "m.notice");
}

#[test]
fn builtin_formatter_from_query() {
    let data = obj(vec![("key", s(KEY)), ("room_id", s("!r:x")), ("version", s("v1"))]);
    let mut req = request(&data.to_json_string());
    req.query_formatter = Some("grn".to_string());
    let d = delivery(handle_webhook(req, KEY, &registry()));
    assert!(d.body.starts_with("###  - v1"));
}

#[test]
fn identity_formatter_keeps_body() {
    let data = obj(vec![("key", s(KEY)), ("room_id", s("!r:x")), ("formatter", s("identity")), ("body", s("b"))]);
    let d = delivery(handle_webhook(request(&data.to_json_string()), KEY, &registry()));
    assert_eq!(d.body, "b");
}

#[test]
fn lua_formatter_is_handed_back() {
    let reg = FormatterRegistry::new(vec![("mine".to_string(), "script".to_string())]);
    let data = obj(vec![("key", s(KEY)), ("digest", s("d")), ("room_id", s("!r:x")), ("n", s("1"))]);
    let mut req = request(&data.to_json_string());
    req.query_formatter = Some("mine".to_string());
    match handle_webhook(req, KEY, &reg) {
        WebhookStep::RunScript { room_id, script, data, .. } => {
            assert_eq!(room_id, "!r:x");
            assert_eq!(script, "script");
            assert_eq!(data, obj(vec![("n", s("1")), ("room_id", s("!r:x"))]));
        }
        _ => panic!("expected the Lua formatter to run"),
    }
}

#[test]
fn writing_formatter_on_array_aborts() {
    let mut req = request("[]");
    req.query_key = Some(KEY.to_string());
    req.path_room_id = Some("!r:x".to_string());
    req.query_formatter = Some("github".to_string());
    assert!(matches!(handle_webhook(req, KEY, &registry()), WebhookStep::Abort));
}

#[test]
fn after_lua_failure_is_server_error() {
    let r = reply(after_formatter("!r:x".to_string(), None));
    assert_eq!(r.status, 500);
    assert_eq!(error_text(&r), "Formatter error");
    let d = delivery(after_formatter("!r:x".to_string(), Some(obj(vec![("body", s("ok"))]))));
    assert_eq!(d.body, "ok");
}

#[test]
fn delivery_replies() {
    let ok = after_delivery(true);
    assert_eq!(ok.status, 200);
    assert_eq!(ok.body, obj(vec![("status", s("ok"))]));
    let failed = after_delivery(false);
    assert_eq!(failed.status, 500);
    assert_eq!(error_text(&failed), "Failed to send message to Matrix");
    let e = err(WebhookError::Unauthorized);
    assert_eq!(e.status, 401);
}
