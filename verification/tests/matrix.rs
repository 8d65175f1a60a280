use matrix_webhook::config::Settings;
use matrix_webhook::json::Json;
use matrix_webhook::matrix::{
    access_token, base_url, credentials, login_payload, message_payload, message_url, password_login_url,
    room_join_url, send_message_request, Credentials, JoinedRooms,
};

fn s(x: &str) -> Json {
    Json::Str(x.to_string())
}

fn obj(entries: Vec<(&str, Json)>) -> Json {
    Json::Object(entries.into_iter().map(|(k, v)| (k.to_string(), v)).collect())
}

#[test]
fn base_url_drops_trailing_slashes() {
    assert_eq!(base_url("https://m.org//"), "https://m.org");
    assert_eq!(base_url("https://m.org"), "https://m.org");
}

#[test]
fn urls_percent_encode_the_room() {
    assert_eq!(
        message_url("https://m.org", "!abc:m.org", "t1"),
        "https://m.org/_matrix/client/v3/rooms/%21abc%3Am.org/send/m.room.message/t1"
    );
    assert_eq!(room_join_url("https://m.org", "#é x"), "https://m.org/_matrix/client/v3/join/%23%C3%A9%20x");
    assert_eq!(password_login_url("https://m.org/"), "https://m.org/_matrix/client/v3/login");
}

#[test]
fn send_request_has_a_fresh_uuid() {
    let r = send_message_request("https://m.org", "!a:b", "body", "<p>body</p>", "m.text");
    let prefix = "https://m.org/_matrix/client/v3/rooms/%21a%3Ab/send/m.room.message/";
    assert!(r.url.starts_with(prefix));
    let txn = &r.url[prefix.len()..];
    assert_eq!(txn.len(), 36);
    assert_eq!(&txn[14..15], "4");
    assert_eq!(
        r.payload,
        obj(vec![
            ("msgtype", s("m.text")),
            ("body", s("body")),
            ("format", s("org.matrix.custom.html")),
            ("formatted_body", s("<p>body</p>")),
        ])
    );
    let other = send_message_request("https://m.org", "!a:b", "body", "<p>body</p>", "m.text");
    assert_ne!(r.url, other.url);
}

#[test]
fn payloads() {
    assert_eq!(
        message_payload("m.notice", "b", "h"),
        obj(vec![
            ("msgtype", s("m.notice")),
            ("body", s("b")),
            ("format", s("org.matrix.custom.html")),
            ("formatted_body", s("h")),
        ])
    );
    assert_eq!(
        login_payload("@bot:x", "pw"),
        obj(vec![
            ("type", s("m.login.password")),
            ("identifier", obj(vec![("type", s("m.id.user")), ("user", s("@bot:x"))])),
            ("password", s("pw")),
        ])
    );
}

#[test]
fn access_token_from_login_response() {
    assert_eq!(access_token(&obj(vec![("access_token", s("syt_1"))])), Some("syt_1".to_string()));
    assert_eq!(access_token(&obj(vec![("access_token", Json::Null)])), None);
}

fn settings(token: Option<&str>, pw: Option<&str>) -> Settings {
    Settings {
        host: String::new(),
        port: 4785,
        server_path: None,
        matrix_url: "https://matrix.org".to_string(),
        matrix_id: "@bot:test.org".to_string(),
        matrix_pw: pw.map(String::from),
        matrix_token: token.map(String::from),
        api_key: "k".to_string(),
        formatters_dir: None,
        verbosity: 2,
    }
}

#[test]
fn token_preferred_over_password() {
    assert!(matches!(credentials(&settings(Some("t"), Some("p"))), Credentials::Token(t) if t == "t"));
    assert!(matches!(credentials(&settings(None, Some("p"))), Credentials::Password(p) if p == "p"));
    assert!(matches!(credentials(&settings(None, None)), Credentials::Missing));
}

#[test]
fn joined_rooms_are_remembered() {
    let mut rooms = JoinedRooms::new();
    assert!(!rooms.contains("!a:x"));
    rooms.insert("!a:x".to_string());
    rooms.insert("!a:x".to_string());
    assert!(rooms.contains("!a:x"));
    assert!(!rooms.contains("!b:x"));
}

#[test]
fn a_room_is_joined_once_and_a_failed_join_is_retried() {
    let mut rooms = JoinedRooms::new();
    assert!(rooms.join_needed("!a:x"));
    rooms.record_join("!a:x".to_string(), false);
    assert!(rooms.join_needed("!a:x"));
    rooms.record_join("!a:x".to_string(), true);
    assert!(!rooms.join_needed("!a:x"));
    rooms.record_join("!b:x".to_string(), false);
    assert!(!rooms.join_needed("!a:x"));
    assert!(rooms.join_needed("!b:x"));
}
