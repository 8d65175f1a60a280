use matrix_webhook::formatters::builtin::{
    discord, github, gitlab_gchat, gitlab_teams, gitlab_webhook, grafana, grn, identity, replace_body,
};
use matrix_webhook::headers::Headers;
use matrix_webhook::json::Json;

fn s(x: &str) -> Json {
    Json::Str(x.to_string())
}

fn n(x: &str) -> Json {
    Json::Number(x.to_string())
}

fn obj(entries: Vec<(&str, Json)>) -> Json {
    Json::Object(entries.into_iter().map(|(k, v)| (k.to_string(), v)).collect())
}

fn arr(items: Vec<Json>) -> Json {
    Json::Array(items)
}

fn no_headers() -> Headers {
    Headers::new()
}

fn body(r: &Json) -> &str {
    r.get_str("body").unwrap()
}

// ── identity ──────────────────────────────────────────────────────────────

#[test]
fn identity_passes_through() {
    let data = || obj(vec![("body", s("hello")), ("extra", n("42"))]);
    let result = identity(data(), &no_headers());
    assert_eq!(result, data());
}

// ── github ────────────────────────────────────────────────────────────────

fn push_payload() -> Json {
    obj(vec![
        ("pusher", obj(vec![("name", s("alice"))])),
        ("ref", s("refs/heads/main")),
        ("before", s("aaa")),
        ("after", s("bbb")),
        ("compare", s("https://github.com/org/repo/compare/aaa...bbb")),
        (
            "commits",
            arr(vec![obj(vec![
                ("message", s("fix bug")),
                ("url", s("https://github.com/org/repo/commit/bbb")),
            ])]),
        ),
    ])
}

#[test]
fn github_push_formats_body() {
    let data = push_payload();
    let mut headers = Headers::new();
    headers.insert("x-github-event".to_string(), "push".to_string());

    let result = github(data, &headers);
    let body = body(&result);
    assert!(body.contains("[@alice](https://github.com/alice)"));
    assert!(body.contains("refs/heads/main"));
    assert!(body.contains("aaa"));
    assert!(body.contains("bbb"));
    assert!(body.contains("[fix bug](https://github.com/org/repo/commit/bbb)"));
}

#[test]
fn github_push_exact_body() {
    let mut headers = Headers::new();
    headers.insert("x-github-event".to_string(), "push".to_string());
    let result = github(push_payload(), &headers);
    assert_eq!(
        body(&result),
        "[@alice](https://github.com/alice) pushed on refs/heads/main: [aaa \u{2192} bbb](https://github.com/org/repo/compare/aaa...bbb):\n\n- [fix bug](https://github.com/org/repo/commit/bbb)\n"
    );
}

#[test]
fn github_push_without_fields_uses_defaults() {
    let mut headers = Headers::new();
    headers.insert("x-github-event".to_string(), "push".to_string());
    let result = github(Json::Null, &headers);
    assert_eq!(
        body(&result),
        "[@unknown](https://github.com/unknown) pushed on : [ \u{2192} ]():\n\n"
    );
}

#[test]
fn github_non_push_gives_generic_body() {
    let data = obj(vec![]);
    let mut headers = Headers::new();
    headers.insert("x-github-event".to_string(), "ping".to_string());

    let result = github(data, &headers);
    assert_eq!(body(&result), "notification from github");
}

#[test]
fn github_hub_signature_sets_digest() {
    let data = obj(vec![]);
    let mut headers = Headers::new();
    headers.insert("x-github-event".to_string(), "push".to_string());
    headers.insert("x-hub-signature-256".to_string(), "sha256=abcdef1234".to_string());

    let result = github(data, &headers);
    assert_eq!(result.get_str("digest").unwrap(), "abcdef1234");
}

#[test]
fn github_signature_prefix_removed_repeatedly() {
    let mut headers = Headers::new();
    headers.insert("x-hub-signature-256".to_string(), "sha256=sha256=ff".to_string());
    let result = github(obj(vec![]), &headers);
    assert_eq!(result.get_str("digest").unwrap(), "ff");
}

// ── grafana ───────────────────────────────────────────────────────────────

#[test]
fn grafana_v8_formats_title_and_metrics() {
    let data = obj(vec![
        ("title", s("Disk Alert")),
        ("message", s("Disk is full")),
        ("ruleName", s("disk-rule")),
        ("evalMatches", arr(vec![obj(vec![("metric", s("disk_used")), ("value", n("95"))])])),
    ]);
    let result = grafana(data, &no_headers());
    let body = body(&result);
    assert!(body.contains("Disk Alert"));
    assert!(body.contains("Disk is full"));
    assert!(body.contains("disk_used"));
    assert!(body.contains("95"));
}

#[test]
fn grafana_v8_exact_body() {
    let data = obj(vec![
        ("title", s("Disk Alert")),
        ("message", s("Disk is full")),
        ("ruleName", s("disk-rule")),
        (
            "evalMatches",
            arr(vec![
                obj(vec![("metric", s("disk_used")), ("value", n("95"))]),
                obj(vec![("metric", s("label")), ("value", s("a\"b"))]),
                obj(vec![("metric", s("missing"))]),
                obj(vec![("value", arr(vec![Json::Bool(true), Json::Null]))]),
            ]),
        ),
    ]);
    let result = grafana(data, &no_headers());
    assert_eq!(
        body(&result),
        "#### Disk Alert\nDisk is full\n\n* disk_used: 95\n* label: a\"b\n* missing: null\n* : [true,null]\n"
    );
}

#[test]
fn grafana_v8_string_value_as_is() {
    let data = obj(vec![
        ("ruleName", s("r")),
        ("evalMatches", arr(vec![obj(vec![("metric", s("m")), ("value", s("high"))])])),
    ]);
    let result = grafana(data, &no_headers());
    assert_eq!(body(&result), "* m: high\n");
}

#[test]
fn grafana_9x_dispatches_on_alerts_array() {
    let data = obj(vec![
        ("title", s("CPU Alert")),
        ("message", s("CPU high")),
        ("alerts", arr(vec![obj(vec![("status", s("firing"))])])),
    ]);
    let result = grafana(data, &no_headers());
    let body = body(&result);
    assert!(body.contains("CPU Alert"));
    assert!(body.contains("CPU high"));
}

#[test]
fn grafana_9x_doubles_line_breaks() {
    let data = obj(vec![
        ("title", s("CPU Alert")),
        ("message", s("line one\nline two")),
        ("alerts", arr(vec![])),
    ]);
    let result = grafana(data, &no_headers());
    assert_eq!(body(&result), "#### CPU Alert\nline one\n\nline two\n\n");
}

// ── gitlab_webhook ────────────────────────────────────────────────────────

#[test]
fn gitlab_webhook_formats_event_summary() {
    let data = obj(vec![
        ("event_name", s("push")),
        ("user_name", s("bob")),
        ("project", obj(vec![("name", s("myrepo")), ("web_url", s("https://gitlab.com/org/myrepo"))])),
    ]);
    let result = gitlab_webhook(data, &no_headers());
    let body = body(&result);
    assert!(body.contains("push"));
    assert!(body.contains("myrepo"));
    assert!(body.contains("bob"));
    assert_eq!(body, "New push event on [myrepo](https://gitlab.com/org/myrepo) by bob.");
}

#[test]
fn gitlab_webhook_token_sets_key() {
    let data = obj(vec![("event_name", s("push")), ("user_name", s("x")), ("project", obj(vec![]))]);
    let mut headers = Headers::new();
    headers.insert("x-gitlab-token".to_string(), "tok123".to_string());

    let result = gitlab_webhook(data, &headers);
    assert_eq!(result.get_str("key").unwrap(), "tok123");
    assert_eq!(body(&result), "New push event on [unknown]() by x.");
}

// ── gitlab_gchat ──────────────────────────────────────────────────────────

#[test]
fn gitlab_gchat_converts_links() {
    let data = obj(vec![("body", s("see <https://example.com|here> for details"))]);
    let result = gitlab_gchat(data, &no_headers());
    assert_eq!(body(&result), "see [here](https://example.com) for details");
}

#[test]
fn gitlab_gchat_no_body_is_noop() {
    let data = || obj(vec![("other", s("field"))]);
    let result = gitlab_gchat(data(), &no_headers());
    assert_eq!(result, data());
}

#[test]
fn gitlab_gchat_on_array_is_noop() {
    let data = || arr(vec![s("x")]);
    assert_eq!(gitlab_gchat(data(), &no_headers()), data());
}

#[test]
fn replace_body_sets_string_bodies_only() {
    let replaced = replace_body(obj(vec![("body", s("old"))]), Some("new".to_string()));
    assert_eq!(replaced, obj(vec![("body", s("new"))]));
    let kept = replace_body(obj(vec![("body", n("1"))]), Some("new".to_string()));
    assert_eq!(kept, obj(vec![("body", n("1"))]));
    let unchanged = replace_body(obj(vec![("body", s("old"))]), None);
    assert_eq!(unchanged, obj(vec![("body", s("old"))]));
}

// ── gitlab_teams ──────────────────────────────────────────────────────────

#[test]
fn gitlab_teams_text_sections_joined() {
    let data = obj(vec![(
        "sections",
        arr(vec![
            obj(vec![("text", s("first paragraph\n\nsecond paragraph"))]),
            obj(vec![("text", s("another section"))]),
        ]),
    )]);
    let result = gitlab_teams(data, &no_headers());
    let body = body(&result);
    assert!(body.contains("* first paragraph"));
    assert!(body.contains("* another section"));
    assert_eq!(body, "\n* first paragraph  \n* second paragraph  \n\n* another section");
}

#[test]
fn gitlab_teams_activity_sections() {
    let data = obj(vec![(
        "sections",
        arr(vec![obj(vec![
            ("activityTitle", s("Alice")),
            ("activitySubtitle", s("pushed")),
            ("activityText", s("3 commits")),
        ])]),
    )]);
    let result = gitlab_teams(data, &no_headers());
    let body = body(&result);
    assert!(body.contains("Alice"));
    assert!(body.contains("pushed"));
    assert!(body.contains("3 commits"));
    assert_eq!(body, "Alice pushed \u{2192} 3 commits");
}

#[test]
fn gitlab_teams_without_sections_is_empty() {
    let result = gitlab_teams(obj(vec![]), &no_headers());
    assert_eq!(body(&result), "");
}

// ── discord ───────────────────────────────────────────────────────────────

#[test]
fn discord_username_and_content() {
    let data = obj(vec![("username", s("bot")), ("content", s("hello world"))]);
    let result = discord(data, &no_headers());
    let body = body(&result);
    assert!(body.contains("**bot**"));
    assert!(body.contains("hello world"));
    assert_eq!(body, "**bot**: hello world\n\n");
}

#[test]
fn discord_content_only() {
    let result = discord(obj(vec![("content", s("hi"))]), &no_headers());
    assert_eq!(body(&result), "hi\n\n");
}

#[test]
fn discord_embed_with_title_and_description() {
    let data = obj(vec![(
        "embeds",
        arr(vec![obj(vec![
            ("title", s("Alert")),
            ("url", s("https://example.com")),
            ("description", s("Something happened")),
            ("fields", arr(vec![obj(vec![("name", s("severity")), ("value", s("high"))])])),
        ])]),
    )]);
    let result = discord(data, &no_headers());
    let body = body(&result);
    assert!(body.contains("[Alert](https://example.com)"));
    assert!(body.contains("Something happened"));
    assert!(body.contains("**severity**: high"));
    assert_eq!(
        body,
        "#### [Alert](https://example.com)\n\nSomething happened\n\n**severity**: high\n\n"
    );
}

#[test]
fn discord_embed_author_and_footer() {
    let data = obj(vec![(
        "embeds",
        arr(vec![obj(vec![
            ("author", obj(vec![("name", s("Ann"))])),
            ("title", s("T")),
            ("fields", arr(vec![])),
            ("footer", obj(vec![("text", s("bye"))])),
        ])]),
    )]);
    let result = discord(data, &no_headers());
    assert_eq!(body(&result), "Ann\n#### T\n\nbye\n");
}

// ── grn ───────────────────────────────────────────────────────────────────

#[test]
fn grn_formats_release_announcement() {
    let data = obj(vec![
        ("version", s("v1.2.3")),
        ("title", s("Bug fixes")),
        ("author", s("alice")),
        ("package_name", s("org/myapp")),
    ]);
    let result = grn(data, &no_headers());
    let body = body(&result);
    assert!(body.contains("### org/myapp - v1.2.3"));
    assert!(body.contains("Bug fixes"));
    assert!(body.contains("alice"));
    assert!(body.contains("https://github.com/org/myapp/releases/tag/v1.2.3"));
    assert_eq!(
        body,
        "### org/myapp - v1.2.3\n\nBug fixes\n\n[alice released new version **v1.2.3** for **org/myapp**](https://github.com/org/myapp/releases/tag/v1.2.3).\n\n"
    );
}
