use vstd::prelude::*;

use crate::headers::{Headers, header};
use crate::json::{Json, JsonValue, field, text_of, str_or, assign, assignable, items_model, json_text, law_assign_then_field};
use crate::text::{push_str, str_eq, trim_start_matches, trim_start_matches_str, replace_char, replace_char_str, split, split_str, join, join_strings, views};

verus! {

broadcast use vstd::string::group_string_axioms;

// ---------------------------------------------------------------------------
// Reading helpers
// ---------------------------------------------------------------------------

/// `v[k1][k2].as_str()`.
fn path_str<'a>(v: &'a Json, k1: &str, k2: &str) -> (r: Option<&'a str>)
    ensures
        r matches Some(s) ==> text_of(field(field(v.model(), k1@), k2@)) == Some(s@),
        r is None ==> text_of(field(field(v.model(), k1@), k2@)) is None,
{
    match v.get(k1) {
        Some(inner) => inner.get_str(k2),
        None => None,
    }
}

/// `v.unwrap_or(default)`.
fn text_or<'a>(v: Option<&'a str>, default: &'a str) -> (r: &'a str)
    ensures
        r@ == match v {
            Some(s) => s@,
            None => default@,
        },
{
    match v {
        Some(s) => s,
        None => default,
    }
}

/// Appends `v`, or nothing when it is absent (`unwrap_or("")`).
fn push_opt(out: &mut String, v: Option<&str>)
    ensures
        final(out)@ == old(out)@ + match v {
            Some(s) => s@,
            None => Seq::<char>::empty(),
        },
{
    match v {
        Some(s) => push_str(out, s),
        None => {
            assert(old(out)@ + Seq::<char>::empty() =~= old(out)@);
        },
    }
}

/// The text of `v[key]`, or nothing.
pub open spec fn field_text(v: JsonValue, key: Seq<char>) -> Seq<char> {
    str_or(field(v, key), Seq::empty())
}

// ---------------------------------------------------------------------------
// Identity
// ---------------------------------------------------------------------------

/// Passes the data through unchanged.
pub fn identity(data: Json, headers: &Headers) -> (r: Json)
    ensures
        r == data,
{
    data
}

// ---------------------------------------------------------------------------
// GitHub Release Notifier (grn)
// ---------------------------------------------------------------------------

pub open spec fn grn_body(d: JsonValue) -> Seq<char> {
    let version = field_text(d, "version"@);
    let title = field_text(d, "title"@);
    let author = field_text(d, "author"@);
    let package = field_text(d, "package_name"@);
    "### "@ + package + " - "@ + version + "\n\n"@ + title + "\n\n["@ + author
        + " released new version **"@ + version + "** for **"@ + package
        + "**](https://github.com/"@ + package + "/releases/tag/"@ + version + ").\n\n"@
}

/// A release announcement with a link to the release page.
pub fn grn(data: Json, headers: &Headers) -> (r: Json)
    requires
        assignable(data.model()),
    ensures
        r.model() == assign(data.model(), "body"@, JsonValue::Str(grn_body(data.model()))),
{
    let version = data.get_str("version");
    let title = data.get_str("title");
    let author = data.get_str("author");
    let package = data.get_str("package_name");
    let mut body = String::new();
    push_str(&mut body, "### ");
    push_opt(&mut body, package);
    push_str(&mut body, " - ");
    push_opt(&mut body, version);
    push_str(&mut body, "\n\n");
    push_opt(&mut body, title);
    push_str(&mut body, "\n\n[");
    push_opt(&mut body, author);
    push_str(&mut body, " released new version **");
    push_opt(&mut body, version);
    push_str(&mut body, "** for **");
    push_opt(&mut body, package);
    push_str(&mut body, "**](https://github.com/");
    push_opt(&mut body, package);
    push_str(&mut body, "/releases/tag/");
    push_opt(&mut body, version);
    push_str(&mut body, ").\n\n");
    assert(body@ =~= grn_body(data.model()));
    data.set("body", Json::Str(body))
}

// ---------------------------------------------------------------------------
// GitLab webhook
// ---------------------------------------------------------------------------

pub open spec fn gitlab_webhook_body(d: JsonValue) -> Seq<char> {
    let event_name = str_or(field(d, "event_name"@), "unknown"@);
    let user_name = str_or(field(d, "user_name"@), "unknown"@);
    let project_name = str_or(field(field(d, "project"@), "name"@), "unknown"@);
    let project_url = str_or(field(field(d, "project"@), "web_url"@), Seq::empty());
    "New "@ + event_name + " event on ["@ + project_name + "]("@ + project_url + ") by "@
        + user_name + "."@
}

pub open spec fn gitlab_webhook_result(d: JsonValue, h: Seq<(Seq<char>, Seq<char>)>) -> JsonValue {
    let with_body = assign(d, "body"@, JsonValue::Str(gitlab_webhook_body(d)));
    match header(h, "x-gitlab-token"@) {
        Some(token) => assign(with_body, "key"@, JsonValue::Str(token)),
        None => with_body,
    }
}

/// A one-line event summary; the `x-gitlab-token` header, when present, becomes
/// the webhook key.
pub fn gitlab_webhook(data: Json, headers: &Headers) -> (r: Json)
    requires
        assignable(data.model()),
    ensures
        r.model() == gitlab_webhook_result(data.model(), headers@),
{
    let event_name = text_or(data.get_str("event_name"), "unknown");
    let user_name = text_or(data.get_str("user_name"), "unknown");
    let project_name = text_or(path_str(&data, "project", "name"), "unknown");
    let project_url = path_str(&data, "project", "web_url");
    let mut body = String::new();
    push_str(&mut body, "New ");
    push_str(&mut body, event_name);
    push_str(&mut body, " event on [");
    push_str(&mut body, project_name);
    push_str(&mut body, "](");
    push_opt(&mut body, project_url);
    push_str(&mut body, ") by ");
    push_str(&mut body, user_name);
    push_str(&mut body, ".");
    assert(body@ =~= gitlab_webhook_body(data.model()));
    let data = data.set("body", Json::Str(body));
    match headers.get("x-gitlab-token") {
        Some(token) => data.set("key", Json::Str(token.clone())),
        None => data,
    }
}

// ---------------------------------------------------------------------------
// GitHub
// ---------------------------------------------------------------------------

pub open spec fn commit_line(c: JsonValue) -> Seq<char> {
    "- ["@ + field_text(c, "message"@) + "]("@ + field_text(c, "url"@) + ")\n"@
}

pub open spec fn commit_lines(cs: Seq<JsonValue>) -> Seq<char>
    decreases cs.len(),
{
    if cs.len() == 0 {
        seq![]
    } else {
        commit_lines(cs.drop_last()) + commit_line(cs.last())
    }
}

pub open spec fn github_push_body(d: JsonValue) -> Seq<char> {
    let pusher = str_or(field(field(d, "pusher"@), "name"@), "unknown"@);
    "[@"@ + pusher + "](https://github.com/"@ + pusher + ")"@ + " pushed on "@ + field_text(d, "ref"@)
        + ": ["@ + field_text(d, "before"@) + " \u{2192} "@ + field_text(d, "after"@) + "]("@
        + field_text(d, "compare"@) + "):\n\n"@ + match field(d, "commits"@) {
        JsonValue::Array(cs) => commit_lines(cs),
        _ => seq![],
    }
}

pub open spec fn github_result(d: JsonValue, h: Seq<(Seq<char>, Seq<char>)>) -> JsonValue {
    let body = if header(h, "x-github-event"@) == Some("push"@) {
        github_push_body(d)
    } else {
        "notification from github"@
    };
    let with_body = assign(d, "body"@, JsonValue::Str(body));
    match header(h, "x-hub-signature-256"@) {
        Some(sig) => assign(with_body, "digest"@, JsonValue::Str(trim_start_matches(sig, "sha256="@))),
        None => with_body,
    }
}

/// A push summary (pusher, ref, range, one line per commit) for `push` events and
/// a generic line otherwise; the `x-hub-signature-256` header, without its
/// `sha256=` prefix, becomes the digest that authenticates the request.
pub fn github(data: Json, headers: &Headers) -> (r: Json)
    requires
        assignable(data.model()),
    ensures
        r.model() == github_result(data.model(), headers@),
{
    let is_push = match headers.get("x-github-event") {
        Some(event) => str_eq(event.as_str(), "push"),
        None => false,
    };
    let mut body = String::new();
    if is_push {
        let pusher = text_or(path_str(&data, "pusher", "name"), "unknown");
        push_str(&mut body, "[@");
        push_str(&mut body, pusher);
        push_str(&mut body, "](https://github.com/");
        push_str(&mut body, pusher);
        push_str(&mut body, ")");
        push_str(&mut body, " pushed on ");
        push_opt(&mut body, data.get_str("ref"));
        push_str(&mut body, ": [");
        push_opt(&mut body, data.get_str("before"));
        push_str(&mut body, " \u{2192} ");
        push_opt(&mut body, data.get_str("after"));
        push_str(&mut body, "](");
        push_opt(&mut body, data.get_str("compare"));
        push_str(&mut body, "):\n\n");
        let ghost head = body@;
        let commits = match data.get("commits") {
            Some(c) => c.as_array(),
            None => None,
        };
        match commits {
            Some(items) => {
                let ghost cs = items_model(items@);
                let mut i: usize = 0;
                while i < items.len()
                    invariant
                        0 <= i <= items.len(),
                        cs == items_model(items@),
                        body@ == head + commit_lines(cs.take(i as int)),
                    decreases items.len() - i,
                {
                    let c = &items[i];
                    push_str(&mut body, "- [");
                    push_opt(&mut body, c.get_str("message"));
                    push_str(&mut body, "](");
                    push_opt(&mut body, c.get_str("url"));
                    push_str(&mut body, ")\n");
                    proof {
                        assert(cs.take(i + 1).drop_last() =~= cs.take(i as int));
                    }
                    i += 1;
                }
                assert(cs.take(items.len() as int) =~= cs);
            },
            None => {
                assert(head + Seq::<char>::empty() =~= head);
            },
        }
        assert(body@ =~= github_push_body(data.model()));
    } else {
        push_str(&mut body, "notification from github");
    }
    let data = data.set("body", Json::Str(body));
    match headers.get("x-hub-signature-256") {
        Some(sig) => {
            let digest = trim_start_matches_str(sig.as_str(), "sha256=");
            data.set("digest", Json::Str(digest))
        },
        None => data,
    }
}

// ---------------------------------------------------------------------------
// Grafana
// ---------------------------------------------------------------------------

pub open spec fn title_heading(d: JsonValue) -> Seq<char> {
    match text_of(field(d, "title"@)) {
        Some(t) => "#### "@ + t + "\n"@,
        None => seq![],
    }
}

/// A metric value as shown: a string as it is, any other value as its JSON
/// text.
pub open spec fn metric_value_text(v: JsonValue) -> Seq<char> {
    match v {
        JsonValue::Str(s) => s,
        _ => json_text(v),
    }
}

pub open spec fn eval_match_line(m: JsonValue) -> Seq<char> {
    "* "@ + field_text(m, "metric"@) + ": "@ + metric_value_text(field(m, "value"@)) + "\n"@
}

pub open spec fn eval_match_lines(ms: Seq<JsonValue>) -> Seq<char>
    decreases ms.len(),
{
    if ms.len() == 0 {
        seq![]
    } else {
        eval_match_lines(ms.drop_last()) + eval_match_line(ms.last())
    }
}

/// The legacy (v8) alert text: title, message, one line per evaluated metric.
pub open spec fn grafana_v8_body(d: JsonValue) -> Seq<char> {
    title_heading(d) + match text_of(field(d, "message"@)) {
        Some(m) => m + "\n\n"@,
        None => seq![],
    } + match field(d, "evalMatches"@) {
        JsonValue::Array(ms) => eval_match_lines(ms),
        _ => seq![],
    }
}

/// The unified alerting (v9+) text: title, then the message with every line
/// break doubled.
pub open spec fn grafana_9x_body(d: JsonValue) -> Seq<char> {
    title_heading(d) + match text_of(field(d, "message"@)) {
        Some(m) => replace_char(m, '\n', "\n\n"@) + "\n\n"@,
        None => seq![],
    }
}

/// v9+ payloads carry an `alerts` array and no `ruleName`.
pub open spec fn is_grafana_9x(d: JsonValue) -> bool {
    field(d, "ruleName"@) is Null && field(d, "alerts"@) is Array
}

pub open spec fn grafana_result(d: JsonValue) -> JsonValue {
    assign(
        d,
        "body"@,
        JsonValue::Str(
            if is_grafana_9x(d) {
                grafana_9x_body(d)
            } else {
                grafana_v8_body(d)
            },
        ),
    )
}

fn push_title_heading(out: &mut String, data: &Json)
    ensures
        final(out)@ == old(out)@ + title_heading(data.model()),
{
    match data.get_str("title") {
        Some(t) => {
            push_str(out, "#### ");
            push_str(out, t);
            push_str(out, "\n");
        },
        None => {
            assert(old(out)@ + Seq::<char>::empty() =~= old(out)@);
        },
    }
}

#[verifier::rlimit(30)]
fn grafana_v8(data: &Json) -> (r: String)
    ensures
        r@ == grafana_v8_body(data.model()),
{
    let mut text = String::new();
    push_title_heading(&mut text, data);
    match data.get_str("message") {
        Some(m) => {
            push_str(&mut text, m);
            push_str(&mut text, "\n\n");
        },
        None => {},
    }
    let ghost head = text@;
    let matches = match data.get("evalMatches") {
        Some(v) => v.as_array(),
        None => None,
    };
    match matches {
        Some(items) => {
            let ghost ms = items_model(items@);
            let mut i: usize = 0;
            while i < items.len()
                invariant
                    0 <= i <= items.len(),
                    ms == items_model(items@),
                    text@ == head + eval_match_lines(ms.take(i as int)),
                decreases items.len() - i,
            {
                let m = &items[i];
                push_str(&mut text, "* ");
                push_opt(&mut text, m.get_str("metric"));
                push_str(&mut text, ": ");
                match m.get("value") {
                    Some(Json::Str(v)) => push_str(&mut text, v.as_str()),
                    Some(v) => v.write_json(&mut text),
                    None => {
                        proof {
                            reveal_strlit("null");
                        }
                        push_str(&mut text, "null");
                    },
                }
                push_str(&mut text, "\n");
                proof {
                    assert(ms.take(i + 1).drop_last() =~= ms.take(i as int));
                }
                i += 1;
            }
            assert(ms.take(items.len() as int) =~= ms);
        },
        None => {},
    }
    assert(text@ =~= grafana_v8_body(data.model()));
    text
}

fn grafana_9x(data: &Json) -> (r: String)
    ensures
        r@ == grafana_9x_body(data.model()),
{
    let mut text = String::new();
    push_title_heading(&mut text, data);
    match data.get_str("message") {
        Some(m) => {
            let doubled = replace_char_str(m, '\n', "\n\n");
            push_str(&mut text, doubled.as_str());
            push_str(&mut text, "\n\n");
        },
        None => {},
    }
    assert(text@ =~= grafana_9x_body(data.model()));
    text
}

/// Grafana alerts, in the legacy (v8) or the unified (v9+) shape.
pub fn grafana(data: Json, headers: &Headers) -> (r: Json)
    requires
        assignable(data.model()),
    ensures
        r.model() == grafana_result(data.model()),
{
    let rule_name_null = match data.get("ruleName") {
        Some(v) => v.is_null(),
        None => true,
    };
    let alerts_array = match data.get("alerts") {
        Some(v) => v.as_array().is_some(),
        None => false,
    };
    let body = if rule_name_null && alerts_array {
        grafana_9x(&data)
    } else {
        grafana_v8(&data)
    };
    data.set("body", Json::Str(body))
}

// ---------------------------------------------------------------------------
// GitLab -> Microsoft Teams
// ---------------------------------------------------------------------------

pub open spec fn bullets(ps: Seq<Seq<char>>) -> Seq<Seq<char>> {
    Seq::new(ps.len(), |i: int| "* "@ + ps[i])
}

/// What one section contributes: its text split into bulleted paragraphs, or its
/// activity title, subtitle and text on one line; nothing otherwise.
pub open spec fn section_part(s: JsonValue) -> Option<Seq<char>> {
    match text_of(field(s, "text"@)) {
        Some(t) => Some("\n"@ + join(bullets(split(t, "\n\n"@)), "  \n"@)),
        None => match (
            text_of(field(s, "activityTitle"@)),
            text_of(field(s, "activitySubtitle"@)),
            text_of(field(s, "activityText"@)),
        ) {
            (Some(title), Some(subtitle), Some(text)) => Some(
                title + " "@ + subtitle + " \u{2192} "@ + text,
            ),
            _ => None,
        },
    }
}

pub open spec fn section_parts(ss: Seq<JsonValue>) -> Seq<Seq<char>>
    decreases ss.len(),
{
    if ss.len() == 0 {
        seq![]
    } else {
        match section_part(ss.last()) {
            Some(p) => section_parts(ss.drop_last()).push(p),
            None => section_parts(ss.drop_last()),
        }
    }
}

pub open spec fn gitlab_teams_body(d: JsonValue) -> Seq<char> {
    join(
        match field(d, "sections"@) {
            JsonValue::Array(ss) => section_parts(ss),
            _ => seq![],
        },
        "  \n"@,
    )
}

fn teams_section(s: &Json) -> (r: Option<String>)
    ensures
        r matches Some(p) ==> section_part(s.model()) == Some(p@),
        r is None ==> section_part(s.model()) is None,
{
    match s.get_str("text") {
        Some(t) => {
            proof {
                reveal_strlit("\n\n");
            }
            let paragraphs = split_str(t, "\n\n");
            let ghost ps = views(paragraphs@);
            let mut items: Vec<String> = Vec::new();
            let mut i: usize = 0;
            while i < paragraphs.len()
                invariant
                    0 <= i <= paragraphs.len(),
                    ps == views(paragraphs@),
                    views(items@) == bullets(ps).take(i as int),
                decreases paragraphs.len() - i,
            {
                let mut item = String::new();
                push_str(&mut item, "* ");
                push_str(&mut item, paragraphs[i].as_str());
                assert(item@ =~= "* "@ + ps[i as int]);
                let ghost before = items@;
                let ghost im = item@;
                items.push(item);
                proof {
                    assert(views(items@) =~= views(before).push(im));
                    assert(bullets(ps).take(i + 1) =~= bullets(ps).take(i as int).push(bullets(ps)[i as int]));
                }
                i += 1;
            }
            assert(bullets(ps).take(paragraphs.len() as int) =~= bullets(ps));
            let joined = join_strings(&items, "  \n");
            let mut part = String::new();
            push_str(&mut part, "\n");
            push_str(&mut part, joined.as_str());
            Some(part)
        },
        None => {
            match (s.get_str("activityTitle"), s.get_str("activitySubtitle"), s.get_str("activityText")) {
                (Some(title), Some(subtitle), Some(text)) => {
                    let mut part = String::new();
                    push_str(&mut part, title);
                    push_str(&mut part, " ");
                    push_str(&mut part, subtitle);
                    push_str(&mut part, " \u{2192} ");
                    push_str(&mut part, text);
                    Some(part)
                },
                _ => None,
            }
        },
    }
}

/// GitLab notifications in the Microsoft Teams shape: the `sections` become
/// Markdown paragraphs.
pub fn gitlab_teams(data: Json, headers: &Headers) -> (r: Json)
    requires
        assignable(data.model()),
    ensures
        r.model() == assign(data.model(), "body"@, JsonValue::Str(gitlab_teams_body(data.model()))),
{
    let mut parts: Vec<String> = Vec::new();
    let sections = match data.get("sections") {
        Some(v) => v.as_array(),
        None => None,
    };
    match sections {
        Some(items) => {
            let ghost ss = items_model(items@);
            let mut i: usize = 0;
            while i < items.len()
                invariant
                    0 <= i <= items.len(),
                    ss == items_model(items@),
                    views(parts@) == section_parts(ss.take(i as int)),
                decreases items.len() - i,
            {
                let part = teams_section(&items[i]);
                proof {
                    assert(ss.take(i + 1).drop_last() =~= ss.take(i as int));
                }
                match part {
                    Some(p) => {
                        let ghost before = parts@;
                        let ghost pm = p@;
                        parts.push(p);
                        assert(views(parts@) =~= views(before).push(pm));
                    },
                    None => {},
                }
                i += 1;
            }
            assert(ss.take(items.len() as int) =~= ss);
        },
        None => {
            assert(views(parts@) =~= Seq::<Seq<char>>::empty());
        },
    }
    let body = join_strings(&parts, "  \n");
    data.set("body", Json::Str(body))
}

// ---------------------------------------------------------------------------
// Discord
// ---------------------------------------------------------------------------

/// `**user**: content`, or whichever of the two is present.
pub open spec fn discord_heading(d: JsonValue) -> Seq<char> {
    match (text_of(field(d, "username"@)), text_of(field(d, "content"@))) {
        (Some(u), Some(c)) => "**"@ + u + "**: "@ + c + "\n\n"@,
        (Some(u), None) => "**"@ + u + "**\n\n"@,
        (None, Some(c)) => c + "\n\n"@,
        (None, None) => seq![],
    }
}

pub open spec fn embed_field_line(f: JsonValue) -> Seq<char> {
    "**"@ + field_text(f, "name"@) + "**: "@ + field_text(f, "value"@) + "\n"@
}

pub open spec fn embed_field_lines(fs: Seq<JsonValue>) -> Seq<char>
    decreases fs.len(),
{
    if fs.len() == 0 {
        seq![]
    } else {
        embed_field_lines(fs.drop_last()) + embed_field_line(fs.last())
    }
}

pub open spec fn embed_author(e: JsonValue) -> Seq<char> {
    match text_of(field(field(e, "author"@), "name"@)) {
        Some(name) => match text_of(field(field(e, "author"@), "url"@)) {
            Some(url) => "["@ + name + "]("@ + url + ")\n"@,
            None => name + "\n"@,
        },
        None => seq![],
    }
}

pub open spec fn embed_title(e: JsonValue) -> Seq<char> {
    match text_of(field(e, "title"@)) {
        Some(title) => match text_of(field(e, "url"@)) {
            Some(url) => "#### ["@ + title + "]("@ + url + ")\n\n"@,
            None => "#### "@ + title + "\n\n"@,
        },
        None => seq![],
    }
}

pub open spec fn embed_description(e: JsonValue) -> Seq<char> {
    match text_of(field(e, "description"@)) {
        Some(desc) => desc + "\n\n"@,
        None => seq![],
    }
}

pub open spec fn embed_fields(e: JsonValue) -> Seq<char> {
    match field(e, "fields"@) {
        JsonValue::Array(fs) => embed_field_lines(fs) + if fs.len() > 0 {
            "\n"@
        } else {
            seq![]
        },
        _ => seq![],
    }
}

pub open spec fn embed_footer(e: JsonValue) -> Seq<char> {
    match text_of(field(field(e, "footer"@), "text"@)) {
        Some(text) => text + "\n"@,
        None => seq![],
    }
}

pub open spec fn embed_text(e: JsonValue) -> Seq<char> {
    embed_author(e) + embed_title(e) + embed_description(e) + embed_fields(e) + embed_footer(e)
}

pub open spec fn embed_texts(es: Seq<JsonValue>) -> Seq<char>
    decreases es.len(),
{
    if es.len() == 0 {
        seq![]
    } else {
        embed_texts(es.drop_last()) + embed_text(es.last())
    }
}

pub open spec fn discord_body(d: JsonValue) -> Seq<char> {
    discord_heading(d) + match field(d, "embeds"@) {
        JsonValue::Array(es) => embed_texts(es),
        _ => seq![],
    }
}

fn push_embed_author(out: &mut String, e: &Json)
    ensures
        final(out)@ == old(out)@ + embed_author(e.model()),
{
    let ghost start = out@;
    match path_str(e, "author", "name") {
        Some(name) => match path_str(e, "author", "url") {
            Some(url) => {
                push_str(out, "[");
                push_str(out, name);
                push_str(out, "](");
                push_str(out, url);
                push_str(out, ")\n");
            },
            None => {
                push_str(out, name);
                push_str(out, "\n");
            },
        },
        None => {},
    }
    assert(out@ =~= start + embed_author(e.model()));
}

fn push_embed_title(out: &mut String, e: &Json)
    ensures
        final(out)@ == old(out)@ + embed_title(e.model()),
{
    let ghost start = out@;
    match e.get_str("title") {
        Some(title) => match e.get_str("url") {
            Some(url) => {
                push_str(out, "#### [");
                push_str(out, title);
                push_str(out, "](");
                push_str(out, url);
                push_str(out, ")\n\n");
            },
            None => {
                push_str(out, "#### ");
                push_str(out, title);
                push_str(out, "\n\n");
            },
        },
        None => {},
    }
    assert(out@ =~= start + embed_title(e.model()));
}

fn push_embed_description(out: &mut String, e: &Json)
    ensures
        final(out)@ == old(out)@ + embed_description(e.model()),
{
    let ghost start = out@;
    match e.get_str("description") {
        Some(desc) => {
            push_str(out, desc);
            push_str(out, "\n\n");
        },
        None => {},
    }
    assert(out@ =~= start + embed_description(e.model()));
}

fn push_embed_fields(out: &mut String, e: &Json)
    ensures
        final(out)@ == old(out)@ + embed_fields(e.model()),
{
    let ghost start = out@;
    let fields = match e.get("fields") {
        Some(v) => v.as_array(),
        None => None,
    };
    match fields {
        Some(items) => {
            let ghost fs = items_model(items@);
            let mut i: usize = 0;
            while i < items.len()
                invariant
                    0 <= i <= items.len(),
                    fs == items_model(items@),
                    out@ == start + embed_field_lines(fs.take(i as int)),
                decreases items.len() - i,
            {
                let f = &items[i];
                push_str(out, "**");
                push_opt(out, f.get_str("name"));
                push_str(out, "**: ");
                push_opt(out, f.get_str("value"));
                push_str(out, "\n");
                proof {
                    assert(fs.take(i + 1).drop_last() =~= fs.take(i as int));
                }
                i += 1;
            }
            assert(fs.take(items.len() as int) =~= fs);
            if items.len() > 0 {
                push_str(out, "\n");
            }
        },
        None => {},
    }
    assert(out@ =~= start + embed_fields(e.model()));
}

fn push_embed_footer(out: &mut String, e: &Json)
    ensures
        final(out)@ == old(out)@ + embed_footer(e.model()),
{
    let ghost start = out@;
    match path_str(e, "footer", "text") {
        Some(text) => {
            push_str(out, text);
            push_str(out, "\n");
        },
        None => {},
    }
    assert(out@ =~= start + embed_footer(e.model()));
}

fn push_embed(out: &mut String, e: &Json)
    ensures
        final(out)@ == old(out)@ + embed_text(e.model()),
{
    let ghost start = out@;
    push_embed_author(out, e);
    push_embed_title(out, e);
    push_embed_description(out, e);
    push_embed_fields(out, e);
    push_embed_footer(out, e);
    assert(out@ =~= start + embed_text(e.model()));
}

/// Discord-style payloads: the user and content line, then each embed's author,
/// title, description, fields and footer.
pub fn discord(data: Json, headers: &Headers) -> (r: Json)
    requires
        assignable(data.model()),
    ensures
        r.model() == assign(data.model(), "body"@, JsonValue::Str(discord_body(data.model()))),
{
    let mut text = String::new();
    match (data.get_str("username"), data.get_str("content")) {
        (Some(u), Some(c)) => {
            push_str(&mut text, "**");
            push_str(&mut text, u);
            push_str(&mut text, "**: ");
            push_str(&mut text, c);
            push_str(&mut text, "\n\n");
        },
        (Some(u), None) => {
            push_str(&mut text, "**");
            push_str(&mut text, u);
            push_str(&mut text, "**\n\n");
        },
        (None, Some(c)) => {
            push_str(&mut text, c);
            push_str(&mut text, "\n\n");
        },
        (None, None) => {},
    }
    assert(text@ =~= discord_heading(data.model()));
    let ghost head = text@;
    let embeds = match data.get("embeds") {
        Some(v) => v.as_array(),
        None => None,
    };
    match embeds {
        Some(items) => {
            let ghost es = items_model(items@);
            let mut i: usize = 0;
            while i < items.len()
                invariant
                    0 <= i <= items.len(),
                    es == items_model(items@),
                    text@ == head + embed_texts(es.take(i as int)),
                decreases items.len() - i,
            {
                push_embed(&mut text, &items[i]);
                proof {
                    assert(es.take(i + 1).drop_last() =~= es.take(i as int));
                }
                i += 1;
            }
            assert(es.take(items.len() as int) =~= es);
        },
        None => {},
    }
    assert(text@ =~= discord_body(data.model()));
    data.set("body", Json::Str(text))
}

// ---------------------------------------------------------------------------
// GitLab -> Google Chat
// ---------------------------------------------------------------------------

/// What `regex::Regex::new(pattern)` and then `replace_all(text, replacement)`
/// give: `None` when the pattern does not compile, else the text with every
/// leftmost non-overlapping match replaced, `$n` in the replacement standing
/// for capture group `n`.
pub uninterp spec fn regex_replace_all(pattern: Seq<char>, text: Seq<char>, replacement: Seq<char>) -> Option<Seq<char>>;

/// Calls `regex::Regex::new` and `Regex::replace_all`; the result is named by
/// `regex_replace_all` and nothing more is claimed of it.
#[verifier::external_body]
fn regex_replace(pattern: &str, text: &str, replacement: &str) -> (r: Option<String>)
    ensures
        r matches Some(s) ==> regex_replace_all(pattern@, text@, replacement@) == Some(s@),
        r is None ==> regex_replace_all(pattern@, text@, replacement@) is None,
{
    match regex::Regex::new(pattern) {
        Ok(re) => Some(re.replace_all(text, replacement).into_owned()),
        Err(_) => None,
    }
}

/// Slack-style `<url|label>` links, lazily matched on one line.
pub open spec fn slack_link_pattern() -> Seq<char> {
    "<(.*?)\\|(.*?)>"@
}

/// Their Markdown form, `[label](url)`.
pub open spec fn markdown_link_template() -> Seq<char> {
    "[$2]($1)"@
}

/// The body after the link rewriting `rewritten`: set when the data has a string
/// `body` and the rewriting produced a text, the data unchanged otherwise.
pub open spec fn with_rewritten_body(d: JsonValue, rewritten: Option<Seq<char>>) -> JsonValue {
    match (text_of(field(d, "body"@)), rewritten) {
        (Some(_), Some(c)) => assign(d, "body"@, JsonValue::Str(c)),
        _ => d,
    }
}

pub open spec fn gitlab_gchat_result(d: JsonValue) -> JsonValue {
    match text_of(field(d, "body"@)) {
        Some(b) => with_rewritten_body(
            d,
            regex_replace_all(slack_link_pattern(), b, markdown_link_template()),
        ),
        None => d,
    }
}

/// Puts the rewritten text of a string `body` back into the data.
pub fn replace_body(data: Json, rewritten: Option<String>) -> (r: Json)
    ensures
        r.model() == with_rewritten_body(
            data.model(),
            match rewritten {
                Some(c) => Some(c@),
                None => None,
            },
        ),
{
    let has_text_body = data.get_str("body").is_some();
    match rewritten {
        Some(c) => if has_text_body {
            data.set("body", Json::Str(c))
        } else {
            data
        },
        None => data,
    }
}

/// GitLab notifications in the Google Chat shape: `<url|label>` links in a
/// string `body` become Markdown links.
pub fn gitlab_gchat(data: Json, headers: &Headers) -> (r: Json)
    ensures
        r.model() == gitlab_gchat_result(data.model()),
{
    let rewritten = match data.get_str("body") {
        Some(body) => regex_replace("<(.*?)\\|(.*?)>", body, "[$2]($1)"),
        None => None,
    };
    replace_body(data, rewritten)
}


// ---------------------------------------------------------------------------
// Laws of the formatters
// ---------------------------------------------------------------------------

/// The text of the `body` field of a formatter's result.
pub open spec fn body_text(r: JsonValue) -> Option<Seq<char>> {
    text_of(field(r, "body"@))
}

/// GitHub push summaries list every commit, in order: one more commit at the
/// end of `commits` adds exactly one line `- [message](url)` at the end of the
/// body, all else being equal.
pub proof fn law_github_one_line_per_commit(
    d1: JsonValue,
    d2: JsonValue,
    h: Seq<(Seq<char>, Seq<char>)>,
    cs: Seq<JsonValue>,
    c: JsonValue,
)
    requires
        header(h, "x-github-event"@) == Some("push"@),
        assignable(d1),
        assignable(d2),
        field(d1, "commits"@) == JsonValue::Array(cs),
        field(d2, "commits"@) == JsonValue::Array(cs.push(c)),
        field(d2, "pusher"@) == field(d1, "pusher"@),
        field(d2, "ref"@) == field(d1, "ref"@),
        field(d2, "before"@) == field(d1, "before"@),
        field(d2, "after"@) == field(d1, "after"@),
        field(d2, "compare"@) == field(d1, "compare"@),
    ensures
        body_text(github_result(d1, h)) is Some,
        body_text(github_result(d2, h)) == Some(
            body_text(github_result(d1, h))->Some_0 + seq!['-', ' ', '[']
                + str_or(field(c, "message"@), seq![]) + seq![']', '(']
                + str_or(field(c, "url"@), seq![]) + seq![')', '\n'],
        ),
{
    reveal_strlit("body");
    reveal_strlit("digest");
    reveal_strlit("- [");
    reveal_strlit("](");
    reveal_strlit(")\n");
    assert("body"@ != "digest"@) by {
        assert("body"@.len() != "digest"@.len());
    }
    lemma_body_of_github(d1, h);
    lemma_body_of_github(d2, h);
    assert(cs.push(c).drop_last() =~= cs);
}

proof fn lemma_body_of_github(d: JsonValue, h: Seq<(Seq<char>, Seq<char>)>)
    requires
        assignable(d),
        header(h, "x-github-event"@) == Some("push"@),
    ensures
        body_text(github_result(d, h)) == Some(github_push_body(d)),
{
    reveal_strlit("body");
    reveal_strlit("digest");
    assert("body"@ != "digest"@) by {
        assert("body"@.len() != "digest"@.len());
    }
    let with_body = assign(d, "body"@, JsonValue::Str(github_push_body(d)));
    law_assign_then_field(d, "body"@, JsonValue::Str(github_push_body(d)), "body"@);
    if let Some(sig) = header(h, "x-hub-signature-256"@) {
        law_assign_then_field(
            with_body,
            "digest"@,
            JsonValue::Str(trim_start_matches(sig, "sha256="@)),
            "body"@,
        );
    }
}

/// Discord: a string `username` opens the body in bold, followed by `: ` and
/// the `content` when that is a string, else by a blank line; a `content`
/// without a `username` opens it alone.
pub proof fn law_discord_heading(d: JsonValue)
    ensures
        ({
            let head = match (text_of(field(d, "username"@)), text_of(field(d, "content"@))) {
                (Some(u), None) => seq!['*', '*'] + u + seq!['*', '*', '\n', '\n'],
                (Some(u), Some(t)) => seq!['*', '*'] + u + seq!['*', '*', ':', ' '] + t + seq!['\n', '\n'],
                (None, Some(t)) => t + seq!['\n', '\n'],
                (None, None) => seq![],
            };
            discord_body(d).len() >= head.len() && discord_body(d).subrange(0, head.len() as int) == head
        }),
{
    reveal_strlit("**");
    reveal_strlit("**\n\n");
    reveal_strlit("**: ");
    reveal_strlit("\n\n");
    let rest = match field(d, "embeds"@) {
        JsonValue::Array(es) => embed_texts(es),
        _ => seq![],
    };
    let head = discord_heading(d);
    assert(discord_body(d) == head + rest);
    assert((head + rest).subrange(0, head.len() as int) =~= head);
    match (text_of(field(d, "username"@)), text_of(field(d, "content"@))) {
        (Some(u), Some(t)) => {
            assert(head =~= seq!['*', '*'] + u + seq!['*', '*', ':', ' '] + t + seq!['\n', '\n']);
        },
        (Some(u), None) => {
            assert(head =~= seq!['*', '*'] + u + seq!['*', '*', '\n', '\n']);
        },
        (None, Some(t)) => {
            assert(head =~= t + seq!['\n', '\n']);
        },
        (None, None) => {},
    }
}

/// GitLab to Google Chat: the links are found with `<(.*?)\|(.*?)>`, whose two
/// groups are lazy, so that each `<url|label>` on a line is rewritten on its
/// own, and each becomes `[label](url)`; a string `body` is what is rewritten.
pub proof fn law_gitlab_gchat_lazy_links(d: JsonValue)
    ensures
        gitlab_gchat_result(d) == match text_of(field(d, "body"@)) {
            Some(b) => with_rewritten_body(
                d,
                regex_replace_all(
                    seq!['<', '(', '.', '*', '?', ')', '\\', '|', '(', '.', '*', '?', ')', '>'],
                    b,
                    seq!['[', '$', '2', ']', '(', '$', '1', ')'],
                ),
            ),
            None => d,
        },
{
    reveal_strlit("<(.*?)\\|(.*?)>");
    reveal_strlit("[$2]($1)");
    assert(slack_link_pattern() =~= seq!['<', '(', '.', '*', '?', ')', '\\', '|', '(', '.', '*', '?', ')', '>']);
    assert(markdown_link_template() =~= seq!['[', '$', '2', ']', '(', '$', '1', ')']);
}

/// Grafana v9+: every line break of the message is doubled. With all else
/// equal, one more character at the end of the message adds, before the
/// closing blank line, two line breaks for a line break and the character
/// itself for any other; an empty message leaves only the heading and the
/// closing blank line.
pub proof fn law_grafana_9x_doubles_every_line_break(
    d1: JsonValue,
    d2: JsonValue,
    m: Seq<char>,
    c: char,
)
    requires
        is_grafana_9x(d1),
        is_grafana_9x(d2),
        field(d2, "title"@) == field(d1, "title"@),
        field(d1, "message"@) == JsonValue::Str(m),
        field(d2, "message"@) == JsonValue::Str(m.push(c)),
    ensures
        body_text(grafana_result(d1)) matches Some(b1) && b1.len() >= 2 && b1.subrange(b1.len() - 2, b1.len() as int) == seq!['\n', '\n'],
        body_text(grafana_result(d2)) == Some(
            body_text(grafana_result(d1))->Some_0.subrange(0, body_text(grafana_result(d1))->Some_0.len() - 2)
                + (if c == '\n' { seq!['\n', '\n'] } else { seq![c] }) + seq!['\n', '\n'],
        ),
        m.len() == 0 ==> body_text(grafana_result(d1)) == Some(title_heading(d1) + seq!['\n', '\n']),
{
    reveal_strlit("\n\n");
    reveal_strlit("\n");
    lemma_body_of_grafana(d1);
    lemma_body_of_grafana(d2);
    let t = title_heading(d1);
    assert(title_heading(d2) == t);
    let r1 = replace_char(m, '\n', "\n\n"@);
    let r2 = replace_char(m.push(c), '\n', "\n\n"@);
    assert(m.push(c).drop_last() =~= m);
    let b1 = t + r1 + seq!['\n', '\n'];
    assert(grafana_9x_body(d1) =~= b1);
    assert(b1.subrange(0, b1.len() - 2) =~= t + r1);
    assert(b1.subrange(b1.len() - 2, b1.len() as int) =~= seq!['\n', '\n']);
    if c == '\n' {
        assert(grafana_9x_body(d2) =~= t + r1 + seq!['\n', '\n'] + seq!['\n', '\n']);
    } else {
        assert(grafana_9x_body(d2) =~= t + r1 + seq![c] + seq!['\n', '\n']);
    }
    if m.len() == 0 {
        assert(r1 =~= seq![]);
        assert(b1 =~= t + seq!['\n', '\n']);
    }
}

proof fn lemma_body_of_grafana(d: JsonValue)
    requires
        is_grafana_9x(d),
    ensures
        body_text(grafana_result(d)) == Some(grafana_9x_body(d)),
{
    assert(assignable(d));
    law_assign_then_field(d, "body"@, JsonValue::Str(grafana_9x_body(d)), "body"@);
}

} // verus!
