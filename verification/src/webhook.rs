use vstd::prelude::*;

use vstd::utf8::encode_utf8;

use crate::auth::{expected_digest, verify_hmac};
use crate::formatters::{builtin_result, builtin_writes_fields, Applied, FormatterKind, FormatterRegistry};
use crate::headers::Headers;
use crate::json::{assign, assignable, field, has_field, lookup, removed, str_or, text_of, without, Json, JsonValue, law_assign_then_field, law_without_field};
use crate::markdown::{commonmark_html, to_html};
use crate::parse::{parse_json, parsed_json};
use crate::text::str_eq;

verus! {

// ---------------------------------------------------------------------------
// Replies
// ---------------------------------------------------------------------------

/// Why a webhook request is answered with an error.
#[derive(Clone, Copy, PartialEq, Eq, Structural, Debug)]
pub enum WebhookError {
    InvalidJson,
    Unauthorized,
    MissingRoomId,
    FormatterFailed,
    MissingBody,
    SendFailed,
}

pub open spec fn error_status(e: WebhookError) -> u16 {
    match e {
        WebhookError::InvalidJson => 400,
        WebhookError::Unauthorized => 401,
        WebhookError::MissingRoomId => 400,
        WebhookError::FormatterFailed => 500,
        WebhookError::MissingBody => 400,
        WebhookError::SendFailed => 500,
    }
}

pub open spec fn error_message(e: WebhookError) -> Seq<char> {
    match e {
        WebhookError::InvalidJson => "Invalid JSON body"@,
        WebhookError::Unauthorized => "Unauthorized"@,
        WebhookError::MissingRoomId => "Missing room_id"@,
        WebhookError::FormatterFailed => "Formatter error"@,
        WebhookError::MissingBody => "Missing 'body' field in message"@,
        WebhookError::SendFailed => "Failed to send message to Matrix"@,
    }
}

impl WebhookError {
    pub fn status(&self) -> (r: u16)
        ensures
            r == error_status(*self),
    {
        match self {
            WebhookError::InvalidJson => 400,
            WebhookError::Unauthorized => 401,
            WebhookError::MissingRoomId => 400,
            WebhookError::FormatterFailed => 500,
            WebhookError::MissingBody => 400,
            WebhookError::SendFailed => 500,
        }
    }

    pub fn message(&self) -> (r: &'static str)
        ensures
            r@ == error_message(*self),
    {
        match self {
            WebhookError::InvalidJson => "Invalid JSON body",
            WebhookError::Unauthorized => "Unauthorized",
            WebhookError::MissingRoomId => "Missing room_id",
            WebhookError::FormatterFailed => "Formatter error",
            WebhookError::MissingBody => "Missing 'body' field in message",
            WebhookError::SendFailed => "Failed to send message to Matrix",
        }
    }
}

/// An HTTP reply: a status and a JSON body.
pub struct Reply {
    pub status: u16,
    pub body: Json,
}

/// `{"<key>": "<text>"}`.
pub open spec fn single_entry(key: Seq<char>, text: Seq<char>) -> JsonValue {
    JsonValue::Object(seq![(key, JsonValue::Str(text))])
}

fn single_entry_object(key: &str, text: &str) -> (r: Json)
    ensures
        r.model() == single_entry(key@, text@),
{
    Json::Null.set(key, Json::Str(String::from_str(text)))
}

/// The reply for an error: its status and `{"error": message}`.
pub fn err(e: WebhookError) -> (r: Reply)
    ensures
        r.status == error_status(e),
        r.body.model() == single_entry("error"@, error_message(e)),
{
    Reply { status: e.status(), body: single_entry_object("error", e.message()) }
}

/// The reply once the message is delivered: 200 and `{"status": "ok"}`.
pub fn delivered() -> (r: Reply)
    ensures
        r.status == 200,
        r.body.model() == single_entry("status"@, "ok"@),
{
    Reply { status: 200, body: single_entry_object("status", "ok") }
}

// ---------------------------------------------------------------------------
// The request and what becomes of it
// ---------------------------------------------------------------------------

/// A webhook request, as the HTTP layer hands it over.
pub struct WebhookRequest {
    /// `room_id` from the URL path (`POST /{room_id}`)
    pub path_room_id: Option<String>,
    /// `room_id` from the query string
    pub query_room_id: Option<String>,
    /// `key` from the query string
    pub query_key: Option<String>,
    /// `formatter` from the query string
    pub query_formatter: Option<String>,
    /// The request headers, by lowercase name
    pub headers: Headers,
    /// The raw request body
    pub raw_body: Vec<u8>,
}

/// The message to send to a room.
pub struct Delivery {
    pub room_id: String,
    pub body: String,
    pub html_body: String,
    pub msgtype: String,
}

/// What to do next with a request.
pub enum WebhookStep {
    /// Answer now.
    Reply(Reply),
    /// The formatter is a Lua script: run it on the data and headers, then go on
    /// with `after_formatter`.
    RunScript { room_id: String, script: String, data: Json, headers: Headers },
    /// Send the message, then answer with `after_delivery`.
    Send(Delivery),
    /// The named built-in formatter cannot write a field into this data (it is
    /// neither an object nor `null`): serde_json panics there, and the request
    /// is abandoned without a reply.
    Abort,
}

/// The model of a step.
pub enum StepModel {
    Reply(u16, JsonValue),
    RunScript(Seq<char>, Seq<char>, JsonValue, Seq<(Seq<char>, Seq<char>)>),
    Send(Seq<char>, Seq<char>, Seq<char>, Seq<char>),
    Abort,
}

impl WebhookStep {
    pub open spec fn model(self) -> StepModel {
        match self {
            WebhookStep::Reply(r) => StepModel::Reply(r.status, r.body.model()),
            WebhookStep::RunScript { room_id, script, data, headers } => StepModel::RunScript(
                room_id@,
                script@,
                data.model(),
                headers@,
            ),
            WebhookStep::Send(d) => StepModel::Send(d.room_id@, d.body@, d.html_body@, d.msgtype@),
            WebhookStep::Abort => StepModel::Abort,
        }
    }
}

pub open spec fn error_step(e: WebhookError) -> StepModel {
    StepModel::Reply(error_status(e), single_entry("error"@, error_message(e)))
}

pub open spec fn opt_view(o: Option<String>) -> Option<Seq<char>> {
    match o {
        Some(s) => Some(s@),
        None => None,
    }
}

/// Authentication: a string `key` in the body, else the `key` of the query,
/// must equal the API key; without either, a string `digest` in the body must be
/// the HMAC-SHA256 digest of the raw body; without that, the request fails.
pub open spec fn authenticated(
    data: JsonValue,
    query_key: Option<Seq<char>>,
    raw_body: Seq<u8>,
    api_key: Seq<char>,
) -> bool {
    match text_of(field(data, "key"@)) {
        Some(k) => k == api_key,
        None => match query_key {
            Some(k) => k == api_key,
            None => match text_of(field(data, "digest"@)) {
                Some(d) => d == expected_digest(raw_body, encode_utf8(api_key)),
                None => false,
            },
        },
    }
}

/// The data without the credentials, so that formatters never see them.
pub open spec fn without_credentials(d: JsonValue) -> JsonValue {
    without(without(d, "key"@), "digest"@)
}

/// The room: from the path, else from the query, else a string `room_id` field.
pub open spec fn chosen_room(
    path_room_id: Option<Seq<char>>,
    query_room_id: Option<Seq<char>>,
    d: JsonValue,
) -> Option<Seq<char>> {
    match path_room_id {
        Some(r) => Some(r),
        None => match query_room_id {
            Some(r) => Some(r),
            None => text_of(field(d, "room_id"@)),
        },
    }
}

/// The legacy `text` field is taken out and becomes `body` unless there is one.
pub open spec fn with_text_as_body(d: JsonValue) -> JsonValue {
    match removed(d, "text"@) {
        Some(t) => {
            let rest = without(d, "text"@);
            if has_field(rest, "body"@) {
                rest
            } else {
                assign(rest, "body"@, t)
            }
        },
        None => d,
    }
}

/// The formatter: from the query, else a string `formatter` field.
pub open spec fn chosen_formatter(query_formatter: Option<Seq<char>>, d: JsonValue) -> Option<Seq<char>> {
    match query_formatter {
        Some(f) => Some(f),
        None => text_of(field(d, "formatter"@)),
    }
}

/// After formatting: a string `body` is sent, with its HTML rendering and the
/// `msgtype` (default `m.text`); without one the request fails.
pub open spec fn delivery_step(room: Seq<char>, formatted: JsonValue) -> StepModel {
    match text_of(field(formatted, "body"@)) {
        Some(body) => StepModel::Send(
            room,
            body,
            commonmark_html(body, true, true),
            str_or(field(formatted, "msgtype"@), "m.text"@),
        ),
        None => error_step(WebhookError::MissingBody),
    }
}

/// Formatting with the chosen formatter, if any.
pub open spec fn formatting_step(
    room: Seq<char>,
    d: JsonValue,
    name: Option<Seq<char>>,
    h: Seq<(Seq<char>, Seq<char>)>,
    registry: Seq<(Seq<char>, FormatterKind)>,
) -> StepModel {
    match name {
        None => delivery_step(room, d),
        Some(n) => match lookup(registry, n) {
            Some(FormatterKind::Builtin(b)) => if builtin_writes_fields(b) && !assignable(d) {
                StepModel::Abort
            } else {
                delivery_step(room, builtin_result(b, d, h))
            },
            Some(FormatterKind::Lua(script)) => StepModel::RunScript(room, script, d, h),
            None => delivery_step(room, d),
        },
    }
}

/// What becomes of a webhook request.
pub open spec fn webhook_step(
    req: WebhookRequest,
    api_key: Seq<char>,
    registry: Seq<(Seq<char>, FormatterKind)>,
) -> StepModel {
    match parsed_json(req.raw_body@) {
        None => error_step(WebhookError::InvalidJson),
        Some(d) => {
            if !authenticated(d, opt_view(req.query_key), req.raw_body@, api_key) {
                error_step(WebhookError::Unauthorized)
            } else {
                let d1 = without_credentials(d);
                match chosen_room(opt_view(req.path_room_id), opt_view(req.query_room_id), d1) {
                    None => error_step(WebhookError::MissingRoomId),
                    Some(room) => {
                        let d2 = with_text_as_body(d1);
                        formatting_step(
                            room,
                            d2,
                            chosen_formatter(opt_view(req.query_formatter), d2),
                            req.headers@,
                            registry,
                        )
                    },
                }
            }
        },
    }
}

// ---------------------------------------------------------------------------
// Laws
// ---------------------------------------------------------------------------

/// A request whose body is JSON is answered 401 Unauthorized exactly when it
/// does not authenticate; nothing else is answered so.
pub proof fn law_unauthorized_iff_not_authenticated(
    req: WebhookRequest,
    api_key: Seq<char>,
    registry: Seq<(Seq<char>, FormatterKind)>,
)
    requires
        parsed_json(req.raw_body@) is Some,
    ensures
        (webhook_step(req, api_key, registry) == error_step(WebhookError::Unauthorized)) == !authenticated(
            parsed_json(req.raw_body@)->Some_0,
            opt_view(req.query_key),
            req.raw_body@,
            api_key,
        ),
{
}

/// The formatter can be named in the body as well as in the query: a request
/// whose body has a string `formatter` field and whose query names none goes
/// exactly as the same request with that name in the query.
pub proof fn law_formatter_from_body(
    req1: WebhookRequest,
    req2: WebhookRequest,
    api_key: Seq<char>,
    registry: Seq<(Seq<char>, FormatterKind)>,
)
    requires
        req1.raw_body@ == req2.raw_body@,
        req1.path_room_id == req2.path_room_id,
        req1.query_room_id == req2.query_room_id,
        req1.query_key == req2.query_key,
        req1.headers@ == req2.headers@,
        req1.query_formatter is None,
        req2.query_formatter matches Some(n) && parsed_json(req1.raw_body@) matches Some(d) && text_of(
            field(d, "formatter"@),
        ) == Some(n@),
    ensures
        webhook_step(req1, api_key, registry) == webhook_step(req2, api_key, registry),
{
    let d = parsed_json(req1.raw_body@)->Some_0;
    reveal_strlit("formatter");
    reveal_strlit("key");
    reveal_strlit("digest");
    reveal_strlit("text");
    reveal_strlit("body");
    let f = "formatter"@;
    assert(f != "key"@ && f != "digest"@ && f != "text"@ && f != "body"@) by {
        assert(f.len() != "key"@.len() && f.len() != "digest"@.len());
        assert(f.len() != "text"@.len() && f.len() != "body"@.len());
    }
    law_without_field(d, "key"@, f);
    let d0 = without(d, "key"@);
    law_without_field(d0, "digest"@, f);
    let d1 = without_credentials(d);
    law_without_field(d1, "text"@, f);
    let rest = without(d1, "text"@);
    if let Some(t) = removed(d1, "text"@) {
        if !has_field(rest, "body"@) {
            assert(rest is Object) by {
                if let JsonValue::Object(es) = d1 {
                } else {
                    assert(removed(d1, "text"@) is None);
                }
            }
            law_assign_then_field(rest, "body"@, t, f);
        }
    }
    assert(field(with_text_as_body(d1), f) == field(d, f));
}

/// The room of a message that goes on (sent or handed to a Lua formatter) is
/// the one of the path when given, else the one of the query when given.
pub proof fn law_room_precedence(
    req: WebhookRequest,
    api_key: Seq<char>,
    registry: Seq<(Seq<char>, FormatterKind)>,
)
    ensures
        ({
            let step = webhook_step(req, api_key, registry);
            let room = match step {
                StepModel::Send(r, _, _, _) => Some(r),
                StepModel::RunScript(r, _, _, _) => Some(r),
                _ => None,
            };
            room is Some ==> match (req.path_room_id, req.query_room_id) {
                (Some(p), _) => room == Some(p@),
                (None, Some(q)) => room == Some(q@),
                (None, None) => true,
            }
        }),
{
}

/// The legacy `text` field: it is gone afterwards; it becomes the `body` of an
/// object that has none, and an existing `body` is kept as it was.
pub proof fn law_text_alias(d: JsonValue)
    ensures
        !has_field(with_text_as_body(d), "text"@),
        has_field(d, "body"@) ==> field(with_text_as_body(d), "body"@) == field(d, "body"@),
        !has_field(d, "body"@) ==> (removed(d, "text"@) matches Some(t) ==> field(with_text_as_body(d), "body"@) == t),
{
    reveal_strlit("text");
    reveal_strlit("body");
    assert("text"@ != "body"@) by {
        assert("text"@[0] != "body"@[0]);
    }
    law_without_field(d, "text"@, "body"@);
    if let Some(t) = removed(d, "text"@) {
        let rest = without(d, "text"@);
        if !has_field(rest, "body"@) {
            law_assign_then_field(rest, "body"@, t, "text"@);
            assign_keeps_absent(rest, "body"@, t, "text"@);
        }
    } else {
        if let JsonValue::Object(es) = d {
            crate::json::lemma_remove_absent(es, "text"@);
        }
    }
}

/// Assigning one field adds no other field.
proof fn assign_keeps_absent(v: JsonValue, k: Seq<char>, x: JsonValue, other: Seq<char>)
    requires
        assignable(v),
        other != k,
        !has_field(v, other),
    ensures
        !has_field(assign(v, k, x), other),
{
    match v {
        JsonValue::Object(es) => {
            crate::json::lemma_set_entry_lookup(es, k, x, other);
            crate::json::lemma_first_key(es, other);
            crate::json::lemma_first_key(crate::json::set_entry(es, k, x), other);
        },
        _ => {
            let s: Seq<(Seq<char>, JsonValue)> = seq![(k, x)];
            assert(!crate::json::has_key(s, other)) by {
                if crate::json::has_key(s, other) {
                    let i = choose|i: int| 0 <= i < s.len() && (#[trigger] s[i]).0 == other;
                    assert(s[i].0 == k);
                }
            }
        },
    }
}

/// Formatters never see the credentials: the data that a formatter (built-in
/// or Lua) is given has no `key` and no `digest` field.
pub proof fn law_formatters_never_see_credentials(d0: JsonValue)
    ensures
        !has_field(with_text_as_body(without_credentials(d0)), "key"@),
        !has_field(with_text_as_body(without_credentials(d0)), "digest"@),
{
    let d1 = without_credentials(d0);
    reveal_strlit("key");
    reveal_strlit("digest");
    reveal_strlit("text");
    reveal_strlit("body");
    assert("key"@ != "digest"@ && "text"@ != "key"@ && "text"@ != "digest"@ && "body"@ != "key"@ && "body"@ != "digest"@) by {
        assert("key"@.len() != "digest"@.len());
        assert("text"@[0] != "key"@[0] && "text"@[0] != "digest"@[0]);
        assert("body"@[0] != "key"@[0] && "body"@[0] != "digest"@[0]);
    }
    law_without_field(d0, "key"@, "digest"@);
    law_without_field(without(d0, "key"@), "digest"@, "key"@);
    let rest = without(d1, "text"@);
    law_without_field(d1, "text"@, "key"@);
    law_without_field(d1, "text"@, "digest"@);
    if let Some(t) = removed(d1, "text"@) {
        if !has_field(rest, "body"@) {
            assign_keeps_absent(rest, "body"@, t, "key"@);
            assign_keeps_absent(rest, "body"@, t, "digest"@);
        }
    } else {
        if let JsonValue::Object(es) = d1 {
            crate::json::lemma_remove_absent(es, "text"@);
        }
    }
}

/// In particular, the data handed to a Lua formatter holds no credentials.
pub proof fn law_scripts_never_see_credentials(
    req: WebhookRequest,
    api_key: Seq<char>,
    registry: Seq<(Seq<char>, FormatterKind)>,
)
    ensures
        webhook_step(req, api_key, registry) matches StepModel::RunScript(_, _, d, _) ==> !has_field(d, "key"@)
            && !has_field(d, "digest"@),
{
    if let Some(d) = parsed_json(req.raw_body@) {
        law_formatters_never_see_credentials(d);
    }
}

// ---------------------------------------------------------------------------
// Handling
// ---------------------------------------------------------------------------

fn authenticate(data: &Json, query_key: &Option<String>, raw_body: &Vec<u8>, api_key: &str) -> (r: bool)
    ensures
        r == authenticated(data.model(), opt_view(*query_key), raw_body@, api_key@),
{
    match data.get_str("key") {
        Some(k) => str_eq(k, api_key),
        None => match query_key {
            Some(k) => str_eq(k.as_str(), api_key),
            None => match data.get_str("digest") {
                Some(d) => verify_hmac(raw_body.as_slice(), api_key, d),
                None => false,
            },
        },
    }
}

fn move_text_to_body(data: Json) -> (r: Json)
    ensures
        r.model() == with_text_as_body(data.model()),
{
    let (rest, text) = data.remove("text");
    match text {
        Some(t) => if rest.get("body").is_some() {
            rest
        } else {
            rest.set("body", t)
        },
        None => {
            proof {
                if let JsonValue::Object(es) = data.model() {
                    crate::json::lemma_remove_absent(es, "text"@);
                }
            }
            rest
        },
    }
}

/// Going on once the data is formatted.
fn deliver(room_id: String, formatted: Json) -> (r: WebhookStep)
    ensures
        r.model() == delivery_step(room_id@, formatted.model()),
{
    match formatted.get_str("body") {
        Some(b) => {
            let html_body = to_html(b);
            let msgtype = match formatted.get_str("msgtype") {
                Some(m) => String::from_str(m),
                None => String::from_str("m.text"),
            };
            WebhookStep::Send(Delivery { room_id, body: String::from_str(b), html_body, msgtype })
        },
        None => WebhookStep::Reply(err(WebhookError::MissingBody)),
    }
}

/// Going on after a Lua formatter ran: its result, or `None` when it failed.
pub fn after_formatter(room_id: String, formatted: Option<Json>) -> (r: WebhookStep)
    ensures
        r.model() == match formatted {
            Some(f) => delivery_step(room_id@, f.model()),
            None => error_step(WebhookError::FormatterFailed),
        },
{
    match formatted {
        Some(f) => deliver(room_id, f),
        None => WebhookStep::Reply(err(WebhookError::FormatterFailed)),
    }
}

/// The reply once the homeserver has taken the message, or refused it.
pub fn after_delivery(sent: bool) -> (r: Reply)
    ensures
        sent ==> r.status == 200 && r.body.model() == single_entry("status"@, "ok"@),
        !sent ==> r.status == error_status(WebhookError::SendFailed) && r.body.model() == single_entry(
            "error"@,
            error_message(WebhookError::SendFailed),
        ),
{
    if sent {
        delivered()
    } else {
        err(WebhookError::SendFailed)
    }
}

/// Handles a webhook request up to the first step that needs the outside
/// world: the reply, the Lua formatter to run, or the message to send.
pub fn handle_webhook(req: WebhookRequest, api_key: &str, registry: &FormatterRegistry) -> (r: WebhookStep)
    ensures
        r.model() == webhook_step(req, api_key@, registry@),
{
    let WebhookRequest { path_room_id, query_room_id, query_key, query_formatter, headers, raw_body } = req;
    // 1. Parse JSON
    let data = match parse_json(raw_body.as_slice()) {
        Some(d) => d,
        None => return WebhookStep::Reply(err(WebhookError::InvalidJson)),
    };
    // 2. Authenticate
    if !authenticate(&data, &query_key, &raw_body, api_key) {
        return WebhookStep::Reply(err(WebhookError::Unauthorized));
    }
    // Strip auth fields so formatters never see them.
    let (data, _) = data.remove("key");
    let (data, _) = data.remove("digest");
    // 3. Resolve room_id (path > query > body)
    let room_id = match path_room_id {
        Some(r) => r,
        None => match query_room_id {
            Some(r) => r,
            None => match data.get_str("room_id") {
                Some(r) => String::from_str(r),
                None => return WebhookStep::Reply(err(WebhookError::MissingRoomId)),
            },
        },
    };
    // 4. Legacy 'text' field alias
    let data = move_text_to_body(data);
    // 5. Apply formatter (query > body)
    let formatter_name = match query_formatter {
        Some(f) => Some(f),
        None => match data.get_str("formatter") {
            Some(f) => Some(String::from_str(f)),
            None => None,
        },
    };
    match formatter_name {
        None => deliver(room_id, data),
        Some(name) => {
            if registry.writes_fields(name.as_str()) && !data.is_assignable() {
                return WebhookStep::Abort;
            }
            match registry.apply(name.as_str(), data, &headers) {
                Applied::Formatted(formatted) => deliver(room_id, formatted),
                Applied::Script(script, data) => WebhookStep::RunScript { room_id, script, data, headers },
            }
        },
    }
}

} // verus!
