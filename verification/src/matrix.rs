use vstd::prelude::*;

use vstd::hash_set::StringHashSet;
use vstd::utf8::encode_utf8;

use crate::config::Settings;
use crate::json::{Json, JsonValue};
use crate::text::{push_str, trim_end_char, trim_end_char_str};

verus! {

// ---------------------------------------------------------------------------
// Percent-encoding of path segments
// ---------------------------------------------------------------------------

/// The bytes that `urlencoding` leaves as they are: ASCII letters and digits and
/// `-`, `.`, `_`, `~`.
pub open spec fn url_safe(b: u8) -> bool {
    ||| 48 <= b <= 57
    ||| 65 <= b <= 90
    ||| 97 <= b <= 122
    ||| b == 45
    ||| b == 46
    ||| b == 95
    ||| b == 126
}

/// The uppercase hexadecimal digit of `n < 16`.
pub open spec fn hex_upper_digit(n: u8) -> char {
    if n < 10 {
        (n + 48) as char
    } else {
        (n + 55) as char
    }
}

/// Every byte kept when safe, else written `%XY` in uppercase hexadecimal.
pub open spec fn percent_encode(bytes: Seq<u8>) -> Seq<char>
    decreases bytes.len(),
{
    if bytes.len() == 0 {
        seq![]
    } else {
        let b = bytes.last();
        percent_encode(bytes.drop_last()) + if url_safe(b) {
            seq![b as char]
        } else {
            seq!['%', hex_upper_digit(b / 16), hex_upper_digit(b % 16)]
        }
    }
}

/// Calls `urlencoding::encode`, which percent-encodes every byte of the UTF-8
/// text except ASCII alphanumerics and `-`, `_`, `.`, `~`, with uppercase hex.
#[verifier::external_body]
fn url_encode(s: &str) -> (r: String)
    ensures
        r@ == percent_encode(encode_utf8(s@)),
{
    urlencoding::encode(s).into_owned()
}

// ---------------------------------------------------------------------------
// Transaction identifiers
// ---------------------------------------------------------------------------

pub open spec fn is_lower_hex(c: char) -> bool {
    ('0' <= c <= '9') || ('a' <= c <= 'f')
}

/// The text of a random (version 4, RFC 4122 variant) UUID: 36 characters,
/// hyphens at 8, 13, 18 and 23, lowercase hex elsewhere, version digit `4` and a
/// variant digit among `8`, `9`, `a`, `b`.
pub open spec fn is_uuid_v4_text(s: Seq<char>) -> bool {
    &&& s.len() == 36
    &&& forall|i: int|
        0 <= i < 36 ==> if i == 8 || i == 13 || i == 18 || i == 23 {
            #[trigger] s[i] == '-'
        } else {
            is_lower_hex(s[i])
        }
    &&& s[14] == '4'
    &&& (s[19] == '8' || s[19] == '9' || s[19] == 'a' || s[19] == 'b')
}

/// Calls `uuid::Uuid::new_v4()` and formats it (hyphenated, lowercase). The
/// value is random: only its shape is claimed.
#[verifier::external_body]
fn new_transaction_id() -> (r: String)
    ensures
        is_uuid_v4_text(r@),
{
    uuid::Uuid::new_v4().to_string()
}

// ---------------------------------------------------------------------------
// Client-server API requests
// ---------------------------------------------------------------------------

/// The homeserver URL without trailing slashes.
pub fn base_url(matrix_url: &str) -> (r: String)
    ensures
        r@ == trim_end_char(matrix_url@, '/'),
{
    trim_end_char_str(matrix_url, '/')
}

pub open spec fn send_url(base: Seq<char>, room_id: Seq<char>, txn_id: Seq<char>) -> Seq<char> {
    base + "/_matrix/client/v3/rooms/"@ + percent_encode(encode_utf8(room_id)) + "/send/m.room.message/"@
        + txn_id
}

pub open spec fn join_url(base: Seq<char>, room_id: Seq<char>) -> Seq<char> {
    base + "/_matrix/client/v3/join/"@ + percent_encode(encode_utf8(room_id))
}

pub open spec fn login_url(matrix_url: Seq<char>) -> Seq<char> {
    trim_end_char(matrix_url, '/') + "/_matrix/client/v3/login"@
}

/// The URL that sends a message with transaction `txn_id` to a room.
pub fn message_url(base: &str, room_id: &str, txn_id: &str) -> (r: String)
    ensures
        r@ == send_url(base@, room_id@, txn_id@),
{
    let mut url = String::new();
    push_str(&mut url, base);
    push_str(&mut url, "/_matrix/client/v3/rooms/");
    let room = url_encode(room_id);
    push_str(&mut url, room.as_str());
    push_str(&mut url, "/send/m.room.message/");
    push_str(&mut url, txn_id);
    assert(url@ =~= send_url(base@, room_id@, txn_id@));
    url
}

/// The URL that joins a room.
pub fn room_join_url(base: &str, room_id: &str) -> (r: String)
    ensures
        r@ == join_url(base@, room_id@),
{
    let mut url = String::new();
    push_str(&mut url, base);
    push_str(&mut url, "/_matrix/client/v3/join/");
    let room = url_encode(room_id);
    push_str(&mut url, room.as_str());
    assert(url@ =~= join_url(base@, room_id@));
    url
}

/// The URL of the password login.
pub fn password_login_url(matrix_url: &str) -> (r: String)
    ensures
        r@ == login_url(matrix_url@),
{
    let mut url = base_url(matrix_url);
    push_str(&mut url, "/_matrix/client/v3/login");
    url
}

fn text_entry(key: &str, value: String) -> (r: (String, Json))
    ensures
        r.0@ == key@,
        r.1.model() == JsonValue::Str(value@),
{
    (String::from_str(key), Json::Str(value))
}

pub open spec fn message_payload_model(msgtype: Seq<char>, body: Seq<char>, html: Seq<char>) -> JsonValue {
    JsonValue::Object(
        seq![
            ("msgtype"@, JsonValue::Str(msgtype)),
            ("body"@, JsonValue::Str(body)),
            ("format"@, JsonValue::Str("org.matrix.custom.html"@)),
            ("formatted_body"@, JsonValue::Str(html)),
        ],
    )
}

/// The event content of a message with a plain and an HTML body.
pub fn message_payload(msgtype: &str, body: &str, html: &str) -> (r: Json)
    ensures
        r.model() == message_payload_model(msgtype@, body@, html@),
{
    let mut entries: Vec<(String, Json)> = Vec::new();
    entries.push(text_entry("msgtype", String::from_str(msgtype)));
    entries.push(text_entry("body", String::from_str(body)));
    entries.push(text_entry("format", String::from_str("org.matrix.custom.html")));
    entries.push(text_entry("formatted_body", String::from_str(html)));
    proof {
        Json::lemma_object_model(entries);
        assert(crate::json::entries_model(entries@) =~= message_payload_model(msgtype@, body@, html@)->Object_0);
    }
    Json::Object(entries)
}

pub open spec fn login_payload_model(user_id: Seq<char>, password: Seq<char>) -> JsonValue {
    JsonValue::Object(
        seq![
            ("type"@, JsonValue::Str("m.login.password"@)),
            (
                "identifier"@,
                JsonValue::Object(
                    seq![("type"@, JsonValue::Str("m.id.user"@)), ("user"@, JsonValue::Str(user_id))],
                ),
            ),
            ("password"@, JsonValue::Str(password)),
        ],
    )
}

/// The body of a password login.
pub fn login_payload(user_id: &str, password: &str) -> (r: Json)
    ensures
        r.model() == login_payload_model(user_id@, password@),
{
    let mut ident: Vec<(String, Json)> = Vec::new();
    ident.push(text_entry("type", String::from_str("m.id.user")));
    ident.push(text_entry("user", String::from_str(user_id)));
    proof {
        Json::lemma_object_model(ident);
    }
    let ghost im = crate::json::entries_model(ident@);
    let identifier = Json::Object(ident);
    let mut entries: Vec<(String, Json)> = Vec::new();
    entries.push(text_entry("type", String::from_str("m.login.password")));
    entries.push((String::from_str("identifier"), identifier));
    entries.push(text_entry("password", String::from_str(password)));
    proof {
        Json::lemma_object_model(entries);
        assert(im =~= login_payload_model(user_id@, password@)->Object_0[1].1->Object_0);
        assert(crate::json::entries_model(entries@) =~= login_payload_model(user_id@, password@)->Object_0);
    }
    Json::Object(entries)
}

/// `body["access_token"].as_str()` of a login response.
pub fn access_token(response: &Json) -> (r: Option<String>)
    ensures
        r matches Some(t) ==> crate::json::text_of(crate::json::field(response.model(), "access_token"@)) == Some(t@),
        r is None ==> crate::json::text_of(crate::json::field(response.model(), "access_token"@)) is None,
{
    match response.get_str("access_token") {
        Some(t) => Some(String::from_str(t)),
        None => None,
    }
}

/// A request to the homeserver: where to send it and what.
pub struct MatrixRequest {
    pub url: String,
    pub payload: Json,
}

/// The request that sends a message to a room, under a fresh random
/// transaction id.
pub fn send_message_request(base: &str, room_id: &str, body: &str, html_body: &str, msgtype: &str) -> (r: MatrixRequest)
    ensures
        exists|txn: Seq<char>| is_uuid_v4_text(txn) && r.url@ == send_url(base@, room_id@, txn),
        r.payload.model() == message_payload_model(msgtype@, body@, html_body@),
{
    let txn_id = new_transaction_id();
    let url = message_url(base, room_id, txn_id.as_str());
    MatrixRequest { url, payload: message_payload(msgtype, body, html_body) }
}

// ---------------------------------------------------------------------------
// Credentials and joined rooms
// ---------------------------------------------------------------------------

/// How the bot authenticates to the homeserver.
pub enum Credentials {
    /// A pre-existing access token.
    Token(String),
    /// A password that a login exchanges for a token.
    Password(String),
    /// Neither was configured.
    Missing,
}

/// The token when one is configured, else the password, else nothing.
pub fn credentials(settings: &Settings) -> (r: Credentials)
    ensures
        match (settings.matrix_token, settings.matrix_pw) {
            (Some(t), _) => r matches Credentials::Token(x) && x@ == t@,
            (None, Some(p)) => r matches Credentials::Password(x) && x@ == p@,
            (None, None) => r is Missing,
        },
{
    match &settings.matrix_token {
        Some(t) => Credentials::Token(t.clone()),
        None => match &settings.matrix_pw {
            Some(p) => Credentials::Password(p.clone()),
            None => Credentials::Missing,
        },
    }
}

/// The rooms that the bot has joined, so that each is joined once: a
/// `HashSet<String>` (vstd's `StringHashSet`), viewed as a set of room ids.
pub struct JoinedRooms {
    rooms: StringHashSet,
}

impl View for JoinedRooms {
    type V = Set<Seq<char>>;

    closed spec fn view(&self) -> Set<Seq<char>> {
        self.rooms@
    }
}

impl JoinedRooms {
    pub fn new() -> (r: JoinedRooms)
        ensures
            r@ == Set::<Seq<char>>::empty(),
    {
        JoinedRooms { rooms: StringHashSet::new() }
    }

    pub fn contains(&self, room_id: &str) -> (r: bool)
        ensures
            r == self@.contains(room_id@),
    {
        self.rooms.contains(room_id)
    }

    /// Records a successful join.
    pub fn insert(&mut self, room_id: String)
        ensures
            final(self)@ == old(self)@.insert(room_id@),
    {
        self.rooms.insert(room_id);
    }

    /// Whether the room must be joined before a message is sent to it: only
    /// when it has not been joined yet.
    pub fn join_needed(&self, room_id: &str) -> (r: bool)
        ensures
            r == join_needed_in(self@, room_id@),
    {
        !self.contains(room_id)
    }

    /// Records the outcome of a join: a room joined is remembered, a failed
    /// join leaves the rooms as they were.
    pub fn record_join(&mut self, room_id: String, joined: bool)
        ensures
            final(self)@ == rooms_after_join(old(self)@, room_id@, joined),
    {
        if joined {
            self.insert(room_id);
        }
    }
}

pub open spec fn join_needed_in(rooms: Set<Seq<char>>, room_id: Seq<char>) -> bool {
    !rooms.contains(room_id)
}

pub open spec fn rooms_after_join(rooms: Set<Seq<char>>, room_id: Seq<char>, joined: bool) -> Set<Seq<char>> {
    if joined {
        rooms.insert(room_id)
    } else {
        rooms
    }
}

/// Each room is joined once: after a successful join no join of that room is
/// needed again, whatever is joined afterwards; after a failed one the join is
/// still needed, so the next message tries again.
pub proof fn law_join_once(rooms: Set<Seq<char>>, room_id: Seq<char>, other: Seq<char>, joined_other: bool)
    ensures
        !join_needed_in(rooms_after_join(rooms_after_join(rooms, room_id, true), other, joined_other), room_id),
        join_needed_in(rooms, room_id) ==> join_needed_in(rooms_after_join(rooms, room_id, false), room_id),
{
}

} // verus!
