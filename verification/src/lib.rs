//! The logic of a webhook receiver that forwards notifications to Matrix rooms:
//! authentication of requests (API key or HMAC-SHA256 digest), the choice of the
//! room, the formatters that turn service payloads into Markdown messages, the
//! Markdown rendering, and the requests made to the homeserver.
//!
//! Every function states its result over a mathematical model: JSON values as
//! `JsonValue`, strings as sequences of characters.

use vstd::prelude::*;

pub mod json;
pub mod parse;
pub mod text;
pub mod headers;
pub mod formatters;
pub mod auth;
pub mod markdown;
pub mod config;
pub mod matrix;
pub mod webhook;

verus! {

} // verus!
