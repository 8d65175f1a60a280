# matrix-webhook

A webhook receiver that forwards notifications to Matrix rooms, with its logic
verified by Verus.

- `src/` — the verified library:
  - `json.rs`: the JSON values that formatters read and write, their model
    `JsonValue`, field access with `serde_json`'s indexing semantics, and the
    compact JSON text of a value;
  - `parse.rs`: reading a JSON text with `serde_json`, level by level;
  - `text.rs`: string operations (split, join, replace, trimming, ordering);
  - `headers.rs`: request headers by name;
  - `auth.rs`: HMAC-SHA256 digest authentication;
  - `formatters/`: the built-in formatters (GitHub, Grafana, GitLab, Discord,
    GitHub Release Notifier, identity) and the registry that also holds Lua
    formatters;
  - `markdown.rs`: Markdown to HTML;
  - `config.rs`: settings, defaults and command-line precedence;
  - `matrix.rs`: the homeserver requests (URLs, payloads, credentials, joined
    rooms);
  - `webhook.rs`: the handling of a webhook request, step by step.
- `app/` — the server around it: command line and config files, the HTTP
  routes, the Matrix HTTP client, and the Lua runtime.
- `tests/` — tests of the library.
