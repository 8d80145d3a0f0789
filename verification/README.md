# imessage_rs

A verified library for an iMessage bridge server on macOS: it reads the
Messages database (`chat.db`), decodes message bodies, renders messages,
chats, handles and attachments as JSON for an HTTP API, plans what sending
a message, an attachment or a reaction does, and keeps the small caches the
server needs.  Every function in `src/` carries a `requires`/`ensures`
contract that Verus proves.

Layout:

- `src/` — the library, every item of it verified:
  - `typedstream.rs` decodes `attributedBody` archives; `stream_model.rs`
    states, as spec functions over the bytes, what a stream decodes to;
  - `markdown.rs`, `formatting.rs` turn markdown into clean text and
    formatting ranges;
  - `serialize.rs`, `serializers.rs`, `json.rs` render database rows as JSON;
  - `db.rs`, `repository.rs`, `statements.rs`, `queries.rs` build the SQL;
  - `sending.rs`, `chat_routes.rs`, `server_routes.rs`, `http.rs`,
    `responses.rs` decide what each HTTP route does;
  - `plist.rs`, `notifications.rs` read property lists (through the `plist`
    crate) and notification-center records;
  - `phone.rs`, `reactions.rs`, `downloads.rs`, `text.rs`, `clock.rs`
    reach outside crates and `std` through small trusted wrappers, each
    with a doc comment saying what its contract claims;
  - the remaining modules hold configuration, the watcher, webhooks, the
    private-API bridge and FaceTime/FindMy helpers.
- `tests/` — the tests, run against the compiled library.
- `app/` — the program around the library: command line, configuration
  files, the PID file and the macOS version check.

Laws that relate several functions are public proof functions named
`law_*`.
