# koauth

An authorising front for a Knockout City server. Every client connection that
opens with `POST /api/auth HTTP/1.1` is examined: the header block must be well
formed and declare a `content-length`, the JSON body must carry
`credentials.username` and `credentials.secret`, and the secret must equal the
password stored for the (lower-cased) username. A body that reaches past the
header buffer is read to its declared end. A login that passes is sent on to the
game server without its secret; a username that has no account gets one with the
secret it used, while a username whose stored password cannot be read counts as
taken. All other connections are relayed untouched.

Layout:

- `src/` — the verified library (Verus):
  - `text.rs` — decimal numbers, `usize` parsing, Unicode whitespace trimming;
  - `scan.rs` — byte search and cutting UTF-8 text at ASCII delimiters;
  - `headers.rs` — the header block of a login request;
  - `login.rs` — the JSON body: serde_json reads it one level at a time, the
    login rules and the removal of the secret are verified;
  - `responses.rs` — the refusals sent to clients;
  - `session.rs` — the per-connection state machine and its laws;
  - `config.rs` — settings, their defaults, and the game server's command line.
- `app/` — the program around it: command line, Postgres password store,
  starting the game server, and the tokio networking that drives `session::step`.
- `tests/` — tests of the library.
