# zendesk-cli (`zd`), verified core

`zd` reads and writes Zendesk ticket replies: public replies (customer-facing)
and internal notes (agent-only). This crate holds its logic, each function
proved against its contract; `app/` is the command line, HTTP and file access
around it.

Layout of `src/`:

- `idref.rs`   — resource IDs from a bare number or an agent URL, with the laws
  that the two forms are interchangeable;
- `config.rs`  — settings precedence (flag, environment, keychain, file), the
  config file merge, and the config file's location;
- `platform.rs` — the platform's config directory and the file joined to it;
- `keychain.rs` — the API token in the OS credential store, keyed by subdomain;
- `credential.rs` — opened entries and attempts on the store, each kept with its key;
- `client.rs`  — status filtering, pagination, request paths and bodies,
  percent-encoding, the auth header and API error messages;
- `output.rs`  — the human-readable text of every command;
- `cli.rs`     — reply visibility and body source, view and status choice,
  token masking and the config command texts;
- `models.rs`, `error.rs`, `text.rs` — records, errors and string building.
