# nodeauth

Device-bound authentication for hysteria2 proxy nodes: accounts register with
an e-mail, a password and a device fingerprint, an administrator authorises
them (web console or Telegram buttons), and a login on an authorised device
yields a 64-hex device token that is written into every `password:
__NODE_TOKEN__` of the Clash subscription template and checked by the nodes'
auth callback. The desktop client keeps its session locally and renews the
token silently before it expires.

## Layout

- `src/` — the library, verified with Verus. Every decision of the server and
  of the client lives here with its contract: input checks, the login and
  device-limit rules, token expiry, subscription and configuration access, the
  hysteria2 callback with its online-IP limit, the administrator's sessions,
  the console's pages, the Telegram webhook, the notices, the configuration
  read from the environment, and the client's session status and renewal.
  The laws that span several calls are public proof functions named `law_*`.
  Calls into outside crates (chrono, argon2, rand, hex) go through small
  trusted wrappers whose contracts are documented where they stand.
- `tests/` — tests of the library on concrete values.
- `app/` — the server program (axum, SQLite through sqlx, SMTP through
  lettre, Telegram through reqwest) and the desktop client's file and HTTP
  plumbing. It reads, stores and sends; it decides nothing itself.

Verify with `verus` on `src/lib.rs` (crate type `lib`).
