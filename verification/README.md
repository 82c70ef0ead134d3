# tks

TKS Keeps Secrets: a per-user implementation of the freedesktop.org Secret Service API,
with its logic verified by Verus.

## Layout

- `src/` — the verified library.
  - `storage/` — collections and items, their attributes, the password-protected
    AES-256-GCM backend (`tks_gcm`) and the password-store backend.
  - `tks_dbus/` — the objects the service publishes (service, collections, items,
    sessions, prompts, known clients), their paths and the replies to D-Bus requests.
  - `kwallet.rs` — the plan of an import from a KWalletManager XML export.
  - `crypto.rs`, `ids.rs`, `text.rs`, `error.rs` — the calls into `openssl`, `uuid` and
    `rand`, identifiers, text helpers and the error type.
- `tests/` — tests of the library.
- `app/` — the program around it: the D-Bus server, configuration, files on disk,
  pinentry dialogs and the `tks-cli` command-line tool (run the binary under that name).
