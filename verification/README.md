# vortex_gui

The core of Vortex GUI, a local-first desktop client for VortexSSH, written in
Verus: every decision the client makes is an executable function with a
`requires`/`ensures` contract proved by Verus.

Layout:

- `src/` — the verified library.
  - `text` — whitespace, trimming, splitting, searching and decimal text.
  - `config` — stock cloud URLs and the system SSH launcher presets.
  - `error` — the errors the UI sees, including the 2FA link.
  - `crypto` — secrets at rest (AES-256-GCM) and the `.vortex` export format
    (`VRTX`, version, salt, Argon2id key, AES-256-GCM).
  - `models` — hosts, secrets, settings and the records exchanged with Core.
  - `db` — cloud merge and import plans, host upserts and moves, sealed
    secrets, and settings as key/value rows.
  - `api` — Core requests (targets, credentials, the zero-trust check on
    bodies, error mapping), tag resolution, billing paths, and the browser
    sign-in link and callback.
  - `discover` — the getjson mirror race and stock-URL detection.
  - `ssh` — the system launcher's arguments, the proxy handshake and failure
    meanings, SFTP paths and listings, authentication input, session
    parameters, and the order in which authentication methods are tried.
  - `commands` — what the UI's commands save, publish and connect to.
  - `master_key` — the database key's stored form and which copy is used.
- `tests/` — tests of the library on concrete values.
- `app/` — the Tauri shell: SQLite, HTTP, WebSockets, SSH and the file system,
  calling the library for every decision.

Calls into outside crates (`url`, `serde_json`, `aes-gcm`, `argon2`, `rand`,
`chrono`, `uuid`, `base64`, `hex`, `dirs`, `reqwest`'s status codes) go
through small trusted wrappers whose contracts are stated next to them.
