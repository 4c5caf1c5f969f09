# talky

The logic of the Talky note-taking application, verified with Verus: its
settings record and the commands that edit it, the decisions taken at
startup and on window events, and the loopback OAuth 2.1 server (dynamic
client registration, consent, PKCE, rotating refresh tokens, bearer checks)
that guards its MCP endpoint.

- `src/` — the verified library. `settings` (the settings record, its
  defaults and migrations), `commands` (what the interface's commands do to
  it, the developer report mail, Ollama, moving user data), `startup`
  (upgrade detection, log filter, pill placement, window and tray events),
  `mcp` (server status and reconciliation, note visibility and the MCP
  tools), `mcp::oauth` (tables, consent registry, endpoints, tokens), and
  the shared `text`, `json` and `ids` helpers. Calls into `uuid`, `chrono`,
  `rand`, `sha2`, `base64`, `url`, `serde_json` and `jsonwebtoken` (token
  encoding and the decoding of the `Authorization` header) sit behind small
  trusted wrappers whose contracts are documented where they are declared.
  The OAuth guarantees are proved as laws beside the endpoints: only
  loopback redirect URIs are registered, authorization needs PKCE S256,
  codes and refresh tokens are single-use (refresh tokens rotate), access
  tokens live an hour and refresh tokens thirty days, and a revoked client
  is shut out with its tokens.
- `tests/` — tests of the library on concrete values.
- `app/` — the unverified shell: the settings file, the SQLite tables, the
  axum server, which hands each request to the library (the bearer check
  included) and waits for the user's consent, the pill placement, and the
  commands.
