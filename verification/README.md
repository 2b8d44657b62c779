# threadbridge

threadBridge connects Telegram forum threads with Codex sessions that run in
local workspaces. This crate is its core, written in Verus: the functions in
`src/` carry contracts that Verus proves, except the few wrappers marked
`#[verifier::external_body]` around `std::path`, `String::push`,
`pulldown_cmark` and `url`, whose contracts Verus takes on trust.

- `src/` — the verified library: reply planning and Markdown-to-Telegram HTML,
  topic titles and CLI viewer notices, the workspace status watcher's
  decisions, startup recovery of stale busy sessions, the Codex home index,
  runtime paths, telemetry, the `hcodex` helper commands, the websocket
  worker and bridge decisions, the transcript viewer, and the management UI's
  texts and checks.
- `tests/` — tests of the library on concrete values.
- `app/` — plain Rust around the core: files, processes, sockets, the clock,
  logging, and the JSON forms of the core's records.
