# ecodex

The verified core of the ecodex coding-agent harness: the Responses API ↔
{Chat Completions, Anthropic Messages} translator, the Empirica hook
dispatcher's policy (output reshaping, the fail-closed firewall, session-start
seeding and practice bootstrap), the curated model registry and discovery
filter, the plugin manifest loader, skill-injection budgeting, the `monitor`
tool, the mesh listener's configuration, and the status-line session lookup.

Layout:

- `src/` — the library, written in Verus. Every function carries a contract
  over a mathematical model (`Seq`, `Map`, views of the data types) and is
  proved. Calls into outside crates (serde_json, regex-lite, base64, shlex)
  go through small trusted wrappers whose contracts name what they return.
- `tests/` — ordinary Rust tests of the library on concrete values.
- `app/` — the thin program around the library: the `translator` server
  (tiny_http, reqwest) and the hook-event dispatcher (stdin/stdout, the
  Python hook scripts, the file system).
