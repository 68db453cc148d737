# turbine

The request-handling core of a PHP application server, verified with Verus.

- `src/` — the library. Every function is verified against its contract:
  path guarding, request and multipart-body parsing, upload screening
  and PHP superglobal generation, response envelopes and output capture,
  compression negotiation, configuration checking, the sandbox and
  routing decisions of the server, and the in-memory primitives
  (response cache, shared table, task queue, WebSocket hub, request
  coalescer, worker dispatch). Calls into outside crates (compression
  codecs, hashing, `dashmap`, `tokio` broadcast channels, multipart
  parsing, PEM parsing, the file system and the clock) go through small
  trusted wrappers whose contracts state what those crates document.
- `tests/` — tests of the library on concrete values.
- `app/` — the `turbine` program: command-line parsing, `turbine.toml`
  loading, the HTTP listener, TLS, and the embedded PHP interpreter. It
  hands plain values to the library and carries out what the library
  decides.
