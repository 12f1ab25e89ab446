# veddb_core

The core of VedDB, a document database with a key-value protocol, written in
Verus: the executable code in `src/` carries `requires`/`ensures` contracts
that Verus proves.

## Layout

- `src/` — the verified library.
  - `document`, `schema` — documents, values and schema validation.
  - `query` — the query language: its syntax tree, the JSON-like parser,
    index selection, planning and execution over documents.
  - `protocol` — the binary command and response headers, the request
    kinds, the first-version compatibility layer, admission of commands and
    the key-value handler's decisions.
  - `ring` — single- and multi-producer ring buffers of slots.
  - `pubsub` — channels, subscribers with bounded queues, glob patterns.
  - `session` — the session table and per-session command and response
    rings.
  - `snapshot` — the snapshot header, footer and record framing, with
    SHA-256 checksums.
  - `replication` — node roles, message kinds, framing on the wire, and the
    master's and slave's stream state machines.
  - `storage` — how the hybrid engine routes reads and writes between cache
    and persistent layer, and its counters.
  - `monitoring` — health grading, latency percentiles and counters, slow
    query and audit logs.
  - `clock`, `util`, `sorted_map`, `regex_match` — shared helpers; the
    calls into `chrono`, `regex`, `sha2`, `uuid` and `zstd` sit behind small
    trusted wrappers whose contracts are documented where they stand.
- `tests/` — tests run against the compiled library.
- `app/` — plain Rust around the library: JSON forms of its values (serde),
  snapshot files, floating-point estimates, logging through `tracing`, and
  the health, Prometheus and replication endpoints (tokio).
