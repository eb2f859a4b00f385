# lancedb (verified core)

The decision logic of LanceDB's hybrid search, I/O accounting and
observability helpers, written in Verus and proved against its contracts.

- `src/` — the verified library:
  - `io_stats` — I/O counters and the lock-guarded counters that an
    object-store wrapper shares with its owner;
  - `names`, `text` — column look-ups by name, messages, splitting and
    number parsing/formatting;
  - `hybrid` — locating and restoring score columns, schemas of hybrid
    queries;
  - `rerank` — deduplication by row id, reciprocal-rank-fusion ranks and the
    merge that keeps every score column;
  - `profiling` — OTLP configuration, exporter endpoints and log levels;
  - `traceparent` — W3C `traceparent` parsing;
  - `lsm` — the shard spec that an LSM write spec installs.
- `app/` — the Arrow, object-store, tracing/OpenTelemetry and Node.js code
  around it (I/O, async, `f32` arithmetic).
- `tests/` — tests of the library.
