# task_packet_protocol

Task Packet Protocol documents and the rules for storing them, as a Verus
library.

- `src/json.rs` — the library's JSON document type `JsonValue`, its model
  `JsonModel`, and member access (`get`, `as_str`, `as_i64`).
- `src/order.rs` — the order of `String` keys (bytewise on UTF-8), proved a
  strict total order.
- `src/canonical.rs` — canonical form of documents (keys sorted at every
  depth, one entry per key) and its laws: uniqueness, idempotence, and
  independence from the order of object entries.
- `src/text.rs` — compact JSON text; strings are quoted by `serde_json`.
- `src/digest.rs` — SHA-256 (through `sha2`) and lower-case hex.
- `src/schema.rs` — the protocol's JSON schemas compiled with `jsonschema`
  (setup from the six schema texts, and the check of a document's JSON
  text), behind trusted wrappers whose outcomes are named.
- `src/protocol.rs` — document kinds, the verdict of a schema check and its
  report, canonical JSON and the document digest.
- `src/task_packet.rs` — the checks on task packets and result envelopes and
  what storing them decides.
- `src/api.rs`, `src/mcp.rs` — the HTTP answers to errors, the adapter
  manifest, and the MCP tool request bodies.
- `app/` — serde_json conversion, reading the schema files from disk
  (`TASK_PACKET_SCHEMA_DIR`), the SQLite store (sqlx) and the HTTP routes
  (axum).
