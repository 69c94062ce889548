# locai

Memory management for AI agents: memory records and their builders, topic
routing and filtering for an embedded message bus, a registry of
relationship types with the constraints they impose, JSON-schema checks on
relationship metadata, and the configuration around embedding models.

The library in `src/` is written in Verus: every function states what it
returns in its contract and is proved against it, and the `lemma_*` proof
functions state the properties that hold across calls (a registered type is
found again, a read of a JSON object after a write gives the value written,
a message history comes out newest first, and so on).

- `src/` — the verified library. Floats are carried by their bit patterns
  (`time::F32Bits`, `time::OrderedFloat`), instants as `time::Timestamp`,
  JSON as `json::JsonValue`. Calls to std's clock, `rand`'s system random
  source, `uuid` and `chrono` go through a few trusted wrappers in `time.rs`
  and `text.rs`, each with its contract. Reading the clock never fails (a
  clock before 1970 gives an instant before the epoch); drawing a fresh
  identifier can, so the functions that draw one return an `Option`.
- `tests/` — tests of the library on concrete values.
- `app/` — what the library does not hold: the serde forms of its messages,
  conversions to `serde_json` and `chrono`, the WebSocket client, the shared
  and persisted relationship-type registry, the metrics collector shared
  between handles, the async tokenizer and
  embedding-model interfaces, and the float scoring and metrics.
