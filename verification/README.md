# nokv_meta

Durable metadata of a NoKV workspace shard, verified with Verus: the byte
formats of its records, the recovery log that carries its commands, and the
rules by which an artifact is published objects first, metadata last.

## Layout

- `src/ids.rs`, `src/text.rs`, `src/wire.rs`, `src/be.rs`: identifiers, names,
  and strict reading and writing of bytes.
- `src/command.rs`, `src/recovery*.rs`: metadata commands, the recovery outbox,
  its chained records and segments, and how a record is stored in chunks.
- `src/publication_records.rs`, `src/query_records.rs`, `src/index_keys.rs`,
  `src/change_events.rs`: publication records, typed projections, ordered index
  keys and change events.
- `src/publish_records.rs`, `src/publication_*.rs`: publish operations and the
  planner of every publication command.
- `src/*_laws.rs`: what holds across functions. `publication_laws.rs` speaks of
  what commands change, `publication_claim_laws.rs` and
  `publication_step_laws.rs` of the one claim on a revision and how long it
  lasts, `publication_input_laws.rs` of beginning an operation again, and
  `publication_record_laws.rs` and `recovery_mutation_laws.rs` of where stored
  bytes end.
- `src/messages.rs`: every failure in words.
- `app/`: the loop that runs the planner against a shard.

## Planning

A service method of `PublicationService` is a function of its request and of
what the shard has answered so far. It returns a planned command, or a `Stop`:
a failure, or the next question. The caller records the answer in `MetaShard`
and asks again. What a method plans for given answers is stated exactly; the
byte codecs of operations, the shard and its clock stay with the caller.

## Trust

Two functions are taken on trust: SHA-256 (`src/digest.rs`), of which nothing
is used but that equal inputs have equal digests, and the decoding of UTF-8
(`src/text.rs`).
