# bench_transaction

Cycle counts of transactions, and the JSON file in which they are reported.

- `src/` is the verified library: it turns the measurements of a transaction into a report and
  puts the reports of several benchmarks into the contents of a JSON file.
- `app/` is the program around it: it executes the transactions, reads and writes the file.
- `tests/` runs the library on concrete measurements and files.

JSON text is parsed and printed by `serde_json`, and note identifiers are printed by
`miden-protocol`. What the library relies on of these crates is written in the contracts of the
functions marked `external_body` in `src/json.rs` and `src/note_id.rs`.
