# imag

The verified core of a personal-information store, written in Verus.

- `src/header.rs`: header shapes and data (`FileHeaderSpec`, `FileHeaderData`), their
  mathematical trees, and `ParserError`.
- `src/json.rs`: the JSON document model and `visit_json`, which reads a document as a header.
- `src/writer.rs`: `to_json`, which writes a header as a document (later keys of a mapping win).
- `src/parser.rs`: `JsonHeaderParser`: reading JSON text as a header and writing a header as
  pretty-printed JSON text (serde_json behind trusted wrappers).
- `src/laws.rs`: reading and writing undo each other on well-formed documents and
  canonical headers.
- `src/diary.rs`: diary entry ids and the choice of the entry that comes first.
- `src/todo.rs`: taskwarrior tasks: import, store paths, header writes and the steps of a
  taskwarrior hook run.
- `src/ref_error.rs`: reference errors, their kinds and messages.
- `app/lib.rs`: the panics of header writing, and the task functions that talk to a store.
