# groxide

Query Rust crate documentation from the terminal (`grox`).

- `src/` is the verified library: the index built from rustdoc's model of a
  crate, the five-stage lookup, search, rendering, cache keys and the
  rustdoc build cascade, each with its contract, and the laws that tie them
  together.
- `app/` is the command around it: argument parsing, cargo metadata,
  running rustdoc, reading and writing caches, fetching crates and printing.
- `tests/` exercises the library on concrete inputs.
