# destiny

Research tooling for the Destiny 1 client/server architecture, written as a
verified Verus library with a thin executable around it.

- `src/` is the library: the content inspection of extracted definition
  files (`parser`, with its properties in `parser_laws`), the rows the
  definition index stores (`index`), hash normalisation and classification
  (`runtime`, `explore`), the answers of the HTTP API (`api`), the
  placeholder authentication and session services (`auth`, `framework`),
  packet research types and the client boundary (`network`, `adapter`,
  `server`), and the decisions of the capture harness (`harness`). State is
  kept in `table::Table`, a string-keyed map whose abstract value is a `Map`.
  Verus proves the contracts of these functions. The calls into `sha2`,
  `hex`, the wall and monotonic clocks, `String::push`, `str::to_lowercase` and a vector's
  iterator sit behind small trusted items (`#[verifier::external_body]`),
  whose contracts are assumed rather than proved and are written next to
  them; the clock readings have none.
- `app/` holds what cannot be verified: the command-line programs, the SQLite
  index and runtime, the HTTP API, the TCP capture loop and the serde copies
  of the library's types.
- `tests/` exercises the library on concrete values.
