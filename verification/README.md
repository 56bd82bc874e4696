# assetvault

An in-memory multilingual full-text index and a SQLite-backed, content-addressed asset vault,
written in Rust and verified with Verus.

- `src/` is the verified library. `index` holds the full-text index, `vault` what the vault stores
  and asks of its database; `laws` and `tables` state what holds across their operations.
  `engine`, `schema`, `search`, `json` and `pack` say what is relied on of the indexer, the JSON
  parser and the packer.
- `app/` is the Node addon around the library: the classes that JavaScript sees, the parsing of
  schemas and options, and the connection to SQLite.
- `tests/` runs the library with the real indexer, packer and database.
