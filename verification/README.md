# rat_quickdb

The core of a cross-database object-document mapper (SQLite, PostgreSQL, MySQL,
MongoDB), written in Verus. The library's own functions in `src/` carry
contracts that Verus proves; the wrappers around outside crates and std in
`outside` (and `push_char` in `text`) carry contracts that Verus takes on trust,
each stating what the outside function's source or documentation shows.

## Layout

- `src/` — the verified library
  - `types`, `error`: the value model shared by all backends, conditions,
    ID strategies and the error type with its display texts.
  - `json`: the decoding of externally tagged values from JSON text, one level
    at a time, as used for array fields given as JSON text.
  - `model`: field definitions and the validation of values against them.
  - `query_builder`: SQL statements with `?` placeholders and their parameters.
  - `schema`, `ddl`: table schemas, their validation and inference from a record,
    and the DDL for each SQL dialect.
  - `version`: schema versions and migrations (create, execute, roll back,
    paths between versions).
  - `table_manager`: the table manager, with its caches of which tables exist
    and of their schemas, creating, dropping, registering and migrating tables.
  - `keyed`: values stored by string key, each key once, viewed as a map.
  - `id_generator`: auto-increment, UUID, snowflake, object-ID and custom IDs,
    and the format check of each.
  - `mongo`: query, insert and update documents over a BSON value model.
  - `adapter`: how rows are read into values and how insert and count results
    are shaped, per backend.
  - `pool`, `manager`: connection settings, retry and back-off decisions, and the
    registry of databases, ID generators and models.
  - `cache`: cache keys, the reading of cached results, the key index, the
    once-only initialisation of the shared cache manager and the translation of
    cache settings into eviction, memory-level and disk-level settings.
  - `config`, `task_options`, `serializer`: settings with their defaults.
  - `outside`: the calls into `regex`, `uuid`, `serde_json`, `chrono`, `rand`,
    `dashmap`, `crossbeam-queue` and the system clock, with the contracts they
    are trusted to meet.
- `tests/` — tests of the library through its public API.
- `app/` — ordinary Rust around the library: error display, JSON text of values,
  record serialisation, version export and import, and the process-wide
  database registry.
