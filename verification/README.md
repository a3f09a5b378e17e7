# maxminddb_polars

The planning, projection and column-assembly core of a Polars plugin for
MaxMind DB lookups, written in Verus and proved against its contracts.

## Layout

- `src/schema.rs` — dtypes and lookup paths: walking a path through a
  schema, converting paths to decoder steps, the known record schemas and
  the `database_type` values that select them, and planning the dtype of a
  path lookup (with the exact planning errors).
- `src/record_plan.rs` — planning a whole-record lookup: the complete
  known record, a validated partial Struct of it, or an explicit Struct for
  an unknown database, and whether the typed decoder applies.
- `src/value.rs` — decoded values, scalar validation, defaults, projection
  of a value onto a dtype, and the slots of a one-pass projected map decode.
- `src/column.rs` — columns built from values, and the layout of a column
  from deduplicated records and row indexes.
- `src/projection.rs` — flattening a dtype into leaf paths and reassembling
  a column from its leaf columns.
- `src/known.rs` — the standard record kinds and their conversion to values.
- `src/cache.rs` — database generation identities, the byte-bounded
  snapshot cache, the cache limit setting and the snapshot checks.
- `src/lookup.rs` — batch planning: parallel chunking, record-offset
  deduplication (over a Polars hash map) and lookup errors.
- `src/text.rs` — decimal and quoted text used in messages.
- `src/layout_laws.rs`, `src/record_laws.rs`, `src/route_laws.rs` — the
  proofs that relate the functions above (see the `law_` functions; more
  stand beside the functions they speak of, in `known.rs`, `cache.rs` and
  `lookup.rs`; `src/schema_laws.rs` shows that the record schemas have
  distinct field names).
- `app/` — the plugin around the library: PyO3 and Polars glue, file and
  database access, serde decoders, and the global reader cache.

The tests under `tests/` exercise the library on concrete values.

## Known record kinds

Nine record kinds have a schema and a typed decoder: City, Country,
Enterprise, ISP, Connection Type, Anonymous IP, Density/Income, Domain and
ASN. `GeoIP2-City-Shield` is treated as a custom database. The Anonymous
Plus, Residential Proxy, IP Risk, Static IP Score and User Count databases
have no schema here: their record layouts are not described in this
project, and the `maxminddb` crate has no typed records for them, so they
are looked up as custom databases, with an explicit dtype.
