# syncrodb

Schema comparison and migration scripts for SQL databases, verified with Verus.

The library (`src/`) compares two analysed database schemas, orders the differences so
that foreign keys follow the tables they reference, marks destructive changes, and writes
migration scripts for PostgreSQL, MySQL, SQLite and SQL Server: one transaction, a numbered
savepoint per operation, a warning before each destructive one. It also builds connection
URLs and encrypts the passwords of saved connections (AES-256-GCM through `ring`).

- `src/models.rs`: connection settings and schema metadata, each with a mathematical model.
- `src/diff_engine.rs`: the comparison, with its laws (every difference classified,
  identical schemas give none, summary counts add up).
- `src/dependencies.rs`: dependency order of differences (Kahn's algorithm).
- `src/migration_generator.rs`: one statement per difference in each dialect, the
  operation order and the script, with their laws.
- `src/credentials.rs`: password encryption; what is encrypted decrypts to the password.
- `src/connection.rs`, `src/schema_analyzer.rs`: connection URLs and reports, catalog rows.
- `src/strings.rs`, `src/error.rs`: text helpers and the error type.

`app/` holds what is not verified: the SQLite store of saved connections, connection
pools, the PostgreSQL catalog queries, the commands of the front end, and serde copies of
the library's types. `tests/` runs the library on concrete values.
