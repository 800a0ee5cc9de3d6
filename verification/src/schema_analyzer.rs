//! Reading a schema: how the rows of a database's catalog become schema metadata.
use vstd::prelude::*;
use vstd::view::View as _;

use crate::error::{ErrorModel, SyncroDbError};
use crate::models::{
    Column, DatabaseSchema, DatabaseType, Function, Index, Sequence, StoredProcedure, Table,
    Trigger, View,
};
use crate::strings::{contains_text, text_contains};

verus! {

/// Reads PostgreSQL catalogs.
pub struct PostgreSQLAnalyzer;

/// Reads MySQL catalogs.
pub struct MySQLAnalyzer;

/// Reads SQLite catalogs.
pub struct SQLiteAnalyzer;

/// Reads SQL Server catalogs.
pub struct SQLServerAnalyzer;

/// A column default that draws from a sequence, which is how PostgreSQL numbers rows.
pub open spec fn draws_from_sequence(default_value: Option<Seq<char>>) -> bool {
    match default_value {
        Some(d) => contains_text(d, "nextval"@),
        None => false,
    }
}

/// The query that counts the rows of `schema.table`.
pub open spec fn row_count_text(schema: Seq<char>, table: Seq<char>) -> Seq<char> {
    "SELECT COUNT(*) as count FROM "@ + schema + "."@ + table
}

impl PostgreSQLAnalyzer {
    pub fn new() -> (r: Self) {
        PostgreSQLAnalyzer
    }

    /// A column from its row in `information_schema.columns`: nullable where `is_nullable` is
    /// `YES`, numbered by the database where its default draws from a sequence.
    pub fn column_from_row(
        name: String,
        data_type: String,
        is_nullable: &str,
        default_value: Option<String>,
        ordinal_position: i32,
        comment: Option<String>,
    ) -> (c: Column)
        ensures
            c.name == name,
            c.data_type == data_type,
            c.nullable == (is_nullable@ == "YES"@),
            c.default_value == default_value,
            c.auto_increment == draws_from_sequence(default_value.deep_view()),
            c.comment == comment,
            c.ordinal_position == ordinal_position,
    {
        let yes = String::from_str("YES");
        let nullable = String::from_str(is_nullable) == yes;
        let auto_increment = match &default_value {
            Some(d) => text_contains(d.as_str(), "nextval"),
            None => false,
        };
        Column {
            name,
            data_type,
            nullable,
            default_value,
            auto_increment,
            comment,
            ordinal_position,
        }
    }

    /// An index from its catalog row: partial exactly when it has a condition.
    pub fn index_from_row(
        name: String,
        columns: Vec<String>,
        unique: bool,
        index_type: String,
        condition: Option<String>,
    ) -> (i: Index)
        ensures
            i.name == name,
            i.columns == columns,
            i.unique == unique,
            i.index_type == index_type,
            i.partial == condition is Some,
            i.condition == condition,
    {
        let partial = condition.is_some();
        Index { name, columns, unique, index_type, partial, condition }
    }

    /// The query that counts the rows of a table.
    pub fn row_count_query(schema: &str, table: &str) -> (q: String)
        ensures
            q@ == row_count_text(schema@, table@),
    {
        let mut q = String::from_str("SELECT COUNT(*) as count FROM ");
        q.append(schema);
        q.append(".");
        q.append(table);
        q
    }

    /// The schema read from a database, before it is tied to a saved connection.
    pub fn assemble_schema(
        database_name: &str,
        tables: Vec<Table>,
        views: Vec<View>,
        procedures: Vec<StoredProcedure>,
        functions: Vec<Function>,
        triggers: Vec<Trigger>,
        sequences: Vec<Sequence>,
        analyzed_at: String,
    ) -> (s: DatabaseSchema)
        ensures
            s.connection_id@ == Seq::<char>::empty(),
            s.database_name@ == database_name@,
            s.tables == tables,
            s.views == views,
            s.procedures == procedures,
            s.functions == functions,
            s.triggers == triggers,
            s.sequences == sequences,
            s.analyzed_at == analyzed_at,
    {
        DatabaseSchema {
            connection_id: String::new(),
            database_name: String::from_str(database_name),
            tables,
            views,
            procedures,
            functions,
            triggers,
            sequences,
            analyzed_at,
        }
    }
}

impl MySQLAnalyzer {
    pub fn new() -> (r: Self) {
        MySQLAnalyzer
    }
}

impl SQLiteAnalyzer {
    pub fn new() -> (r: Self) {
        SQLiteAnalyzer
    }
}

impl SQLServerAnalyzer {
    pub fn new() -> (r: Self) {
        SQLServerAnalyzer
    }
}

/// Whether the schema of an engine can be read; only PostgreSQL catalogs are read so far.
pub open spec fn analyzable(db: DatabaseType) -> bool {
    db == DatabaseType::PostgreSQL
}

/// Refuses to read the schema of an engine whose catalogs are not read.
pub fn check_analyzable(db: DatabaseType) -> (r: Result<(), SyncroDbError>)
    ensures
        r is Ok <==> analyzable(db),
        r matches Err(e) ==> e@ == ErrorModel::SchemaAnalysis(
            "schema analysis is not supported for this database type"@,
        ),
{
    if db == DatabaseType::PostgreSQL {
        Ok(())
    } else {
        Err(
            SyncroDbError::SchemaAnalysis(
                String::from_str("schema analysis is not supported for this database type"),
            ),
        )
    }
}

} // verus!
