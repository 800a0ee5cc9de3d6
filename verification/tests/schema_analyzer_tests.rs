use syncrodb::models::DatabaseType;
use syncrodb::schema_analyzer::{
    check_analyzable, MySQLAnalyzer, PostgreSQLAnalyzer, SQLServerAnalyzer, SQLiteAnalyzer,
};

#[test]
fn columns_from_catalog_rows() {
    let id = PostgreSQLAnalyzer::column_from_row(
        "id".to_string(),
        "integer".to_string(),
        "NO",
        Some("nextval('users_id_seq'::regclass)".to_string()),
        1,
        None,
    );
    assert!(!id.nullable);
    assert!(id.auto_increment);
    assert_eq!(id.ordinal_position, 1);
    let name = PostgreSQLAnalyzer::column_from_row(
        "name".to_string(),
        "text".to_string(),
        "YES",
        Some("'anon'::text".to_string()),
        2,
        Some("display name".to_string()),
    );
    assert!(name.nullable);
    assert!(!name.auto_increment);
    assert_eq!(name.comment, Some("display name".to_string()));
    let plain = PostgreSQLAnalyzer::column_from_row("x".to_string(), "int".to_string(), "yes", None, 3, None);
    assert!(!plain.nullable);
    assert!(!plain.auto_increment);
}

#[test]
fn indexes_from_catalog_rows() {
    let partial = PostgreSQLAnalyzer::index_from_row(
        "idx_active".to_string(),
        vec!["active".to_string()],
        false,
        "btree".to_string(),
        Some("(active = true)".to_string()),
    );
    assert!(partial.partial);
    let full = PostgreSQLAnalyzer::index_from_row("idx".to_string(), vec![], true, "hash".to_string(), None);
    assert!(!full.partial);
    assert!(full.unique);
}

#[test]
fn row_count_query_names_the_table() {
    assert_eq!(
        PostgreSQLAnalyzer::row_count_query("public", "users"),
        "SELECT COUNT(*) as count FROM public.users"
    );
}

#[test]
fn assembled_schema_is_not_yet_tied_to_a_connection() {
    let schema = PostgreSQLAnalyzer::assemble_schema(
        "empty_db",
        vec![],
        vec![],
        vec![],
        vec![],
        vec![],
        vec![],
        "2024-01-01T00:00:00Z".to_string(),
    );
    assert_eq!(schema.connection_id, "");
    assert_eq!(schema.database_name, "empty_db");
    assert!(schema.tables.is_empty());
    assert!(!schema.analyzed_at.is_empty());
}

#[test]
fn only_postgresql_catalogs_are_read() {
    let _ = (PostgreSQLAnalyzer::new(), MySQLAnalyzer::new(), SQLiteAnalyzer::new(), SQLServerAnalyzer::new());
    assert!(check_analyzable(DatabaseType::PostgreSQL).is_ok());
    assert_eq!(
        check_analyzable(DatabaseType::SQLite).unwrap_err().message(),
        "Schema analysis error: schema analysis is not supported for this database type"
    );
}
