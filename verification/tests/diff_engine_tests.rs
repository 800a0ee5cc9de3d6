use syncrodb::diff_engine::DiffEngine;
use syncrodb::models::{
    ChangeType, Column, DatabaseSchema, ForeignKey, SchemaObject, SchemaObjectType, Table,
};

fn create_table(name: &str, schema: &str, columns: Vec<Column>) -> Table {
    Table {
        name: name.to_string(),
        schema: schema.to_string(),
        columns,
        primary_key: None,
        foreign_keys: vec![],
        unique_constraints: vec![],
        check_constraints: vec![],
        indexes: vec![],
        row_count: None,
    }
}

fn create_column(name: &str, data_type: &str, nullable: bool) -> Column {
    Column {
        name: name.to_string(),
        data_type: data_type.to_string(),
        nullable,
        default_value: None,
        auto_increment: false,
        comment: None,
        ordinal_position: 1,
    }
}

fn create_empty_schema(connection_id: &str, database_name: &str) -> DatabaseSchema {
    DatabaseSchema {
        connection_id: connection_id.to_string(),
        database_name: database_name.to_string(),
        tables: vec![],
        views: vec![],
        procedures: vec![],
        functions: vec![],
        triggers: vec![],
        sequences: vec![],
        analyzed_at: chrono::Utc::now().to_rfc3339(),
    }
}

#[test]
fn test_detect_table_addition() {
    let mut source = create_empty_schema("source", "testdb");
    let target = create_empty_schema("target", "testdb");

    source.tables.push(create_table(
        "users",
        "public",
        vec![create_column("id", "integer", false)],
    ));

    let diff_engine = DiffEngine::new();
    let differences = diff_engine.compare_schemas(&source, &target).unwrap();

    assert_eq!(differences.len(), 1);
    assert_eq!(differences[0].object_type, SchemaObjectType::Table);
    assert_eq!(differences[0].change_type, ChangeType::Addition);
    assert_eq!(differences[0].object_name, "public.users");
    assert!(!differences[0].destructive);
}

#[test]
fn test_detect_table_deletion() {
    let source = create_empty_schema("source", "testdb");
    let mut target = create_empty_schema("target", "testdb");

    target.tables.push(create_table(
        "users",
        "public",
        vec![create_column("id", "integer", false)],
    ));

    let diff_engine = DiffEngine::new();
    let differences = diff_engine.compare_schemas(&source, &target).unwrap();

    assert_eq!(differences.len(), 1);
    assert_eq!(differences[0].object_type, SchemaObjectType::Table);
    assert_eq!(differences[0].change_type, ChangeType::Deletion);
    assert_eq!(differences[0].object_name, "public.users");
    assert!(differences[0].destructive);
}

#[test]
fn test_detect_column_addition() {
    let mut source = create_empty_schema("source", "testdb");
    let mut target = create_empty_schema("target", "testdb");

    source.tables.push(create_table(
        "users",
        "public",
        vec![
            create_column("id", "integer", false),
            create_column("name", "varchar", true),
        ],
    ));

    target.tables.push(create_table(
        "users",
        "public",
        vec![create_column("id", "integer", false)],
    ));

    let diff_engine = DiffEngine::new();
    let differences = diff_engine.compare_schemas(&source, &target).unwrap();

    assert_eq!(differences.len(), 1);
    assert_eq!(differences[0].object_type, SchemaObjectType::Column);
    assert_eq!(differences[0].change_type, ChangeType::Addition);
    assert!(differences[0].object_name.contains("name"));
    assert!(!differences[0].destructive);
}

#[test]
fn test_detect_column_deletion() {
    let mut source = create_empty_schema("source", "testdb");
    let mut target = create_empty_schema("target", "testdb");

    source.tables.push(create_table(
        "users",
        "public",
        vec![create_column("id", "integer", false)],
    ));

    target.tables.push(create_table(
        "users",
        "public",
        vec![
            create_column("id", "integer", false),
            create_column("name", "varchar", true),
        ],
    ));

    let diff_engine = DiffEngine::new();
    let differences = diff_engine.compare_schemas(&source, &target).unwrap();

    assert_eq!(differences.len(), 1);
    assert_eq!(differences[0].object_type, SchemaObjectType::Column);
    assert_eq!(differences[0].change_type, ChangeType::Deletion);
    assert!(differences[0].object_name.contains("name"));
    assert!(differences[0].destructive);
}

#[test]
fn test_detect_column_type_change() {
    let mut source = create_empty_schema("source", "testdb");
    let mut target = create_empty_schema("target", "testdb");

    source.tables.push(create_table(
        "users",
        "public",
        vec![create_column("id", "bigint", false)],
    ));

    target.tables.push(create_table(
        "users",
        "public",
        vec![create_column("id", "integer", false)],
    ));

    let diff_engine = DiffEngine::new();
    let mut differences = diff_engine.compare_schemas(&source, &target).unwrap();
    DiffEngine::mark_destructive_operations(&mut differences);

    assert_eq!(differences.len(), 1);
    assert_eq!(differences[0].object_type, SchemaObjectType::Column);
    assert_eq!(differences[0].change_type, ChangeType::Modification);
    assert!(differences[0].destructive);
}

#[test]
fn test_detect_column_nullability_change() {
    let mut source = create_empty_schema("source", "testdb");
    let mut target = create_empty_schema("target", "testdb");

    source.tables.push(create_table(
        "users",
        "public",
        vec![create_column("name", "varchar", false)],
    ));

    target.tables.push(create_table(
        "users",
        "public",
        vec![create_column("name", "varchar", true)],
    ));

    let diff_engine = DiffEngine::new();
    let mut differences = diff_engine.compare_schemas(&source, &target).unwrap();
    DiffEngine::mark_destructive_operations(&mut differences);

    assert_eq!(differences.len(), 1);
    assert_eq!(differences[0].object_type, SchemaObjectType::Column);
    assert_eq!(differences[0].change_type, ChangeType::Modification);
    assert!(differences[0].destructive);
}

#[test]
fn test_identical_schemas_no_differences() {
    let mut source = create_empty_schema("source", "testdb");
    let mut target = create_empty_schema("target", "testdb");

    let table = create_table(
        "users",
        "public",
        vec![
            create_column("id", "integer", false),
            create_column("name", "varchar", true),
        ],
    );

    source.tables.push(table.clone());
    target.tables.push(table);

    let diff_engine = DiffEngine::new();
    let differences = diff_engine.compare_schemas(&source, &target).unwrap();

    assert_eq!(differences.len(), 0);
}

#[test]
fn test_summary_generation() {
    let mut source = create_empty_schema("source", "testdb");
    let mut target = create_empty_schema("target", "testdb");

    source.tables.push(create_table(
        "new_table",
        "public",
        vec![create_column("id", "integer", false)],
    ));

    target.tables.push(create_table(
        "old_table",
        "public",
        vec![create_column("id", "integer", false)],
    ));

    source.tables.push(create_table(
        "users",
        "public",
        vec![create_column("id", "bigint", false)],
    ));
    target.tables.push(create_table(
        "users",
        "public",
        vec![create_column("id", "integer", false)],
    ));

    let diff_engine = DiffEngine::new();
    let mut differences = diff_engine.compare_schemas(&source, &target).unwrap();
    DiffEngine::mark_destructive_operations(&mut differences);

    let summary = DiffEngine::generate_summary(&differences);

    assert_eq!(summary.total_differences, 3);
    assert_eq!(summary.additions, 1);
    assert_eq!(summary.deletions, 1);
    assert_eq!(summary.modifications, 1);
    assert_eq!(summary.destructive_changes, 2);
}

#[test]
fn identifiers_are_hyphenated_and_distinct() {
    let mut source = create_empty_schema("source", "testdb");
    let target = create_empty_schema("target", "testdb");
    source.tables.push(create_table("a", "public", vec![]));
    source.tables.push(create_table("b", "public", vec![]));
    let differences = DiffEngine::new().compare_schemas(&source, &target).unwrap();
    assert_eq!(differences.len(), 2);
    assert_eq!(differences[0].id.len(), 36);
    assert_eq!(differences[1].id.len(), 36);
    assert_ne!(differences[0].id, differences[1].id);
}

#[test]
fn column_change_details_name_each_change() {
    let mut source = create_empty_schema("source", "testdb");
    let mut target = create_empty_schema("target", "testdb");
    let mut changed = create_column("name", "varchar", false);
    changed.default_value = Some("'x'".to_string());
    source.tables.push(create_table("users", "public", vec![changed]));
    target.tables.push(create_table("users", "public", vec![create_column("name", "text", true)]));
    let differences = DiffEngine::new().compare_schemas(&source, &target).unwrap();
    assert_eq!(differences.len(), 1);
    assert_eq!(differences[0].object_name, "public.users.name");
    assert!(differences[0].details.contains("type: text -> varchar"));
    assert!(differences[0].details.contains("nullable: true -> false"));
    assert!(differences[0].details.contains("default: None -> Some(\"'x'\")"));
    assert!(differences[0].destructive);
}

#[test]
fn foreign_keys_follow_the_tables_they_reference() {
    let mut source = create_empty_schema("source", "testdb");
    let mut target = create_empty_schema("target", "testdb");
    target.tables.push(create_table("orders", "public", vec![create_column("customer_id", "integer", false)]));
    let mut orders = create_table("orders", "public", vec![create_column("customer_id", "integer", false)]);
    orders.foreign_keys.push(ForeignKey {
        name: "fk_customer".to_string(),
        columns: vec!["customer_id".to_string()],
        referenced_table: "customers".to_string(),
        referenced_columns: vec!["id".to_string()],
        on_delete: "CASCADE".to_string(),
        on_update: "NO ACTION".to_string(),
    });
    source.tables.push(orders);
    source.tables.push(create_table("customers", "public", vec![create_column("id", "integer", false)]));
    let differences = DiffEngine::new().compare_schemas(&source, &target).unwrap();
    let customers = differences.iter().position(|d| d.object_name == "public.customers").unwrap();
    let fk = differences
        .iter()
        .position(|d| d.object_type == SchemaObjectType::ForeignKey)
        .unwrap();
    assert!(customers < fk);
    match &differences[fk].source_value {
        Some(SchemaObject::ForeignKey(f)) => assert_eq!(f.referenced_table, "customers"),
        _ => panic!("the foreign key difference carries its definition"),
    }
}

#[test]
fn marking_makes_every_drop_destructive_and_nothing_else() {
    let mut source = create_empty_schema("source", "testdb");
    let mut target = create_empty_schema("target", "testdb");
    source.tables.push(create_table("fresh", "public", vec![]));
    target.tables.push(create_table("stale", "public", vec![]));
    let mut differences = DiffEngine::new().compare_schemas(&source, &target).unwrap();
    for d in differences.iter_mut() {
        d.destructive = false;
    }
    DiffEngine::mark_destructive_operations(&mut differences);
    for d in &differences {
        assert_eq!(d.destructive, d.change_type == ChangeType::Deletion);
    }
}

#[test]
fn comparison_counts_what_it_holds() {
    let mut source = create_empty_schema("source", "testdb");
    let mut target = create_empty_schema("target", "testdb");
    source.tables.push(create_table("fresh", "public", vec![]));
    target.tables.push(create_table("stale", "public", vec![]));
    source.tables.push(create_table("users", "public", vec![create_column("id", "bigint", false)]));
    target.tables.push(create_table("users", "public", vec![create_column("id", "integer", false)]));
    let comparison = DiffEngine::new()
        .compare_and_summarize(
            "src".to_string(),
            "dst".to_string(),
            &source,
            &target,
            "2024-01-01T00:00:00Z".to_string(),
        )
        .unwrap();
    assert_eq!(comparison.source_id, "src");
    assert_eq!(comparison.target_id, "dst");
    assert_eq!(comparison.compared_at, "2024-01-01T00:00:00Z");
    assert_eq!(comparison.summary.total_differences, comparison.differences.len());
    assert_eq!(comparison.summary.total_differences, 3);
    assert_eq!(comparison.summary.additions, 1);
    assert_eq!(comparison.summary.modifications, 1);
    assert_eq!(comparison.summary.deletions, 1);
    assert_eq!(comparison.summary.destructive_changes, 2);
}

#[test]
fn differences_before_identifiers_match_the_comparison() {
    let mut source = create_empty_schema("source", "testdb");
    let mut target = create_empty_schema("target", "testdb");
    source.tables.push(create_table("fresh", "public", vec![]));
    target.tables.push(create_table("stale", "public", vec![]));
    let engine = DiffEngine::new();
    let found = engine.find_differences(&source, &target);
    let compared = engine.compare_schemas(&source, &target).unwrap();
    assert_eq!(found.len(), compared.len());
    for (a, b) in found.iter().zip(compared.iter()) {
        assert_eq!(a.object_name, b.object_name);
        assert_eq!(a.change_type, b.change_type);
        assert_eq!(b.id.len(), 36);
    }
}

#[test]
fn identical_schemas_compare_to_nothing() {
    let mut source = create_empty_schema("source", "testdb");
    let mut target = create_empty_schema("target", "testdb");
    let table = create_table("users", "public", vec![create_column("id", "integer", false)]);
    source.tables.push(table.clone());
    target.tables.push(table);
    let comparison = DiffEngine::new()
        .compare_and_summarize("s".to_string(), "t".to_string(), &source, &target, "now".to_string())
        .unwrap();
    assert!(comparison.differences.is_empty());
    assert_eq!(comparison.summary.total_differences, 0);
    assert_eq!(comparison.summary.destructive_changes, 0);
}

#[test]
fn identifiers_are_random_uuids() {
    let mut source = create_empty_schema("source", "testdb");
    let target = create_empty_schema("target", "testdb");
    source.tables.push(create_table("a", "public", vec![]));
    let differences = DiffEngine::new().compare_schemas(&source, &target).unwrap();
    let id: Vec<char> = differences[0].id.chars().collect();
    assert_eq!(id.len(), 36);
    for (i, ch) in id.iter().enumerate() {
        if [8, 13, 18, 23].contains(&i) {
            assert_eq!(*ch, '-');
        } else {
            assert!(ch.is_ascii_digit() || ('a'..='f').contains(ch));
        }
    }
    assert_eq!(id[14], '4');
    assert!(['8', '9', 'a', 'b'].contains(&id[19]));
}
