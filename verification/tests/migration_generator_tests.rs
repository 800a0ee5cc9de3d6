use syncrodb::migration_generator::MigrationGenerator;
use syncrodb::models::{
    ChangeType, CheckConstraint, Column, DatabaseType, ForeignKey, Index, PrimaryKey,
    SchemaDifference, SchemaObject, SchemaObjectType, Sequence, Table, Trigger,
    UniqueConstraint, View,
};
use uuid::Uuid;

fn create_simple_table_diff() -> SchemaDifference {
    let table = Table {
        name: format!("test_table_{}", Uuid::new_v4().to_string().replace("-", "_")),
        schema: "public".to_string(),
        columns: vec![Column {
            name: "id".to_string(),
            data_type: "INTEGER".to_string(),
            nullable: false,
            default_value: None,
            auto_increment: false,
            comment: None,
            ordinal_position: 1,
        }],
        primary_key: None,
        foreign_keys: vec![],
        unique_constraints: vec![],
        check_constraints: vec![],
        indexes: vec![],
        row_count: None,
    };

    SchemaDifference {
        id: Uuid::new_v4().to_string(),
        object_type: SchemaObjectType::Table,
        object_name: format!("public.{}", table.name),
        change_type: ChangeType::Addition,
        details: format!("Table {} needs to be added", table.name),
        source_value: Some(SchemaObject::Table(table)),
        target_value: None,
        destructive: false,
    }
}

fn difference(
    id: &str,
    object_type: SchemaObjectType,
    object_name: &str,
    change_type: ChangeType,
    source_value: Option<SchemaObject>,
    target_value: Option<SchemaObject>,
    destructive: bool,
) -> SchemaDifference {
    SchemaDifference {
        id: id.to_string(),
        object_type,
        object_name: object_name.to_string(),
        change_type,
        source_value,
        target_value,
        details: String::new(),
        destructive,
    }
}

fn script_for(db: DatabaseType, diff: SchemaDifference) -> Result<String, String> {
    let id = diff.id.clone();
    MigrationGenerator::new(db)
        .generate_script(&[diff], &[id])
        .map_err(|e| e.message())
}

fn column(name: &str, data_type: &str, nullable: bool, default_value: Option<&str>) -> Column {
    Column {
        name: name.to_string(),
        data_type: data_type.to_string(),
        nullable,
        default_value: default_value.map(|d| d.to_string()),
        auto_increment: false,
        comment: None,
        ordinal_position: 1,
    }
}

fn fk_customer() -> ForeignKey {
    ForeignKey {
        name: "fk_customer".to_string(),
        columns: vec!["customer_id".to_string()],
        referenced_table: "customers".to_string(),
        referenced_columns: vec!["id".to_string()],
        on_delete: "CASCADE".to_string(),
        on_update: "NO ACTION".to_string(),
    }
}

#[test]
fn test_postgresql_create_table_syntax() {
    let generator = MigrationGenerator::new(DatabaseType::PostgreSQL);

    let table = Table {
        name: "users".to_string(),
        schema: "public".to_string(),
        columns: vec![
            Column {
                name: "id".to_string(),
                data_type: "INTEGER".to_string(),
                nullable: false,
                default_value: None,
                auto_increment: false,
                comment: None,
                ordinal_position: 1,
            },
            Column {
                name: "name".to_string(),
                data_type: "VARCHAR(100)".to_string(),
                nullable: true,
                default_value: None,
                auto_increment: false,
                comment: None,
                ordinal_position: 2,
            },
        ],
        primary_key: None,
        foreign_keys: vec![],
        unique_constraints: vec![],
        check_constraints: vec![],
        indexes: vec![],
        row_count: None,
    };

    let diff = SchemaDifference {
        id: Uuid::new_v4().to_string(),
        object_type: SchemaObjectType::Table,
        object_name: "public.users".to_string(),
        change_type: ChangeType::Addition,
        source_value: Some(SchemaObject::Table(table)),
        target_value: None,
        details: "Table users needs to be added".to_string(),
        destructive: false,
    };

    let script = generator.generate_script(&[diff.clone()], &[diff.id]).unwrap();

    assert!(script.contains("BEGIN;"));
    assert!(script.contains("CREATE TABLE public.users"));
    assert!(script.contains("id INTEGER NOT NULL"));
    assert!(script.contains("name VARCHAR(100) NULL"));
    assert!(script.contains("COMMIT;"));
}

#[test]
fn test_mysql_uses_backticks() {
    let generator = MigrationGenerator::new(DatabaseType::MySQL);

    let table = Table {
        name: "products".to_string(),
        schema: "main".to_string(),
        columns: vec![Column {
            name: "id".to_string(),
            data_type: "INT".to_string(),
            nullable: false,
            default_value: None,
            auto_increment: true,
            comment: None,
            ordinal_position: 1,
        }],
        primary_key: None,
        foreign_keys: vec![],
        unique_constraints: vec![],
        check_constraints: vec![],
        indexes: vec![],
        row_count: None,
    };

    let diff = SchemaDifference {
        id: Uuid::new_v4().to_string(),
        object_type: SchemaObjectType::Table,
        object_name: "main.products".to_string(),
        change_type: ChangeType::Addition,
        source_value: Some(SchemaObject::Table(table)),
        target_value: None,
        details: "Table products needs to be added".to_string(),
        destructive: false,
    };

    let script = generator.generate_script(&[diff.clone()], &[diff.id]).unwrap();

    assert!(script.contains("`main`.`products`"));
    assert!(script.contains("`id` INT NOT NULL AUTO_INCREMENT"));
    assert!(script.contains("ENGINE=InnoDB"));
}

#[test]
fn test_destructive_operations_have_warnings() {
    let generator = MigrationGenerator::new(DatabaseType::PostgreSQL);

    let diff = SchemaDifference {
        id: Uuid::new_v4().to_string(),
        object_type: SchemaObjectType::Table,
        object_name: "public.old_table".to_string(),
        change_type: ChangeType::Deletion,
        source_value: None,
        target_value: None,
        details: "Table old_table needs to be dropped".to_string(),
        destructive: true,
    };

    let script = generator.generate_script(&[diff.clone()], &[diff.id]).unwrap();

    assert!(script.contains("WARNING: DESTRUCTIVE OPERATION"));
    assert!(script.contains("DROP TABLE public.old_table"));
}

#[test]
fn test_sqlite_create_table_with_constraints() {
    let generator = MigrationGenerator::new(DatabaseType::SQLite);

    let table = Table {
        name: "orders".to_string(),
        schema: "main".to_string(),
        columns: vec![
            Column {
                name: "id".to_string(),
                data_type: "INTEGER".to_string(),
                nullable: false,
                default_value: None,
                auto_increment: true,
                comment: None,
                ordinal_position: 1,
            },
            Column {
                name: "customer_id".to_string(),
                data_type: "INTEGER".to_string(),
                nullable: false,
                default_value: None,
                auto_increment: false,
                comment: None,
                ordinal_position: 2,
            },
        ],
        primary_key: Some(PrimaryKey {
            name: "pk_orders".to_string(),
            columns: vec!["id".to_string()],
        }),
        foreign_keys: vec![ForeignKey {
            name: "fk_customer".to_string(),
            columns: vec!["customer_id".to_string()],
            referenced_table: "customers".to_string(),
            referenced_columns: vec!["id".to_string()],
            on_delete: "CASCADE".to_string(),
            on_update: "NO ACTION".to_string(),
        }],
        unique_constraints: vec![],
        check_constraints: vec![],
        indexes: vec![],
        row_count: None,
    };

    let diff = SchemaDifference {
        id: Uuid::new_v4().to_string(),
        object_type: SchemaObjectType::Table,
        object_name: "main.orders".to_string(),
        change_type: ChangeType::Addition,
        source_value: Some(SchemaObject::Table(table)),
        target_value: None,
        details: "Table orders needs to be added".to_string(),
        destructive: false,
    };

    let script = generator.generate_script(&[diff.clone()], &[diff.id]).unwrap();

    assert!(script.contains("CREATE TABLE \"orders\""));
    assert!(script.contains("PRIMARY KEY"));
    assert!(script.contains("FOREIGN KEY"));
    assert!(script.contains("REFERENCES \"customers\""));
}

#[test]
fn test_sqlserver_uses_square_brackets() {
    let generator = MigrationGenerator::new(DatabaseType::SQLServer);

    let table = Table {
        name: "employees".to_string(),
        schema: "dbo".to_string(),
        columns: vec![Column {
            name: "id".to_string(),
            data_type: "INT".to_string(),
            nullable: false,
            default_value: None,
            auto_increment: true,
            comment: None,
            ordinal_position: 1,
        }],
        primary_key: None,
        foreign_keys: vec![],
        unique_constraints: vec![],
        check_constraints: vec![],
        indexes: vec![],
        row_count: None,
    };

    let diff = SchemaDifference {
        id: Uuid::new_v4().to_string(),
        object_type: SchemaObjectType::Table,
        object_name: "dbo.employees".to_string(),
        change_type: ChangeType::Addition,
        source_value: Some(SchemaObject::Table(table)),
        target_value: None,
        details: "Table employees needs to be added".to_string(),
        destructive: false,
    };

    let script = generator.generate_script(&[diff.clone()], &[diff.id]).unwrap();

    assert!(script.contains("[dbo].[employees]"));
    assert!(script.contains("[id] INT NOT NULL IDENTITY(1,1)"));
}

#[test]
fn test_operation_ordering_tables_before_foreign_keys() {
    let generator = MigrationGenerator::new(DatabaseType::PostgreSQL);

    let fk_diff = SchemaDifference {
        id: "fk-1".to_string(),
        object_type: SchemaObjectType::ForeignKey,
        object_name: "public.orders.fk_customer".to_string(),
        change_type: ChangeType::Addition,
        source_value: Some(SchemaObject::ForeignKey(ForeignKey {
            name: "fk_customer".to_string(),
            columns: vec!["customer_id".to_string()],
            referenced_table: "customers".to_string(),
            referenced_columns: vec!["id".to_string()],
            on_delete: "CASCADE".to_string(),
            on_update: "NO ACTION".to_string(),
        })),
        target_value: None,
        details: "FK needs to be added".to_string(),
        destructive: false,
    };

    let table_diff = SchemaDifference {
        id: "table-1".to_string(),
        object_type: SchemaObjectType::Table,
        object_name: "public.orders".to_string(),
        change_type: ChangeType::Addition,
        source_value: Some(SchemaObject::Table(Table {
            name: "orders".to_string(),
            schema: "public".to_string(),
            columns: vec![],
            primary_key: None,
            foreign_keys: vec![],
            unique_constraints: vec![],
            check_constraints: vec![],
            indexes: vec![],
            row_count: None,
        })),
        target_value: None,
        details: "Table needs to be added".to_string(),
        destructive: false,
    };

    let diffs = vec![fk_diff.clone(), table_diff.clone()];
    let operation_ids = vec![fk_diff.id.clone(), table_diff.id.clone()];

    let script = generator.generate_script(&diffs, &operation_ids).unwrap();

    let table_pos = script.find("CREATE TABLE").unwrap();
    let fk_pos = script.find("ADD CONSTRAINT").unwrap();

    assert!(table_pos < fk_pos, "Table creation should come before foreign key");
}

#[test]
fn test_transaction_boundaries_for_each_database() {
    let pg_gen = MigrationGenerator::new(DatabaseType::PostgreSQL);
    let diff = create_simple_table_diff();
    let script = pg_gen.generate_script(&[diff.clone()], &[diff.id.clone()]).unwrap();
    assert!(script.starts_with("BEGIN;"));
    assert!(script.ends_with("COMMIT;"));

    let mysql_gen = MigrationGenerator::new(DatabaseType::MySQL);
    let diff = create_simple_table_diff();
    let script = mysql_gen.generate_script(&[diff.clone()], &[diff.id.clone()]).unwrap();
    assert!(script.starts_with("START TRANSACTION;"));
    assert!(script.ends_with("COMMIT;"));

    let sqlite_gen = MigrationGenerator::new(DatabaseType::SQLite);
    let diff = create_simple_table_diff();
    let script = sqlite_gen.generate_script(&[diff.clone()], &[diff.id.clone()]).unwrap();
    assert!(script.starts_with("BEGIN;"));
    assert!(script.ends_with("COMMIT;"));

    let sqlserver_gen = MigrationGenerator::new(DatabaseType::SQLServer);
    let diff = create_simple_table_diff();
    let script = sqlserver_gen.generate_script(&[diff.clone()], &[diff.id.clone()]).unwrap();
    assert!(script.starts_with("BEGIN TRANSACTION;"));
    assert!(script.ends_with("COMMIT;"));
}

#[test]
fn test_savepoints_for_multiple_operations() {
    let generator = MigrationGenerator::new(DatabaseType::PostgreSQL);

    let diffs = vec![
        create_simple_table_diff(),
        create_simple_table_diff(),
        create_simple_table_diff(),
    ];
    let operation_ids: Vec<String> = diffs.iter().map(|d| d.id.clone()).collect();

    let script = generator.generate_script(&diffs, &operation_ids).unwrap();

    assert!(script.contains("SAVEPOINT sp_operation_1"));
    assert!(script.contains("SAVEPOINT sp_operation_2"));
    assert!(script.contains("SAVEPOINT sp_operation_3"));
}

#[test]
fn test_index_creation_all_databases() {
    let index = Index {
        name: "idx_email".to_string(),
        columns: vec!["email".to_string()],
        unique: true,
        index_type: "BTREE".to_string(),
        partial: false,
        condition: None,
    };

    let diff = SchemaDifference {
        id: Uuid::new_v4().to_string(),
        object_type: SchemaObjectType::Index,
        object_name: "public.users.idx_email".to_string(),
        change_type: ChangeType::Addition,
        source_value: Some(SchemaObject::Index(index)),
        target_value: None,
        details: "Index needs to be added".to_string(),
        destructive: false,
    };

    let pg_gen = MigrationGenerator::new(DatabaseType::PostgreSQL);
    let script = pg_gen.generate_script(&[diff.clone()], &[diff.id.clone()]).unwrap();
    assert!(script.contains("CREATE UNIQUE INDEX idx_email"));

    let mysql_gen = MigrationGenerator::new(DatabaseType::MySQL);
    let script = mysql_gen.generate_script(&[diff.clone()], &[diff.id.clone()]).unwrap();
    assert!(script.contains("CREATE UNIQUE INDEX `idx_email`"));

    let sqlite_gen = MigrationGenerator::new(DatabaseType::SQLite);
    let script = sqlite_gen.generate_script(&[diff.clone()], &[diff.id.clone()]).unwrap();
    assert!(script.contains("CREATE UNIQUE INDEX \"idx_email\""));

    let sqlserver_gen = MigrationGenerator::new(DatabaseType::SQLServer);
    let script = sqlserver_gen.generate_script(&[diff.clone()], &[diff.id.clone()]).unwrap();
    assert!(script.contains("CREATE UNIQUE NONCLUSTERED INDEX [idx_email]"));
}

#[test]
fn empty_selection_returns_empty_script() {
    for db in [DatabaseType::PostgreSQL, DatabaseType::MySQL, DatabaseType::SQLite, DatabaseType::SQLServer] {
        let diffs = vec![create_simple_table_diff(), create_simple_table_diff()];
        let script = MigrationGenerator::new(db).generate_script(&diffs, &[]).unwrap();
        assert_eq!(script, "");
    }
}

#[test]
fn unselected_operations_are_left_out() {
    let chosen = create_simple_table_diff();
    let other = create_simple_table_diff();
    let script = MigrationGenerator::new(DatabaseType::PostgreSQL)
        .generate_script(&[chosen.clone(), other.clone()], &[chosen.id.clone()])
        .unwrap();
    assert!(script.contains(&chosen.object_name));
    assert!(!script.contains(&other.object_name));
    assert_eq!(script.matches("SAVEPOINT sp_operation_").count(), 1);
}

#[test]
fn exact_postgresql_script() {
    let diff = difference(
        "op",
        SchemaObjectType::Table,
        "public.old_table",
        ChangeType::Deletion,
        None,
        None,
        true,
    );
    let script = script_for(DatabaseType::PostgreSQL, diff).unwrap();
    assert_eq!(
        script,
        "BEGIN;\n\nSAVEPOINT sp_operation_1;\n-- WARNING: DESTRUCTIVE OPERATION\n-- This operation will drop table\n-- Object: public.old_table\n-- Review carefully before executing\nDROP TABLE public.old_table;\n\nCOMMIT;"
    );
}

#[test]
fn operations_run_creations_then_changes_then_drops() {
    let drop_fk = difference("d1", SchemaObjectType::ForeignKey, "public.orders.fk_a", ChangeType::Deletion, None, None, true);
    let drop_table = difference("d2", SchemaObjectType::Table, "public.old", ChangeType::Deletion, None, None, true);
    let create = create_simple_table_diff();
    let alter = difference(
        "m1",
        SchemaObjectType::Column,
        "public.users.name",
        ChangeType::Modification,
        Some(SchemaObject::Column(column("name", "TEXT", true, None))),
        Some(SchemaObject::Column(column("name", "VARCHAR(10)", true, None))),
        true,
    );
    let diffs = vec![drop_table.clone(), alter.clone(), drop_fk.clone(), create.clone()];
    let ids: Vec<String> = diffs.iter().map(|d| d.id.clone()).collect();
    let script = MigrationGenerator::new(DatabaseType::PostgreSQL).generate_script(&diffs, &ids).unwrap();
    let create_at = script.find("CREATE TABLE").unwrap();
    let alter_at = script.find("ALTER COLUMN name TYPE TEXT USING name::TEXT;").unwrap();
    let drop_fk_at = script.find("DROP CONSTRAINT fk_a;").unwrap();
    let drop_table_at = script.find("DROP TABLE public.old;").unwrap();
    assert!(create_at < alter_at);
    assert!(alter_at < drop_fk_at);
    assert!(drop_fk_at < drop_table_at);
    for n in 1..=4 {
        assert!(script.contains(&format!("SAVEPOINT sp_operation_{};", n)));
    }
}

#[test]
fn postgresql_alters_only_what_changed() {
    let diff = difference(
        "m",
        SchemaObjectType::Column,
        "public.users.name",
        ChangeType::Modification,
        Some(SchemaObject::Column(column("name", "TEXT", false, Some("'a'")))),
        Some(SchemaObject::Column(column("name", "TEXT", true, None))),
        false,
    );
    let script = script_for(DatabaseType::PostgreSQL, diff).unwrap();
    assert!(script.contains(
        "ALTER TABLE public.users\nALTER COLUMN name SET NOT NULL;\nALTER TABLE public.users\nALTER COLUMN name SET DEFAULT 'a';"
    ));
    assert!(!script.contains("TYPE"));
}

#[test]
fn mysql_modifies_columns() {
    let diff = difference(
        "m",
        SchemaObjectType::Column,
        "shop.items.price",
        ChangeType::Modification,
        Some(SchemaObject::Column(column("price", "DECIMAL(10,2)", false, Some("0")))),
        None,
        false,
    );
    let script = script_for(DatabaseType::MySQL, diff).unwrap();
    assert!(script.contains("ALTER TABLE `shop`.`items`\nMODIFY COLUMN `price` DECIMAL(10,2) NOT NULL DEFAULT 0\n"));
}

#[test]
fn sqlserver_alters_columns() {
    let diff = difference(
        "m",
        SchemaObjectType::Column,
        "dbo.items.price",
        ChangeType::Modification,
        Some(SchemaObject::Column(column("price", "MONEY", true, None))),
        None,
        false,
    );
    let script = script_for(DatabaseType::SQLServer, diff).unwrap();
    assert!(script.contains("ALTER TABLE [dbo].[items]\nALTER COLUMN [price] MONEY NULL;"));
}

#[test]
fn column_additions_in_each_dialect() {
    let add = |db| {
        script_for(
            db,
            difference(
                "c",
                SchemaObjectType::Column,
                "public.users.age",
                ChangeType::Addition,
                Some(SchemaObject::Column(column("age", "INTEGER", true, Some("0")))),
                None,
                false,
            ),
        )
        .unwrap()
    };
    assert!(add(DatabaseType::PostgreSQL).contains("ALTER TABLE public.users\nADD COLUMN age INTEGER NULL DEFAULT 0\n"));
    assert!(add(DatabaseType::MySQL).contains("ALTER TABLE `public`.`users`\nADD COLUMN `age` INTEGER NULL DEFAULT 0\n"));
    assert!(add(DatabaseType::SQLite).contains("ALTER TABLE \"users\"\nADD COLUMN \"age\" INTEGER NULL DEFAULT 0;"));
    assert!(add(DatabaseType::SQLServer).contains("ALTER TABLE [public].[users]\nADD [age] INTEGER NULL DEFAULT 0;"));
}

#[test]
fn constraints_in_each_dialect() {
    let pk = || {
        difference(
            "p",
            SchemaObjectType::PrimaryKey,
            "public.orders.pk_orders",
            ChangeType::Addition,
            Some(SchemaObject::PrimaryKey(PrimaryKey { name: "pk_orders".to_string(), columns: vec!["id".to_string(), "line".to_string()] })),
            None,
            false,
        )
    };
    assert!(script_for(DatabaseType::PostgreSQL, pk()).unwrap().contains("ALTER TABLE public.orders\nADD CONSTRAINT pk_orders PRIMARY KEY (id, line);"));
    assert!(script_for(DatabaseType::MySQL, pk()).unwrap().contains("ALTER TABLE `public`.`orders`\nADD PRIMARY KEY (`id`, `line`);"));
    assert!(script_for(DatabaseType::SQLServer, pk()).unwrap().contains("ALTER TABLE [public].[orders]\nADD CONSTRAINT [pk_orders] PRIMARY KEY ([id], [line]);"));

    let fk = || {
        difference("f", SchemaObjectType::ForeignKey, "public.orders.fk_customer", ChangeType::Addition, Some(SchemaObject::ForeignKey(fk_customer())), None, false)
    };
    assert!(script_for(DatabaseType::PostgreSQL, fk()).unwrap().contains(
        "ALTER TABLE public.orders\nADD CONSTRAINT fk_customer FOREIGN KEY (customer_id)\n    REFERENCES customers (id)\n    ON DELETE CASCADE\n    ON UPDATE NO ACTION;"
    ));
    assert!(script_for(DatabaseType::MySQL, fk()).unwrap().contains(
        "ALTER TABLE `public`.`orders`\nADD CONSTRAINT `fk_customer` FOREIGN KEY (`customer_id`)\n    REFERENCES `customers` (`id`)\n    ON DELETE CASCADE\n    ON UPDATE NO ACTION;"
    ));

    let unique = || {
        difference(
            "u",
            SchemaObjectType::UniqueConstraint,
            "public.users.uq_email",
            ChangeType::Addition,
            Some(SchemaObject::UniqueConstraint(UniqueConstraint { name: "uq_email".to_string(), columns: vec!["email".to_string()] })),
            None,
            false,
        )
    };
    assert!(script_for(DatabaseType::PostgreSQL, unique()).unwrap().contains("ALTER TABLE public.users\nADD CONSTRAINT uq_email UNIQUE (email);"));
    assert!(script_for(DatabaseType::MySQL, unique()).unwrap().contains("ALTER TABLE `public`.`users`\nADD UNIQUE INDEX `uq_email` (`email`);"));

    let check = || {
        difference(
            "k",
            SchemaObjectType::CheckConstraint,
            "public.users.ck_age",
            ChangeType::Addition,
            Some(SchemaObject::CheckConstraint(CheckConstraint { name: "ck_age".to_string(), expression: "age > 0".to_string() })),
            None,
            false,
        )
    };
    assert!(script_for(DatabaseType::PostgreSQL, check()).unwrap().contains("ALTER TABLE public.users\nADD CONSTRAINT ck_age CHECK (age > 0);"));
    assert!(script_for(DatabaseType::SQLServer, check()).unwrap().contains("ALTER TABLE [public].[users]\nADD CONSTRAINT [ck_age] CHECK (age > 0);"));
}

#[test]
fn constraint_drops_in_each_dialect() {
    let drop = |db, t| script_for(db, difference("x", t, "public.users.c1", ChangeType::Deletion, None, None, true)).unwrap();
    assert!(drop(DatabaseType::PostgreSQL, SchemaObjectType::ForeignKey).contains("ALTER TABLE public.users\nDROP CONSTRAINT c1;"));
    assert!(drop(DatabaseType::MySQL, SchemaObjectType::PrimaryKey).contains("ALTER TABLE `public`.`users`\nDROP PRIMARY KEY;"));
    assert!(drop(DatabaseType::MySQL, SchemaObjectType::ForeignKey).contains("ALTER TABLE `public`.`users`\nDROP FOREIGN KEY `c1`;"));
    assert!(drop(DatabaseType::MySQL, SchemaObjectType::CheckConstraint).contains("ALTER TABLE `public`.`users`\nDROP CHECK `c1`;"));
    assert!(drop(DatabaseType::MySQL, SchemaObjectType::UniqueConstraint).contains("DROP INDEX `c1` ON `public`.`users`;"));
    assert!(drop(DatabaseType::SQLServer, SchemaObjectType::UniqueConstraint).contains("ALTER TABLE [public].[users]\nDROP CONSTRAINT [c1];"));
    assert!(drop(DatabaseType::PostgreSQL, SchemaObjectType::Index).contains("DROP INDEX public.c1;"));
    assert!(drop(DatabaseType::SQLite, SchemaObjectType::Index).contains("DROP INDEX \"c1\";"));
    assert!(drop(DatabaseType::SQLServer, SchemaObjectType::Index).contains("DROP INDEX [c1] ON [public].[users];"));
}

#[test]
fn partial_and_hash_indexes() {
    let index = || {
        difference(
            "i",
            SchemaObjectType::Index,
            "public.users.idx_active",
            ChangeType::Addition,
            Some(SchemaObject::Index(Index {
                name: "idx_active".to_string(),
                columns: vec!["email".to_string(), "active".to_string()],
                unique: false,
                index_type: "HASH".to_string(),
                partial: true,
                condition: Some("active".to_string()),
            })),
            None,
            false,
        )
    };
    assert!(script_for(DatabaseType::PostgreSQL, index()).unwrap().contains("CREATE INDEX idx_active ON public.users USING HASH (email, active) WHERE active;"));
    assert!(script_for(DatabaseType::MySQL, index()).unwrap().contains("CREATE INDEX `idx_active` ON `public`.`users` USING HASH (`email`, `active`);"));
    assert!(script_for(DatabaseType::SQLite, index()).unwrap().contains("CREATE INDEX \"idx_active\" ON \"users\" (\"email\", \"active\") WHERE active;"));
}

#[test]
fn views_routines_and_triggers() {
    let view = |c| {
        difference(
            "v",
            SchemaObjectType::View,
            "public.active_users",
            c,
            Some(SchemaObject::View(View { name: "active_users".to_string(), schema: "public".to_string(), definition: "SELECT 1".to_string() })),
            None,
            false,
        )
    };
    assert!(script_for(DatabaseType::PostgreSQL, view(ChangeType::Addition)).unwrap().contains("CREATE VIEW public.active_users AS\nSELECT 1;"));
    assert!(script_for(DatabaseType::MySQL, view(ChangeType::Modification)).unwrap().contains("CREATE OR REPLACE VIEW `public`.`active_users` AS\nSELECT 1;"));
    assert!(script_for(DatabaseType::SQLServer, view(ChangeType::Modification)).unwrap().contains("CREATE OR ALTER VIEW [public].[active_users] AS\nSELECT 1;"));
    assert!(script_for(DatabaseType::SQLite, view(ChangeType::Modification)).unwrap().contains("DROP VIEW IF EXISTS \"active_users\";\nCREATE VIEW \"active_users\" AS\nSELECT 1;"));

    let trigger = Trigger {
        name: "trg_touch".to_string(),
        table: "users".to_string(),
        timing: "BEFORE".to_string(),
        event: "UPDATE".to_string(),
        definition: "EXECUTE touch()".to_string(),
    };
    let create = || difference("t", SchemaObjectType::Trigger, "public.trg_touch", ChangeType::Addition, Some(SchemaObject::Trigger(trigger.clone())), None, false);
    assert!(script_for(DatabaseType::PostgreSQL, create()).unwrap().contains("CREATE TRIGGER trg_touch\nEXECUTE touch();"));
    assert!(script_for(DatabaseType::MySQL, create()).unwrap().contains("DELIMITER //\nCREATE TRIGGER `trg_touch`\nEXECUTE touch()\n//\nDELIMITER ;"));
    let drop = || difference("t", SchemaObjectType::Trigger, "public.trg_touch", ChangeType::Deletion, None, Some(SchemaObject::Trigger(trigger.clone())), true);
    assert!(script_for(DatabaseType::PostgreSQL, drop()).unwrap().contains("DROP TRIGGER trg_touch ON users;"));
    assert!(script_for(DatabaseType::MySQL, drop()).unwrap().contains("DROP TRIGGER `trg_touch`;"));
    assert!(script_for(DatabaseType::SQLServer, drop()).unwrap().contains("DROP TRIGGER [trg_touch];"));

    let drop_proc = difference("p", SchemaObjectType::Procedure, "public.cleanup", ChangeType::Deletion, None, None, true);
    assert!(script_for(DatabaseType::MySQL, drop_proc).unwrap().contains("DROP PROCEDURE `public`.`cleanup`;"));
}

#[test]
fn sequences() {
    let seq = Sequence {
        name: "order_ids".to_string(),
        schema: "public".to_string(),
        start_value: 1,
        increment: -2,
        min_value: Some(-100),
        max_value: None,
        cycle: true,
    };
    let create = difference("s", SchemaObjectType::Sequence, "public.order_ids", ChangeType::Addition, Some(SchemaObject::Sequence(seq)), None, false);
    let script = script_for(DatabaseType::PostgreSQL, create).unwrap();
    assert!(script.contains("CREATE SEQUENCE public.order_ids\n    START WITH 1\n    INCREMENT BY -2\n    MINVALUE -100\n    CYCLE;"));
    let drop = difference("s", SchemaObjectType::Sequence, "dbo.order_ids", ChangeType::Deletion, None, None, true);
    assert!(script_for(DatabaseType::SQLServer, drop).unwrap().contains("DROP SEQUENCE [dbo].[order_ids];"));
}

#[test]
fn unsupported_operations_are_refused() {
    let seq = difference("s", SchemaObjectType::Sequence, "public.s", ChangeType::Deletion, None, None, true);
    assert_eq!(script_for(DatabaseType::MySQL, seq).unwrap_err(), "Migration error: Unsupported MySQL operation: Sequence Deletion");
    let fk_change = difference("f", SchemaObjectType::ForeignKey, "public.t.f", ChangeType::Modification, None, None, false);
    assert_eq!(script_for(DatabaseType::PostgreSQL, fk_change).unwrap_err(), "Migration error: Unsupported operation: ForeignKey Modification");
    let col_change = difference("c", SchemaObjectType::Column, "main.t.c", ChangeType::Modification, None, None, false);
    assert_eq!(script_for(DatabaseType::SQLite, col_change).unwrap_err(), "Migration error: Unsupported SQLite operation: Column Modification");
    let proc_add = difference("p", SchemaObjectType::Procedure, "dbo.p", ChangeType::Modification, None, None, false);
    assert_eq!(script_for(DatabaseType::SQLServer, proc_add).unwrap_err(), "Migration error: Unsupported SQL Server operation: Procedure Modification");
}

#[test]
fn malformed_names_and_missing_definitions() {
    let table = difference("t", SchemaObjectType::Table, "no_schema", ChangeType::Deletion, None, None, true);
    assert_eq!(script_for(DatabaseType::PostgreSQL, table).unwrap_err(), "Migration error: Invalid table name format");
    let column_drop = difference("c", SchemaObjectType::Column, "users.name", ChangeType::Deletion, None, None, true);
    assert_eq!(script_for(DatabaseType::PostgreSQL, column_drop).unwrap_err(), "Migration error: Invalid column name format");
    let index_drop = difference("i", SchemaObjectType::Index, "idx", ChangeType::Deletion, None, None, true);
    assert_eq!(script_for(DatabaseType::PostgreSQL, index_drop).unwrap_err(), "Migration error: Invalid index name format");
    let bad_table = difference("k", SchemaObjectType::CheckConstraint, "a.b.c.d", ChangeType::Deletion, None, None, true);
    assert_eq!(script_for(DatabaseType::PostgreSQL, bad_table).unwrap_err(), "Migration error: Invalid table name format");
    let missing = difference("v", SchemaObjectType::View, "public.v", ChangeType::Addition, None, None, false);
    assert_eq!(script_for(DatabaseType::PostgreSQL, missing).unwrap_err(), "Migration error: Missing source value for view");
    let no_target = difference(
        "c",
        SchemaObjectType::Column,
        "public.users.name",
        ChangeType::Modification,
        Some(SchemaObject::Column(column("name", "TEXT", true, None))),
        None,
        false,
    );
    assert_eq!(script_for(DatabaseType::PostgreSQL, no_target).unwrap_err(), "Migration error: Missing target value for column");
    let trigger_drop = difference("t", SchemaObjectType::Trigger, "public.trg", ChangeType::Deletion, None, None, true);
    assert_eq!(script_for(DatabaseType::MySQL, trigger_drop).unwrap_err(), "Migration error: Missing target value for trigger");
    let wrong = difference(
        "w",
        SchemaObjectType::Table,
        "public.users",
        ChangeType::Addition,
        Some(SchemaObject::View(View { name: "v".to_string(), schema: "s".to_string(), definition: "d".to_string() })),
        None,
        false,
    );
    assert_eq!(script_for(DatabaseType::PostgreSQL, wrong).unwrap_err(), "Serialization error: value is not a definition of kind Table");
}

#[test]
fn first_failing_operation_decides_the_error() {
    let good = create_simple_table_diff();
    let bad_first = difference("b1", SchemaObjectType::Table, "x", ChangeType::Deletion, None, None, true);
    let bad_later = difference("b2", SchemaObjectType::Sequence, "public.s", ChangeType::Deletion, None, None, true);
    let diffs = vec![bad_later.clone(), good.clone(), bad_first.clone()];
    let ids: Vec<String> = diffs.iter().map(|d| d.id.clone()).collect();
    let err = MigrationGenerator::new(DatabaseType::MySQL).generate_script(&diffs, &ids).unwrap_err();
    assert_eq!(err.message(), "Migration error: Invalid table name format");
}

#[test]
fn default_generator_writes_postgresql() {
    let diff = create_simple_table_diff();
    let script = MigrationGenerator::default().generate_script(&[diff.clone()], &[diff.id.clone()]).unwrap();
    assert!(script.starts_with("BEGIN;\n\nSAVEPOINT sp_operation_1;\nCREATE TABLE public.test_table_"));
}

#[test]
fn only_which_identifiers_are_listed_matters() {
    let a = create_simple_table_diff();
    let b = create_simple_table_diff();
    let c = create_simple_table_diff();
    let diffs = vec![a.clone(), b.clone(), c.clone()];
    let generator = MigrationGenerator::new(DatabaseType::PostgreSQL);
    let ids = vec![a.id.clone(), c.id.clone()];
    let reordered = vec![c.id.clone(), a.id.clone(), c.id.clone()];
    let with_unknown = vec![a.id.clone(), c.id.clone(), "no-such-id".to_string()];
    let base = generator.generate_script(&diffs, &ids).unwrap();
    assert_eq!(generator.generate_script(&diffs, &reordered).unwrap(), base);
    assert_eq!(generator.generate_script(&diffs, &with_unknown).unwrap(), base);
    assert_eq!(generator.generate_script(&[a.clone(), c.clone()], &ids).unwrap(), base);
    assert!(!base.contains(&b.object_name));
}
