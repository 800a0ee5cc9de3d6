//! Migration scripts: the SQL statements that carry selected differences over to a database,
//! written in the dialect of its engine and wrapped in one transaction.
use vstd::prelude::*;

use crate::dependencies::models;
use crate::error::{text_result, ErrorModel, SyncroDbError};
use crate::models::{
    ChangeType, CheckConstraintModel, Column, ColumnModel, DatabaseType, ForeignKeyModel,
    ObjectModel, PrimaryKeyModel, SchemaDifference, SchemaObject, SchemaObjectType, DifferenceModel, Table,
    TableModel, UniqueConstraintModel, object_type_name, change_type_name, ForeignKey,
    UniqueConstraint, CheckConstraint, IndexModel,
};
use crate::strings::{
    join, join_strings, split_pair, split_pair_text, split_triple, split_triple_text, split_member,
    split_member_text, MemberNameError, int_text, i64_text, last_dot, last_dot_in, text_chars,
    sub_text, lemma_last_dot_bounds, opt_string_eq, nat_text, u64_text, contains_text,
};

verus! {

// ---------------------------------------------------------------------------
// Identifiers and clauses
// ---------------------------------------------------------------------------

/// An identifier as the dialect quotes it.
pub open spec fn quoted(db: DatabaseType, x: Seq<char>) -> Seq<char> {
    match db {
        DatabaseType::PostgreSQL => x,
        DatabaseType::MySQL => "`"@ + x + "`"@,
        DatabaseType::SQLite => "\""@ + x + "\""@,
        DatabaseType::SQLServer => "["@ + x + "]"@,
    }
}

/// Each identifier quoted.
pub open spec fn quoted_list(db: DatabaseType, xs: Seq<Seq<char>>) -> Seq<Seq<char>> {
    xs.map_values(|x: Seq<char>| quoted(db, x))
}

/// A column list, `a, b, c`, each name quoted.
pub open spec fn list_text(db: DatabaseType, xs: Seq<Seq<char>>) -> Seq<char> {
    join(quoted_list(db, xs), ", "@)
}

/// How a statement names a table: `schema.table`, or the bare table on SQLite, whose tables
/// live in its one main schema.
pub open spec fn table_ref(db: DatabaseType, schema: Seq<char>, table: Seq<char>) -> Seq<char> {
    if db == DatabaseType::SQLite {
        quoted(db, table)
    } else {
        quoted(db, schema) + "."@ + quoted(db, table)
    }
}

pub open spec fn null_text(nullable: bool) -> Seq<char> {
    if nullable {
        "NULL"@
    } else {
        "NOT NULL"@
    }
}

pub open spec fn default_clause(default_value: Option<Seq<char>>) -> Seq<char> {
    match default_value {
        Some(d) => " DEFAULT "@ + d,
        None => Seq::empty(),
    }
}

/// How the dialect marks a column whose values the database numbers itself.
pub open spec fn identity_clause(db: DatabaseType, auto_increment: bool) -> Seq<char> {
    if auto_increment && db == DatabaseType::MySQL {
        " AUTO_INCREMENT"@
    } else if auto_increment && db == DatabaseType::SQLServer {
        " IDENTITY(1,1)"@
    } else {
        Seq::empty()
    }
}

/// A column definition under the name `name`: `name TYPE [NOT] NULL [DEFAULT d] [identity]`.
pub open spec fn column_def(db: DatabaseType, name: Seq<char>, c: ColumnModel) -> Seq<char> {
    quoted(db, name) + " "@ + c.data_type + " "@ + null_text(c.nullable) + default_clause(
        c.default_value,
    ) + identity_clause(db, c.auto_increment)
}

fn quote(db: DatabaseType, x: &str) -> (r: String)
    ensures
        r@ == quoted(db, x@),
{
    let (open, close) = match db {
        DatabaseType::PostgreSQL => {
            return String::from_str(x);
        },
        DatabaseType::MySQL => ("`", "`"),
        DatabaseType::SQLite => ("\"", "\""),
        DatabaseType::SQLServer => ("[", "]"),
    };
    let mut r = String::from_str(open);
    r.append(x);
    r.append(close);
    r
}

fn quote_all(db: DatabaseType, xs: &Vec<String>) -> (r: Vec<String>)
    ensures
        r.deep_view() == quoted_list(db, xs.deep_view()),
{
    let mut r: Vec<String> = Vec::new();
    for i in 0..xs.len()
        invariant
            r.len() == i,
            forall|j: int| 0 <= j < i ==> #[trigger] r@[j]@ == quoted(db, xs@[j]@),
    {
        r.push(quote(db, xs[i].as_str()));
    }
    assert(r.deep_view() =~= quoted_list(db, xs.deep_view()));
    r
}

fn list_string(db: DatabaseType, xs: &Vec<String>) -> (r: String)
    ensures
        r@ == list_text(db, xs.deep_view()),
{
    join_strings(&quote_all(db, xs), ", ")
}

fn table_reference(db: DatabaseType, schema: &str, table: &str) -> (r: String)
    ensures
        r@ == table_ref(db, schema@, table@),
{
    if db == DatabaseType::SQLite {
        quote(db, table)
    } else {
        let mut r = quote(db, schema);
        r.append(".");
        r.append(quote(db, table).as_str());
        r
    }
}

fn null_word(nullable: bool) -> (r: &'static str)
    ensures
        r@ == null_text(nullable),
{
    if nullable {
        "NULL"
    } else {
        "NOT NULL"
    }
}

fn default_string(default_value: &Option<String>) -> (r: String)
    ensures
        r@ == default_clause(default_value.deep_view()),
{
    match default_value {
        Some(d) => {
            let mut r = String::from_str(" DEFAULT ");
            r.append(d.as_str());
            r
        },
        None => String::new(),
    }
}

fn identity_string(db: DatabaseType, auto_increment: bool) -> (r: String)
    ensures
        r@ == identity_clause(db, auto_increment),
{
    if auto_increment && db == DatabaseType::MySQL {
        String::from_str(" AUTO_INCREMENT")
    } else if auto_increment && db == DatabaseType::SQLServer {
        String::from_str(" IDENTITY(1,1)")
    } else {
        String::new()
    }
}

fn column_definition(db: DatabaseType, name: &str, c: &Column) -> (r: String)
    ensures
        r@ == column_def(db, name@, c@),
{
    let mut r = quote(db, name);
    r.append(" ");
    r.append(c.data_type.as_str());
    r.append(" ");
    r.append(null_word(c.nullable));
    r.append(default_string(&c.default_value).as_str());
    r.append(identity_string(db, c.auto_increment).as_str());
    r
}

// ---------------------------------------------------------------------------
// Errors
// ---------------------------------------------------------------------------

/// A difference that lacks the definition a statement is built from.
pub open spec fn missing_value(side: Seq<char>, what: Seq<char>) -> ErrorModel {
    ErrorModel::Migration("Missing "@ + side + " value for "@ + what)
}

/// A difference whose definition is of another kind than its object.
pub open spec fn wrong_kind(expected: SchemaObjectType) -> ErrorModel {
    ErrorModel::Serialization("value is not a definition of kind "@ + object_type_name(expected))
}

/// An object name that does not have the parts a statement needs.
pub open spec fn name_format_error(what: Seq<char>) -> ErrorModel {
    ErrorModel::Migration("Invalid "@ + what + " name format"@)
}

/// The error for a `schema.table.member` name that cannot be split.
pub open spec fn member_error(e: MemberNameError, what: Seq<char>) -> ErrorModel {
    match e {
        MemberNameError::MissingDot => name_format_error(what),
        MemberNameError::BadTableName => name_format_error("table"@),
    }
}

fn missing_error(side: &str, what: &str) -> (e: SyncroDbError)
    ensures
        e@ == missing_value(side@, what@),
{
    let mut m = String::from_str("Missing ");
    m.append(side);
    m.append(" value for ");
    m.append(what);
    SyncroDbError::Migration(m)
}

fn wrong_kind_error(expected: SchemaObjectType) -> (e: SyncroDbError)
    ensures
        e@ == wrong_kind(expected),
{
    let mut m = String::from_str("value is not a definition of kind ");
    m.append(expected.kind_name());
    SyncroDbError::Serialization(m)
}

fn name_error(what: &str) -> (e: SyncroDbError)
    ensures
        e@ == name_format_error(what@),
{
    let mut m = String::from_str("Invalid ");
    m.append(what);
    m.append(" name format");
    SyncroDbError::Migration(m)
}

/// `schema.name`, split at its one dot.
fn pair_parts(name: &str, what: &str) -> (r: Result<(String, String), SyncroDbError>)
    ensures
        match r {
            Ok((a, b)) => split_pair(name@) == Some((a@, b@)),
            Err(e) => split_pair(name@) is None && e@ == name_format_error(what@),
        },
{
    match split_pair_text(name) {
        Some(p) => Ok(p),
        None => Err(name_error(what)),
    }
}

/// `schema.table.column`, split at its last two dots.
fn triple_parts(name: &str) -> (r: Result<(String, String, String), SyncroDbError>)
    ensures
        match r {
            Ok((a, b, c)) => split_triple(name@) == Some((a@, b@, c@)),
            Err(e) => split_triple(name@) is None && e@ == name_format_error("column"@),
        },
{
    match split_triple_text(name) {
        Some(p) => Ok(p),
        None => Err(name_error("column")),
    }
}

/// `schema.table.member`, split at its last dot and then at the one dot before it.
fn member_parts(name: &str, what: &str) -> (r: Result<(String, String, String), SyncroDbError>)
    ensures
        match r {
            Ok((a, b, c)) => split_member(name@) == Ok::<_, MemberNameError>((a@, b@, c@)),
            Err(e) => exists|m: MemberNameError|
                split_member(name@) == Err::<(Seq<char>, Seq<char>, Seq<char>), _>(m) && e@
                    == member_error(m, what@),
        },
{
    match split_member_text(name) {
        Ok((a, b, c)) => Ok((a, b, c)),
        Err(m) => {
            let e = match m {
                MemberNameError::MissingDot => name_error(what),
                MemberNameError::BadTableName => name_error("table"),
            };
            assert(e@ == member_error(m, what@));
            Err(e)
        },
    }
}

// ---------------------------------------------------------------------------
// Tables
// ---------------------------------------------------------------------------

/// One line of a table definition that declares a column.
pub open spec fn column_line(db: DatabaseType, c: ColumnModel) -> Seq<char> {
    "    "@ + column_def(db, c.name, c)
}

pub open spec fn primary_key_lines(pk: Option<PrimaryKeyModel>) -> Seq<Seq<char>> {
    match pk {
        Some(p) => seq!["    PRIMARY KEY ("@ + list_text(DatabaseType::SQLite, p.columns) + ")"@],
        None => Seq::empty(),
    }
}

pub open spec fn foreign_key_line(f: ForeignKeyModel) -> Seq<char> {
    "    FOREIGN KEY ("@ + list_text(DatabaseType::SQLite, f.columns) + ") REFERENCES "@ + quoted(
        DatabaseType::SQLite,
        f.referenced_table,
    ) + " ("@ + list_text(DatabaseType::SQLite, f.referenced_columns) + ") ON DELETE "@
        + f.on_delete + " ON UPDATE "@ + f.on_update
}

pub open spec fn unique_line(u: UniqueConstraintModel) -> Seq<char> {
    "    CONSTRAINT "@ + quoted(DatabaseType::SQLite, u.name) + " UNIQUE ("@ + list_text(
        DatabaseType::SQLite,
        u.columns,
    ) + ")"@
}

pub open spec fn check_line(c: CheckConstraintModel) -> Seq<char> {
    "    CONSTRAINT "@ + quoted(DatabaseType::SQLite, c.name) + " CHECK ("@ + c.expression + ")"@
}

/// The constraints that SQLite, which cannot add them later, declares inside the table.
pub open spec fn sqlite_constraint_lines(t: TableModel) -> Seq<Seq<char>> {
    primary_key_lines(t.primary_key) + t.foreign_keys.map_values(
        |f: ForeignKeyModel| foreign_key_line(f),
    ) + t.unique_constraints.map_values(|u: UniqueConstraintModel| unique_line(u))
        + t.check_constraints.map_values(|c: CheckConstraintModel| check_line(c))
}

/// The lines between the brackets of `CREATE TABLE`.
pub open spec fn table_lines(db: DatabaseType, t: TableModel) -> Seq<Seq<char>> {
    t.columns.map_values(|c: ColumnModel| column_line(db, c)) + if db == DatabaseType::SQLite {
        sqlite_constraint_lines(t)
    } else {
        Seq::empty()
    }
}

pub open spec fn table_tail(db: DatabaseType) -> Seq<char> {
    if db == DatabaseType::MySQL {
        "\n) ENGINE=InnoDB DEFAULT CHARSET=utf8mb4;"@
    } else {
        "\n);"@
    }
}

pub open spec fn create_table_text(db: DatabaseType, t: TableModel) -> Seq<char> {
    "CREATE TABLE "@ + table_ref(db, t.schema, t.name) + " (\n"@ + join(table_lines(db, t), ",\n"@)
        + table_tail(db)
}

/// `CREATE TABLE` from the source definition.
pub open spec fn create_table_sql(db: DatabaseType, d: DifferenceModel) -> Result<Seq<char>, ErrorModel> {
    match d.source_value {
        Some(ObjectModel::Table(t)) => Ok(create_table_text(db, t)),
        Some(_) => Err(wrong_kind(SchemaObjectType::Table)),
        None => Err(missing_value("source"@, "table creation"@)),
    }
}

/// `DROP <keyword> schema.name;` for an object named `schema.name`.
pub open spec fn drop_object_sql(
    db: DatabaseType,
    keyword: Seq<char>,
    what: Seq<char>,
    name: Seq<char>,
) -> Result<Seq<char>, ErrorModel> {
    match split_pair(name) {
        Some((a, b)) => Ok("DROP "@ + keyword + " "@ + table_ref(db, a, b) + ";"@),
        None => Err(name_format_error(what)),
    }
}

fn concat_lines(a: Vec<String>, b: Vec<String>) -> (r: Vec<String>)
    ensures
        r.deep_view() == a.deep_view() + b.deep_view(),
{
    let mut r = a;
    let ghost start = r.deep_view();
    let ghost n = start.len();
    for i in 0..b.len()
        invariant
            n == start.len(),
            r.len() == n + i,
            forall|j: int| 0 <= j < n ==> #[trigger] r@[j]@ == start[j],
            forall|j: int| 0 <= j < i ==> #[trigger] r@[n + j]@ == b@[j]@,
    {
        r.push(b[i].clone());
    }
    assert(r.deep_view() =~= start + b.deep_view()) by {
        assert forall|j: int| 0 <= j < r.len() implies #[trigger] r.deep_view()[j] == (start
            + b.deep_view())[j] by {
            if j >= n {
                assert(r@[n + (j - n)]@ == b@[j - n]@);
            }
        }
    }
    r
}

fn column_lines(db: DatabaseType, cols: &Vec<Column>) -> (r: Vec<String>)
    ensures
        r.deep_view() == cols@.map_values(|c: Column| c@).map_values(
            |c: ColumnModel| column_line(db, c),
        ),
{
    let mut r: Vec<String> = Vec::new();
    for i in 0..cols.len()
        invariant
            r.len() == i,
            forall|j: int| 0 <= j < i ==> #[trigger] r@[j]@ == column_line(db, cols@[j]@),
    {
        let mut line = String::from_str("    ");
        line.append(column_definition(db, cols[i].name.as_str(), &cols[i]).as_str());
        r.push(line);
    }
    assert(r.deep_view() =~= cols@.map_values(|c: Column| c@).map_values(
        |c: ColumnModel| column_line(db, c),
    ));
    r
}

fn foreign_key_lines(fks: &Vec<ForeignKey>) -> (r: Vec<String>)
    ensures
        r.deep_view() == fks@.map_values(|f: ForeignKey| f@).map_values(
            |f: ForeignKeyModel| foreign_key_line(f),
        ),
{
    let db = DatabaseType::SQLite;
    let mut r: Vec<String> = Vec::new();
    for i in 0..fks.len()
        invariant
            db == DatabaseType::SQLite,
            r.len() == i,
            forall|j: int| 0 <= j < i ==> #[trigger] r@[j]@ == foreign_key_line(fks@[j]@),
    {
        let f = &fks[i];
        let mut line = String::from_str("    FOREIGN KEY (");
        line.append(list_string(db, &f.columns).as_str());
        line.append(") REFERENCES ");
        line.append(quote(db, f.referenced_table.as_str()).as_str());
        line.append(" (");
        line.append(list_string(db, &f.referenced_columns).as_str());
        line.append(") ON DELETE ");
        line.append(f.on_delete.as_str());
        line.append(" ON UPDATE ");
        line.append(f.on_update.as_str());
        r.push(line);
    }
    assert(r.deep_view() =~= fks@.map_values(|f: ForeignKey| f@).map_values(
        |f: ForeignKeyModel| foreign_key_line(f),
    ));
    r
}

fn unique_lines(ucs: &Vec<UniqueConstraint>) -> (r: Vec<String>)
    ensures
        r.deep_view() == ucs@.map_values(|u: UniqueConstraint| u@).map_values(
            |u: UniqueConstraintModel| unique_line(u),
        ),
{
    let db = DatabaseType::SQLite;
    let mut r: Vec<String> = Vec::new();
    for i in 0..ucs.len()
        invariant
            db == DatabaseType::SQLite,
            r.len() == i,
            forall|j: int| 0 <= j < i ==> #[trigger] r@[j]@ == unique_line(ucs@[j]@),
    {
        let mut line = String::from_str("    CONSTRAINT ");
        line.append(quote(db, ucs[i].name.as_str()).as_str());
        line.append(" UNIQUE (");
        line.append(list_string(db, &ucs[i].columns).as_str());
        line.append(")");
        r.push(line);
    }
    assert(r.deep_view() =~= ucs@.map_values(|u: UniqueConstraint| u@).map_values(
        |u: UniqueConstraintModel| unique_line(u),
    ));
    r
}

fn check_lines(ccs: &Vec<CheckConstraint>) -> (r: Vec<String>)
    ensures
        r.deep_view() == ccs@.map_values(|c: CheckConstraint| c@).map_values(
            |c: CheckConstraintModel| check_line(c),
        ),
{
    let db = DatabaseType::SQLite;
    let mut r: Vec<String> = Vec::new();
    for i in 0..ccs.len()
        invariant
            db == DatabaseType::SQLite,
            r.len() == i,
            forall|j: int| 0 <= j < i ==> #[trigger] r@[j]@ == check_line(ccs@[j]@),
    {
        let mut line = String::from_str("    CONSTRAINT ");
        line.append(quote(db, ccs[i].name.as_str()).as_str());
        line.append(" CHECK (");
        line.append(ccs[i].expression.as_str());
        line.append(")");
        r.push(line);
    }
    assert(r.deep_view() =~= ccs@.map_values(|c: CheckConstraint| c@).map_values(
        |c: CheckConstraintModel| check_line(c),
    ));
    r
}

fn constraint_lines(t: &Table) -> (r: Vec<String>)
    ensures
        r.deep_view() == sqlite_constraint_lines(t@),
{
    let mut pk: Vec<String> = Vec::new();
    match &t.primary_key {
        Some(p) => {
            let mut line = String::from_str("    PRIMARY KEY (");
            line.append(list_string(DatabaseType::SQLite, &p.columns).as_str());
            line.append(")");
            pk.push(line);
            assert(pk.deep_view() =~= primary_key_lines(t@.primary_key));
        },
        None => {
            assert(pk.deep_view() =~= primary_key_lines(t@.primary_key));
        },
    }
    let r = concat_lines(pk, foreign_key_lines(&t.foreign_keys));
    let r = concat_lines(r, unique_lines(&t.unique_constraints));
    concat_lines(r, check_lines(&t.check_constraints))
}

fn create_table_statement(db: DatabaseType, t: &Table) -> (r: String)
    ensures
        r@ == create_table_text(db, t@),
{
    let mut lines = column_lines(db, &t.columns);
    if db == DatabaseType::SQLite {
        lines = concat_lines(lines, constraint_lines(t));
    } else {
        lines = concat_lines(lines, Vec::new());
    }
    let tail = if db == DatabaseType::MySQL {
        "\n) ENGINE=InnoDB DEFAULT CHARSET=utf8mb4;"
    } else {
        "\n);"
    };
    let mut r = String::from_str("CREATE TABLE ");
    r.append(table_reference(db, t.schema.as_str(), t.name.as_str()).as_str());
    r.append(" (\n");
    r.append(join_strings(&lines, ",\n").as_str());
    r.append(tail);
    r
}

fn emit_create_table(db: DatabaseType, diff: &SchemaDifference) -> (r: Result<String, SyncroDbError>)
    ensures
        text_result(r) == create_table_sql(db, diff@),
{
    match &diff.source_value {
        Some(SchemaObject::Table(t)) => Ok(create_table_statement(db, t)),
        Some(_) => Err(wrong_kind_error(SchemaObjectType::Table)),
        None => Err(missing_error("source", "table creation")),
    }
}

fn emit_drop_object(db: DatabaseType, keyword: &str, what: &str, name: &str) -> (r: Result<
    String,
    SyncroDbError,
>)
    ensures
        text_result(r) == drop_object_sql(db, keyword@, what@, name@),
{
    match pair_parts(name, what) {
        Ok((a, b)) => {
            let mut r = String::from_str("DROP ");
            r.append(keyword);
            r.append(" ");
            r.append(table_reference(db, a.as_str(), b.as_str()).as_str());
            r.append(";");
            Ok(r)
        },
        Err(e) => Err(e),
    }
}

// ---------------------------------------------------------------------------
// Columns
// ---------------------------------------------------------------------------

pub open spec fn add_column_keyword(db: DatabaseType) -> Seq<char> {
    if db == DatabaseType::SQLServer {
        "\nADD "@
    } else {
        "\nADD COLUMN "@
    }
}

/// PostgreSQL and MySQL statements that add a column end without a semicolon.
pub open spec fn add_column_end(db: DatabaseType) -> Seq<char> {
    if db == DatabaseType::PostgreSQL || db == DatabaseType::MySQL {
        Seq::empty()
    } else {
        ";"@
    }
}

/// `ALTER TABLE ... ADD COLUMN` from the source definition, for a column named
/// `schema.table.column`.
pub open spec fn add_column_sql(db: DatabaseType, d: DifferenceModel) -> Result<Seq<char>, ErrorModel> {
    match d.source_value {
        Some(ObjectModel::Column(c)) => match split_triple(d.object_name) {
            Some((schema, table, _column)) => Ok("ALTER TABLE "@ + table_ref(db, schema, table)
                + add_column_keyword(db) + column_def(db, c.name, c) + add_column_end(db)),
            None => Err(name_format_error("column"@)),
        },
        Some(_) => Err(wrong_kind(SchemaObjectType::Column)),
        None => Err(missing_value("source"@, "column"@)),
    }
}

/// `ALTER TABLE ... DROP COLUMN` for a column named `schema.table.column`.
pub open spec fn drop_column_sql(db: DatabaseType, d: DifferenceModel) -> Result<Seq<char>, ErrorModel> {
    match split_triple(d.object_name) {
        Some((schema, table, column)) => Ok("ALTER TABLE "@ + table_ref(db, schema, table)
            + "\nDROP COLUMN "@ + quoted(db, column) + ";"@),
        None => Err(name_format_error("column"@)),
    }
}

pub open spec fn pg_alter_prefix(schema: Seq<char>, table: Seq<char>, column: Seq<char>) -> Seq<
    char,
> {
    "ALTER TABLE "@ + schema + "."@ + table + "\nALTER COLUMN "@ + column
}

/// The PostgreSQL statements that turn the target column into the source column: its type,
/// its nullability and its default, each only where they differ.
pub open spec fn pg_alter_statements(
    schema: Seq<char>,
    table: Seq<char>,
    column: Seq<char>,
    s: ColumnModel,
    t: ColumnModel,
) -> Seq<Seq<char>> {
    let prefix = pg_alter_prefix(schema, table, column);
    (if s.data_type != t.data_type {
        seq![prefix + " TYPE "@ + s.data_type + " USING "@ + column + "::"@ + s.data_type + ";"@]
    } else {
        Seq::empty()
    }) + (if s.nullable != t.nullable {
        seq![prefix + " "@ + (if s.nullable { "DROP"@ } else { "SET"@ }) + " NOT NULL;"@]
    } else {
        Seq::empty()
    }) + (if s.default_value != t.default_value {
        seq![
            match s.default_value {
                Some(x) => prefix + " SET DEFAULT "@ + x + ";"@,
                None => prefix + " DROP DEFAULT;"@,
            },
        ]
    } else {
        Seq::empty()
    })
}

/// PostgreSQL: alters a column from its target to its source definition.
pub open spec fn pg_alter_column_sql(d: DifferenceModel) -> Result<Seq<char>, ErrorModel> {
    match d.source_value {
        Some(ObjectModel::Column(s)) => match d.target_value {
            Some(ObjectModel::Column(t)) => match split_triple(d.object_name) {
                Some((schema, table, column)) => Ok(
                    join(pg_alter_statements(schema, table, column, s, t), "\n"@),
                ),
                None => Err(name_format_error("column"@)),
            },
            Some(_) => Err(wrong_kind(SchemaObjectType::Column)),
            None => Err(missing_value("target"@, "column"@)),
        },
        Some(_) => Err(wrong_kind(SchemaObjectType::Column)),
        None => Err(missing_value("source"@, "column"@)),
    }
}

/// MySQL: redefines the column with `MODIFY COLUMN` from its source definition.
pub open spec fn mysql_modify_column_sql(d: DifferenceModel) -> Result<Seq<char>, ErrorModel> {
    match d.source_value {
        Some(ObjectModel::Column(s)) => match split_triple(d.object_name) {
            Some((schema, table, column)) => Ok("ALTER TABLE "@ + table_ref(
                DatabaseType::MySQL,
                schema,
                table,
            ) + "\nMODIFY COLUMN "@ + column_def(DatabaseType::MySQL, column, s)),
            None => Err(name_format_error("column"@)),
        },
        Some(_) => Err(wrong_kind(SchemaObjectType::Column)),
        None => Err(missing_value("source"@, "column"@)),
    }
}

/// SQL Server: `ALTER COLUMN` to the source type and nullability.
pub open spec fn sqlserver_alter_column_sql(d: DifferenceModel) -> Result<Seq<char>, ErrorModel> {
    match d.source_value {
        Some(ObjectModel::Column(s)) => match split_triple(d.object_name) {
            Some((schema, table, column)) => Ok("ALTER TABLE "@ + table_ref(
                DatabaseType::SQLServer,
                schema,
                table,
            ) + "\nALTER COLUMN "@ + quoted(DatabaseType::SQLServer, column) + " "@ + s.data_type
                + " "@ + null_text(s.nullable) + ";"@),
            None => Err(name_format_error("column"@)),
        },
        Some(_) => Err(wrong_kind(SchemaObjectType::Column)),
        None => Err(missing_value("source"@, "column"@)),
    }
}

fn emit_add_column(db: DatabaseType, diff: &SchemaDifference) -> (r: Result<String, SyncroDbError>)
    ensures
        text_result(r) == add_column_sql(db, diff@),
{
    match &diff.source_value {
        Some(SchemaObject::Column(c)) => match triple_parts(diff.object_name.as_str()) {
            Ok((schema, table, _column)) => {
                let keyword = if db == DatabaseType::SQLServer {
                    "\nADD "
                } else {
                    "\nADD COLUMN "
                };
                let mut r = String::from_str("ALTER TABLE ");
                r.append(table_reference(db, schema.as_str(), table.as_str()).as_str());
                r.append(keyword);
                r.append(column_definition(db, c.name.as_str(), c).as_str());
                if db == DatabaseType::PostgreSQL || db == DatabaseType::MySQL {
                    r.append("");
                    proof {
                        reveal_strlit("");
                    }
                } else {
                    r.append(";");
                }
                Ok(r)
            },
            Err(e) => Err(e),
        },
        Some(_) => Err(wrong_kind_error(SchemaObjectType::Column)),
        None => Err(missing_error("source", "column")),
    }
}

fn emit_drop_column(db: DatabaseType, diff: &SchemaDifference) -> (r: Result<String, SyncroDbError>)
    ensures
        text_result(r) == drop_column_sql(db, diff@),
{
    match triple_parts(diff.object_name.as_str()) {
        Ok((schema, table, column)) => {
            let mut r = String::from_str("ALTER TABLE ");
            r.append(table_reference(db, schema.as_str(), table.as_str()).as_str());
            r.append("\nDROP COLUMN ");
            r.append(quote(db, column.as_str()).as_str());
            r.append(";");
            Ok(r)
        },
        Err(e) => Err(e),
    }
}

fn pg_alter_start(schema: &str, table: &str, column: &str) -> (r: String)
    ensures
        r@ == pg_alter_prefix(schema@, table@, column@),
{
    let mut r = String::from_str("ALTER TABLE ");
    r.append(schema);
    r.append(".");
    r.append(table);
    r.append("\nALTER COLUMN ");
    r.append(column);
    r
}

fn pg_alter_lines(schema: &str, table: &str, column: &str, s: &Column, t: &Column) -> (r: Vec<
    String,
>)
    ensures
        r.deep_view() == pg_alter_statements(schema@, table@, column@, s@, t@),
{
    let ghost prefix = pg_alter_prefix(schema@, table@, column@);
    let mut r: Vec<String> = Vec::new();
    let ghost first: Seq<Seq<char>> = if s@.data_type != t@.data_type {
        seq![prefix + " TYPE "@ + s@.data_type + " USING "@ + column@ + "::"@ + s@.data_type + ";"@]
    } else {
        Seq::empty()
    };
    if !(s.data_type == t.data_type) {
        let mut line = pg_alter_start(schema, table, column);
        line.append(" TYPE ");
        line.append(s.data_type.as_str());
        line.append(" USING ");
        line.append(column);
        line.append("::");
        line.append(s.data_type.as_str());
        line.append(";");
        r.push(line);
    }
    assert(r.deep_view() =~= first);
    let ghost second: Seq<Seq<char>> = if s@.nullable != t@.nullable {
        seq![prefix + " "@ + (if s@.nullable { "DROP"@ } else { "SET"@ }) + " NOT NULL;"@]
    } else {
        Seq::empty()
    };
    if s.nullable != t.nullable {
        let mut line = pg_alter_start(schema, table, column);
        line.append(" ");
        line.append(if s.nullable { "DROP" } else { "SET" });
        line.append(" NOT NULL;");
        r.push(line);
    }
    assert(r.deep_view() =~= first + second);
    if !opt_string_eq(&s.default_value, &t.default_value) {
        let mut line = pg_alter_start(schema, table, column);
        match &s.default_value {
            Some(x) => {
                line.append(" SET DEFAULT ");
                line.append(x.as_str());
                line.append(";");
            },
            None => {
                line.append(" DROP DEFAULT;");
            },
        }
        r.push(line);
    }
    assert(r.deep_view() =~= pg_alter_statements(schema@, table@, column@, s@, t@));
    r
}

fn emit_pg_alter_column(diff: &SchemaDifference) -> (r: Result<String, SyncroDbError>)
    ensures
        text_result(r) == pg_alter_column_sql(diff@),
{
    match &diff.source_value {
        Some(SchemaObject::Column(s)) => match &diff.target_value {
            Some(SchemaObject::Column(t)) => match triple_parts(diff.object_name.as_str()) {
                Ok((schema, table, column)) => {
                    let lines = pg_alter_lines(
                        schema.as_str(),
                        table.as_str(),
                        column.as_str(),
                        s,
                        t,
                    );
                    Ok(join_strings(&lines, "\n"))
                },
                Err(e) => Err(e),
            },
            Some(_) => Err(wrong_kind_error(SchemaObjectType::Column)),
            None => Err(missing_error("target", "column")),
        },
        Some(_) => Err(wrong_kind_error(SchemaObjectType::Column)),
        None => Err(missing_error("source", "column")),
    }
}

fn emit_mysql_modify_column(diff: &SchemaDifference) -> (r: Result<String, SyncroDbError>)
    ensures
        text_result(r) == mysql_modify_column_sql(diff@),
{
    let db = DatabaseType::MySQL;
    match &diff.source_value {
        Some(SchemaObject::Column(s)) => match triple_parts(diff.object_name.as_str()) {
            Ok((schema, table, column)) => {
                let mut r = String::from_str("ALTER TABLE ");
                r.append(table_reference(db, schema.as_str(), table.as_str()).as_str());
                r.append("\nMODIFY COLUMN ");
                r.append(column_definition(db, column.as_str(), s).as_str());
                Ok(r)
            },
            Err(e) => Err(e),
        },
        Some(_) => Err(wrong_kind_error(SchemaObjectType::Column)),
        None => Err(missing_error("source", "column")),
    }
}

fn emit_sqlserver_alter_column(diff: &SchemaDifference) -> (r: Result<String, SyncroDbError>)
    ensures
        text_result(r) == sqlserver_alter_column_sql(diff@),
{
    let db = DatabaseType::SQLServer;
    match &diff.source_value {
        Some(SchemaObject::Column(s)) => match triple_parts(diff.object_name.as_str()) {
            Ok((schema, table, column)) => {
                let mut r = String::from_str("ALTER TABLE ");
                r.append(table_reference(db, schema.as_str(), table.as_str()).as_str());
                r.append("\nALTER COLUMN ");
                r.append(quote(db, column.as_str()).as_str());
                r.append(" ");
                r.append(s.data_type.as_str());
                r.append(" ");
                r.append(null_word(s.nullable));
                r.append(";");
                Ok(r)
            },
            Err(e) => Err(e),
        },
        Some(_) => Err(wrong_kind_error(SchemaObjectType::Column)),
        None => Err(missing_error("source", "column")),
    }
}

// ---------------------------------------------------------------------------
// Constraints and indexes
// ---------------------------------------------------------------------------

pub open spec fn primary_key_clause(db: DatabaseType, pk: PrimaryKeyModel) -> Seq<char> {
    if db == DatabaseType::MySQL {
        "\nADD PRIMARY KEY ("@ + list_text(db, pk.columns) + ");"@
    } else {
        "\nADD CONSTRAINT "@ + quoted(db, pk.name) + " PRIMARY KEY ("@ + list_text(db, pk.columns)
            + ");"@
    }
}

/// Adds the source primary key to the table of a key named `schema.table.key`.
pub open spec fn add_primary_key_sql(db: DatabaseType, d: DifferenceModel) -> Result<Seq<char>, ErrorModel> {
    match d.source_value {
        Some(ObjectModel::PrimaryKey(pk)) => match split_member(d.object_name) {
            Ok((schema, table, _key)) => Ok("ALTER TABLE "@ + table_ref(db, schema, table)
                + primary_key_clause(db, pk)),
            Err(e) => Err(member_error(e, "primary key"@)),
        },
        Some(_) => Err(wrong_kind(SchemaObjectType::PrimaryKey)),
        None => Err(missing_value("source"@, "primary key"@)),
    }
}

/// What MySQL calls the constraint it drops, in the error for a malformed name.
pub open spec fn mysql_drop_what(kind: SchemaObjectType) -> Seq<char> {
    match kind {
        SchemaObjectType::PrimaryKey => "constraint"@,
        SchemaObjectType::ForeignKey => "foreign key"@,
        _ => "check constraint"@,
    }
}

pub open spec fn mysql_drop_clause(kind: SchemaObjectType, member: Seq<char>) -> Seq<char> {
    match kind {
        SchemaObjectType::PrimaryKey => "\nDROP PRIMARY KEY;"@,
        SchemaObjectType::ForeignKey => "\nDROP FOREIGN KEY "@ + quoted(DatabaseType::MySQL, member)
            + ";"@,
        _ => "\nDROP CHECK "@ + quoted(DatabaseType::MySQL, member) + ";"@,
    }
}

/// Drops a constraint named `schema.table.constraint`: by its name, or on MySQL with the
/// statement for its kind.
pub open spec fn drop_constraint_sql(
    db: DatabaseType,
    kind: SchemaObjectType,
    d: DifferenceModel,
) -> Result<Seq<char>, ErrorModel> {
    let what = if db == DatabaseType::MySQL {
        mysql_drop_what(kind)
    } else {
        "constraint"@
    };
    match split_member(d.object_name) {
        Ok((schema, table, member)) => Ok("ALTER TABLE "@ + table_ref(db, schema, table) + (
        if db == DatabaseType::MySQL {
            mysql_drop_clause(kind, member)
        } else {
            "\nDROP CONSTRAINT "@ + quoted(db, member) + ";"@
        })),
        Err(e) => Err(member_error(e, what)),
    }
}

pub open spec fn add_foreign_key_sql(db: DatabaseType, d: DifferenceModel) -> Result<Seq<char>, ErrorModel> {
    match d.source_value {
        Some(ObjectModel::ForeignKey(f)) => match split_member(d.object_name) {
            Ok((schema, table, _key)) => Ok("ALTER TABLE "@ + table_ref(db, schema, table)
                + "\nADD CONSTRAINT "@ + quoted(db, f.name) + " FOREIGN KEY ("@ + list_text(
                db,
                f.columns,
            ) + ")\n    REFERENCES "@ + quoted(db, f.referenced_table) + " ("@ + list_text(
                db,
                f.referenced_columns,
            ) + ")\n    ON DELETE "@ + f.on_delete + "\n    ON UPDATE "@ + f.on_update + ";"@),
            Err(e) => Err(member_error(e, "foreign key"@)),
        },
        Some(_) => Err(wrong_kind(SchemaObjectType::ForeignKey)),
        None => Err(missing_value("source"@, "foreign key"@)),
    }
}

pub open spec fn unique_clause(db: DatabaseType, name: Seq<char>) -> Seq<char> {
    if db == DatabaseType::MySQL {
        "\nADD UNIQUE INDEX "@ + quoted(db, name)
    } else {
        "\nADD CONSTRAINT "@ + quoted(db, name) + " UNIQUE"@
    }
}

pub open spec fn add_unique_sql(db: DatabaseType, d: DifferenceModel) -> Result<Seq<char>, ErrorModel> {
    match d.source_value {
        Some(ObjectModel::UniqueConstraint(u)) => match split_member(d.object_name) {
            Ok((schema, table, _key)) => Ok("ALTER TABLE "@ + table_ref(db, schema, table)
                + unique_clause(db, u.name) + " ("@ + list_text(db, u.columns) + ");"@),
            Err(e) => Err(member_error(e, "unique constraint"@)),
        },
        Some(_) => Err(wrong_kind(SchemaObjectType::UniqueConstraint)),
        None => Err(missing_value("source"@, "unique constraint"@)),
    }
}

pub open spec fn add_check_sql(db: DatabaseType, d: DifferenceModel) -> Result<Seq<char>, ErrorModel> {
    match d.source_value {
        Some(ObjectModel::CheckConstraint(c)) => match split_member(d.object_name) {
            Ok((schema, table, _key)) => Ok("ALTER TABLE "@ + table_ref(db, schema, table)
                + "\nADD CONSTRAINT "@ + quoted(db, c.name) + " CHECK ("@ + c.expression + ");"@),
            Err(e) => Err(member_error(e, "check constraint"@)),
        },
        Some(_) => Err(wrong_kind(SchemaObjectType::CheckConstraint)),
        None => Err(missing_value("source"@, "check constraint"@)),
    }
}

pub open spec fn unique_word(unique: bool) -> Seq<char> {
    if unique {
        "UNIQUE "@
    } else {
        Seq::empty()
    }
}

pub open spec fn index_kind(db: DatabaseType) -> Seq<char> {
    if db == DatabaseType::SQLServer {
        "NONCLUSTERED "@
    } else {
        Seq::empty()
    }
}

/// `USING <method>` for an index that is not a B-tree, where the dialect can name the method.
pub open spec fn using_clause(db: DatabaseType, i: IndexModel) -> Seq<char> {
    if (db == DatabaseType::PostgreSQL || db == DatabaseType::MySQL) && i.index_type != "BTREE"@ {
        " USING "@ + i.index_type
    } else {
        Seq::empty()
    }
}

/// The condition of a partial index, where the dialect has them.
pub open spec fn where_clause(db: DatabaseType, i: IndexModel) -> Seq<char> {
    if db == DatabaseType::MySQL {
        Seq::empty()
    } else {
        match i.condition {
            Some(c) => " WHERE "@ + c,
            None => Seq::empty(),
        }
    }
}

pub open spec fn create_index_sql(db: DatabaseType, d: DifferenceModel) -> Result<Seq<char>, ErrorModel> {
    match d.source_value {
        Some(ObjectModel::Index(i)) => match split_member(d.object_name) {
            Ok((schema, table, _key)) => Ok("CREATE "@ + unique_word(i.unique) + index_kind(db)
                + "INDEX "@ + quoted(db, i.name) + " ON "@ + table_ref(db, schema, table)
                + using_clause(db, i) + " ("@ + list_text(db, i.columns) + ")"@ + where_clause(db, i)
                + ";"@),
            Err(e) => Err(member_error(e, "index"@)),
        },
        Some(_) => Err(wrong_kind(SchemaObjectType::Index)),
        None => Err(missing_value("source"@, "index"@)),
    }
}

/// What `DROP INDEX` names: the index within its schema on PostgreSQL, the index alone on
/// SQLite, the index on its table elsewhere.
pub open spec fn index_target(
    db: DatabaseType,
    schema: Seq<char>,
    table: Seq<char>,
    index: Seq<char>,
) -> Seq<char> {
    match db {
        DatabaseType::PostgreSQL => schema + "."@ + index,
        DatabaseType::SQLite => quoted(db, index),
        _ => quoted(db, index) + " ON "@ + table_ref(db, schema, table),
    }
}

pub open spec fn drop_index_sql(db: DatabaseType, d: DifferenceModel) -> Result<Seq<char>, ErrorModel> {
    match split_member(d.object_name) {
        Ok((schema, table, index)) => Ok("DROP INDEX "@ + index_target(db, schema, table, index)
            + ";"@),
        Err(e) => Err(member_error(e, "index"@)),
    }
}

fn emit_add_primary_key(db: DatabaseType, diff: &SchemaDifference) -> (r: Result<String, SyncroDbError>)
    ensures
        text_result(r) == add_primary_key_sql(db, diff@),
{
    match &diff.source_value {
        Some(SchemaObject::PrimaryKey(pk)) => match member_parts(
            diff.object_name.as_str(),
            "primary key",
        ) {
            Ok((schema, table, _key)) => {
                let mut clause = if db == DatabaseType::MySQL {
                    String::from_str("\nADD PRIMARY KEY (")
                } else {
                    let mut c = String::from_str("\nADD CONSTRAINT ");
                    c.append(quote(db, pk.name.as_str()).as_str());
                    c.append(" PRIMARY KEY (");
                    c
                };
                clause.append(list_string(db, &pk.columns).as_str());
                clause.append(");");
                let mut r = String::from_str("ALTER TABLE ");
                r.append(table_reference(db, schema.as_str(), table.as_str()).as_str());
                assert(clause@ =~= primary_key_clause(db, pk@));
                r.append(clause.as_str());
                Ok(r)
            },
            Err(e) => Err(e),
        },
        Some(_) => Err(wrong_kind_error(SchemaObjectType::PrimaryKey)),
        None => Err(missing_error("source", "primary key")),
    }
}

fn emit_drop_constraint(db: DatabaseType, kind: SchemaObjectType, diff: &SchemaDifference) -> (r:
    Result<String, SyncroDbError>)
    ensures
        text_result(r) == drop_constraint_sql(db, kind, diff@),
{
    let what = if db == DatabaseType::MySQL {
        match kind {
            SchemaObjectType::PrimaryKey => "constraint",
            SchemaObjectType::ForeignKey => "foreign key",
            _ => "check constraint",
        }
    } else {
        "constraint"
    };
    match member_parts(diff.object_name.as_str(), what) {
        Ok((schema, table, member)) => {
            let clause = if db == DatabaseType::MySQL {
                match kind {
                    SchemaObjectType::PrimaryKey => String::from_str("\nDROP PRIMARY KEY;"),
                    SchemaObjectType::ForeignKey => {
                        let mut c = String::from_str("\nDROP FOREIGN KEY ");
                        c.append(quote(db, member.as_str()).as_str());
                        c.append(";");
                        c
                    },
                    _ => {
                        let mut c = String::from_str("\nDROP CHECK ");
                        c.append(quote(db, member.as_str()).as_str());
                        c.append(";");
                        c
                    },
                }
            } else {
                let mut c = String::from_str("\nDROP CONSTRAINT ");
                c.append(quote(db, member.as_str()).as_str());
                c.append(";");
                c
            };
            let mut r = String::from_str("ALTER TABLE ");
            r.append(table_reference(db, schema.as_str(), table.as_str()).as_str());
            r.append(clause.as_str());
            Ok(r)
        },
        Err(e) => Err(e),
    }
}

fn emit_add_foreign_key(db: DatabaseType, diff: &SchemaDifference) -> (r: Result<String, SyncroDbError>)
    ensures
        text_result(r) == add_foreign_key_sql(db, diff@),
{
    match &diff.source_value {
        Some(SchemaObject::ForeignKey(f)) => match member_parts(
            diff.object_name.as_str(),
            "foreign key",
        ) {
            Ok((schema, table, _key)) => {
                let mut r = String::from_str("ALTER TABLE ");
                r.append(table_reference(db, schema.as_str(), table.as_str()).as_str());
                r.append("\nADD CONSTRAINT ");
                r.append(quote(db, f.name.as_str()).as_str());
                r.append(" FOREIGN KEY (");
                r.append(list_string(db, &f.columns).as_str());
                r.append(")\n    REFERENCES ");
                r.append(quote(db, f.referenced_table.as_str()).as_str());
                r.append(" (");
                r.append(list_string(db, &f.referenced_columns).as_str());
                r.append(")\n    ON DELETE ");
                r.append(f.on_delete.as_str());
                r.append("\n    ON UPDATE ");
                r.append(f.on_update.as_str());
                r.append(";");
                Ok(r)
            },
            Err(e) => Err(e),
        },
        Some(_) => Err(wrong_kind_error(SchemaObjectType::ForeignKey)),
        None => Err(missing_error("source", "foreign key")),
    }
}

fn emit_add_unique(db: DatabaseType, diff: &SchemaDifference) -> (r: Result<String, SyncroDbError>)
    ensures
        text_result(r) == add_unique_sql(db, diff@),
{
    match &diff.source_value {
        Some(SchemaObject::UniqueConstraint(u)) => match member_parts(
            diff.object_name.as_str(),
            "unique constraint",
        ) {
            Ok((schema, table, _key)) => {
                let clause = if db == DatabaseType::MySQL {
                    let mut c = String::from_str("\nADD UNIQUE INDEX ");
                    c.append(quote(db, u.name.as_str()).as_str());
                    c
                } else {
                    let mut c = String::from_str("\nADD CONSTRAINT ");
                    c.append(quote(db, u.name.as_str()).as_str());
                    c.append(" UNIQUE");
                    c
                };
                let mut r = String::from_str("ALTER TABLE ");
                r.append(table_reference(db, schema.as_str(), table.as_str()).as_str());
                r.append(clause.as_str());
                r.append(" (");
                r.append(list_string(db, &u.columns).as_str());
                r.append(");");
                Ok(r)
            },
            Err(e) => Err(e),
        },
        Some(_) => Err(wrong_kind_error(SchemaObjectType::UniqueConstraint)),
        None => Err(missing_error("source", "unique constraint")),
    }
}

fn emit_add_check(db: DatabaseType, diff: &SchemaDifference) -> (r: Result<String, SyncroDbError>)
    ensures
        text_result(r) == add_check_sql(db, diff@),
{
    match &diff.source_value {
        Some(SchemaObject::CheckConstraint(c)) => match member_parts(
            diff.object_name.as_str(),
            "check constraint",
        ) {
            Ok((schema, table, _key)) => {
                let mut r = String::from_str("ALTER TABLE ");
                r.append(table_reference(db, schema.as_str(), table.as_str()).as_str());
                r.append("\nADD CONSTRAINT ");
                r.append(quote(db, c.name.as_str()).as_str());
                r.append(" CHECK (");
                r.append(c.expression.as_str());
                r.append(");");
                Ok(r)
            },
            Err(e) => Err(e),
        },
        Some(_) => Err(wrong_kind_error(SchemaObjectType::CheckConstraint)),
        None => Err(missing_error("source", "check constraint")),
    }
}

fn emit_create_index(db: DatabaseType, diff: &SchemaDifference) -> (r: Result<String, SyncroDbError>)
    ensures
        text_result(r) == create_index_sql(db, diff@),
{
    match &diff.source_value {
        Some(SchemaObject::Index(i)) => match member_parts(diff.object_name.as_str(), "index") {
            Ok((schema, table, _key)) => {
                let btree = String::from_str("BTREE");
                let using = if (db == DatabaseType::PostgreSQL || db == DatabaseType::MySQL)
                    && !(i.index_type == btree) {
                    let mut c = String::from_str(" USING ");
                    c.append(i.index_type.as_str());
                    c
                } else {
                    String::new()
                };
                let condition = if db == DatabaseType::MySQL {
                    String::new()
                } else {
                    match &i.condition {
                        Some(c) => {
                            let mut w = String::from_str(" WHERE ");
                            w.append(c.as_str());
                            w
                        },
                        None => String::new(),
                    }
                };
                let mut r = String::from_str("CREATE ");
                if i.unique {
                    r.append("UNIQUE ");
                } else {
                    r.append("");
                    proof {
                        reveal_strlit("");
                    }
                }
                if db == DatabaseType::SQLServer {
                    r.append("NONCLUSTERED ");
                } else {
                    r.append("");
                    proof {
                        reveal_strlit("");
                    }
                }
                r.append("INDEX ");
                r.append(quote(db, i.name.as_str()).as_str());
                r.append(" ON ");
                r.append(table_reference(db, schema.as_str(), table.as_str()).as_str());
                r.append(using.as_str());
                r.append(" (");
                r.append(list_string(db, &i.columns).as_str());
                r.append(")");
                r.append(condition.as_str());
                r.append(";");
                Ok(r)
            },
            Err(e) => Err(e),
        },
        Some(_) => Err(wrong_kind_error(SchemaObjectType::Index)),
        None => Err(missing_error("source", "index")),
    }
}

fn emit_drop_index(db: DatabaseType, diff: &SchemaDifference) -> (r: Result<String, SyncroDbError>)
    ensures
        text_result(r) == drop_index_sql(db, diff@),
{
    match member_parts(diff.object_name.as_str(), "index") {
        Ok((schema, table, index)) => {
            let target = match db {
                DatabaseType::PostgreSQL => {
                    let mut t = schema.clone();
                    t.append(".");
                    t.append(index.as_str());
                    t
                },
                DatabaseType::SQLite => quote(db, index.as_str()),
                _ => {
                    let mut t = quote(db, index.as_str());
                    t.append(" ON ");
                    t.append(table_reference(db, schema.as_str(), table.as_str()).as_str());
                    t
                },
            };
            let mut r = String::from_str("DROP INDEX ");
            r.append(target.as_str());
            r.append(";");
            Ok(r)
        },
        Err(e) => Err(e),
    }
}

// ---------------------------------------------------------------------------
// Views, routines, triggers and sequences
// ---------------------------------------------------------------------------

pub open spec fn create_view_sql(db: DatabaseType, d: DifferenceModel) -> Result<Seq<char>, ErrorModel> {
    match d.source_value {
        Some(ObjectModel::View(v)) => Ok("CREATE VIEW "@ + table_ref(db, v.schema, v.name) + " AS\n"@
            + v.definition + ";"@),
        Some(_) => Err(wrong_kind(SchemaObjectType::View)),
        None => Err(missing_value("source"@, "view"@)),
    }
}

/// How the dialect redefines a view: in place, or on SQLite by dropping and creating it.
pub open spec fn replace_view_head(db: DatabaseType, view: Seq<char>) -> Seq<char> {
    match db {
        DatabaseType::SQLServer => "CREATE OR ALTER VIEW "@ + view,
        DatabaseType::SQLite => "DROP VIEW IF EXISTS "@ + view + ";\nCREATE VIEW "@ + view,
        _ => "CREATE OR REPLACE VIEW "@ + view,
    }
}

pub open spec fn replace_view_sql(db: DatabaseType, d: DifferenceModel) -> Result<Seq<char>, ErrorModel> {
    match d.source_value {
        Some(ObjectModel::View(v)) => Ok(replace_view_head(db, table_ref(db, v.schema, v.name))
            + " AS\n"@ + v.definition + ";"@),
        Some(_) => Err(wrong_kind(SchemaObjectType::View)),
        None => Err(missing_value("source"@, "view"@)),
    }
}

/// `CREATE <keyword> <target>` followed by the body, which MySQL delimits with `//`.
pub open spec fn routine_text(
    db: DatabaseType,
    keyword: Seq<char>,
    target: Seq<char>,
    definition: Seq<char>,
) -> Seq<char> {
    if db == DatabaseType::MySQL {
        "DELIMITER //\nCREATE "@ + keyword + " "@ + target + "\n"@ + definition
            + "\n//\nDELIMITER ;"@
    } else {
        "CREATE "@ + keyword + " "@ + target + "\n"@ + definition + ";"@
    }
}

pub open spec fn create_procedure_sql(db: DatabaseType, d: DifferenceModel) -> Result<Seq<char>, ErrorModel> {
    match d.source_value {
        Some(ObjectModel::Procedure(p)) => Ok(
            routine_text(db, "PROCEDURE"@, table_ref(db, p.schema, p.name), p.definition),
        ),
        Some(_) => Err(wrong_kind(SchemaObjectType::Procedure)),
        None => Err(missing_value("source"@, "procedure"@)),
    }
}

pub open spec fn create_function_sql(db: DatabaseType, d: DifferenceModel) -> Result<Seq<char>, ErrorModel> {
    match d.source_value {
        Some(ObjectModel::Function(f)) => Ok(
            routine_text(db, "FUNCTION"@, table_ref(db, f.schema, f.name), f.definition),
        ),
        Some(_) => Err(wrong_kind(SchemaObjectType::Function)),
        None => Err(missing_value("source"@, "function"@)),
    }
}

pub open spec fn create_trigger_sql(db: DatabaseType, d: DifferenceModel) -> Result<Seq<char>, ErrorModel> {
    match d.source_value {
        Some(ObjectModel::Trigger(t)) => Ok(
            routine_text(db, "TRIGGER"@, quoted(db, t.name), t.definition),
        ),
        Some(_) => Err(wrong_kind(SchemaObjectType::Trigger)),
        None => Err(missing_value("source"@, "trigger"@)),
    }
}

/// Drops the trigger of the target definition: on its table for PostgreSQL, by the last part
/// of the object name for MySQL, by its name elsewhere.
pub open spec fn drop_trigger_sql(db: DatabaseType, d: DifferenceModel) -> Result<Seq<char>, ErrorModel> {
    match d.target_value {
        Some(ObjectModel::Trigger(t)) => match db {
            DatabaseType::PostgreSQL => Ok("DROP TRIGGER "@ + t.name + " ON "@ + t.table + ";"@),
            DatabaseType::MySQL => {
                let dot = last_dot(d.object_name);
                if dot < 0 {
                    Err(name_format_error("trigger"@))
                } else {
                    Ok("DROP TRIGGER "@ + quoted(db, d.object_name.skip(dot + 1)) + ";"@)
                }
            },
            _ => Ok("DROP TRIGGER "@ + quoted(db, t.name) + ";"@),
        },
        Some(_) => Err(wrong_kind(SchemaObjectType::Trigger)),
        None => Err(missing_value("target"@, "trigger"@)),
    }
}

pub open spec fn bound_clause(keyword: Seq<char>, bound: Option<i64>) -> Seq<char> {
    match bound {
        Some(v) => "\n    "@ + keyword + " "@ + int_text(v as int),
        None => Seq::empty(),
    }
}

pub open spec fn cycle_clause(cycle: bool) -> Seq<char> {
    if cycle {
        "\n    CYCLE"@
    } else {
        Seq::empty()
    }
}

pub open spec fn create_sequence_sql(db: DatabaseType, d: DifferenceModel) -> Result<Seq<char>, ErrorModel> {
    match d.source_value {
        Some(ObjectModel::Sequence(q)) => Ok("CREATE SEQUENCE "@ + table_ref(db, q.schema, q.name)
            + "\n    START WITH "@ + int_text(q.start_value as int) + "\n    INCREMENT BY "@
            + int_text(q.increment as int) + bound_clause("MINVALUE"@, q.min_value) + bound_clause(
            "MAXVALUE"@,
            q.max_value,
        ) + cycle_clause(q.cycle) + ";"@),
        Some(_) => Err(wrong_kind(SchemaObjectType::Sequence)),
        None => Err(missing_value("source"@, "sequence"@)),
    }
}

fn emit_create_view(db: DatabaseType, diff: &SchemaDifference) -> (r: Result<String, SyncroDbError>)
    ensures
        text_result(r) == create_view_sql(db, diff@),
{
    match &diff.source_value {
        Some(SchemaObject::View(v)) => {
            let mut r = String::from_str("CREATE VIEW ");
            r.append(table_reference(db, v.schema.as_str(), v.name.as_str()).as_str());
            r.append(" AS\n");
            r.append(v.definition.as_str());
            r.append(";");
            Ok(r)
        },
        Some(_) => Err(wrong_kind_error(SchemaObjectType::View)),
        None => Err(missing_error("source", "view")),
    }
}

fn emit_replace_view(db: DatabaseType, diff: &SchemaDifference) -> (r: Result<String, SyncroDbError>)
    ensures
        text_result(r) == replace_view_sql(db, diff@),
{
    match &diff.source_value {
        Some(SchemaObject::View(v)) => {
            let view = table_reference(db, v.schema.as_str(), v.name.as_str());
            let mut r = match db {
                DatabaseType::SQLServer => String::from_str("CREATE OR ALTER VIEW "),
                DatabaseType::SQLite => String::from_str("DROP VIEW IF EXISTS "),
                _ => String::from_str("CREATE OR REPLACE VIEW "),
            };
            r.append(view.as_str());
            if db == DatabaseType::SQLite {
                r.append(";\nCREATE VIEW ");
                r.append(view.as_str());
            }
            assert(r@ == replace_view_head(db, view@));
            r.append(" AS\n");
            r.append(v.definition.as_str());
            r.append(";");
            Ok(r)
        },
        Some(_) => Err(wrong_kind_error(SchemaObjectType::View)),
        None => Err(missing_error("source", "view")),
    }
}

fn routine_statement(db: DatabaseType, keyword: &str, target: &str, definition: &str) -> (r: String)
    ensures
        r@ == routine_text(db, keyword@, target@, definition@),
{
    if db == DatabaseType::MySQL {
        let mut r = String::from_str("DELIMITER //\nCREATE ");
        r.append(keyword);
        r.append(" ");
        r.append(target);
        r.append("\n");
        r.append(definition);
        r.append("\n//\nDELIMITER ;");
        r
    } else {
        let mut r = String::from_str("CREATE ");
        r.append(keyword);
        r.append(" ");
        r.append(target);
        r.append("\n");
        r.append(definition);
        r.append(";");
        r
    }
}

fn emit_create_procedure(db: DatabaseType, diff: &SchemaDifference) -> (r: Result<String, SyncroDbError>)
    ensures
        text_result(r) == create_procedure_sql(db, diff@),
{
    match &diff.source_value {
        Some(SchemaObject::Procedure(p)) => {
            let target = table_reference(db, p.schema.as_str(), p.name.as_str());
            Ok(routine_statement(db, "PROCEDURE", target.as_str(), p.definition.as_str()))
        },
        Some(_) => Err(wrong_kind_error(SchemaObjectType::Procedure)),
        None => Err(missing_error("source", "procedure")),
    }
}

fn emit_create_function(db: DatabaseType, diff: &SchemaDifference) -> (r: Result<String, SyncroDbError>)
    ensures
        text_result(r) == create_function_sql(db, diff@),
{
    match &diff.source_value {
        Some(SchemaObject::Function(f)) => {
            let target = table_reference(db, f.schema.as_str(), f.name.as_str());
            Ok(routine_statement(db, "FUNCTION", target.as_str(), f.definition.as_str()))
        },
        Some(_) => Err(wrong_kind_error(SchemaObjectType::Function)),
        None => Err(missing_error("source", "function")),
    }
}

fn emit_create_trigger(db: DatabaseType, diff: &SchemaDifference) -> (r: Result<String, SyncroDbError>)
    ensures
        text_result(r) == create_trigger_sql(db, diff@),
{
    match &diff.source_value {
        Some(SchemaObject::Trigger(t)) => {
            let target = quote(db, t.name.as_str());
            Ok(routine_statement(db, "TRIGGER", target.as_str(), t.definition.as_str()))
        },
        Some(_) => Err(wrong_kind_error(SchemaObjectType::Trigger)),
        None => Err(missing_error("source", "trigger")),
    }
}

/// The part of a name after its last `.`, if it has one.
fn after_last_dot(name: &str) -> (r: Option<String>)
    ensures
        match r {
            Some(x) => last_dot(name@) >= 0 && x@ == name@.skip(last_dot(name@) + 1),
            None => last_dot(name@) < 0,
        },
{
    let chars = text_chars(name);
    let n = chars.len();
    assert(chars@.take(n as int) == name@);
    match last_dot_in(&chars, n) {
        Some(d) => {
            proof {
                lemma_last_dot_bounds(name@);
            }
            let x = sub_text(name, d + 1, n);
            assert(x@ == name@.skip(d + 1));
            Some(x)
        },
        None => None,
    }
}

fn emit_drop_trigger(db: DatabaseType, diff: &SchemaDifference) -> (r: Result<String, SyncroDbError>)
    ensures
        text_result(r) == drop_trigger_sql(db, diff@),
{
    match &diff.target_value {
        Some(SchemaObject::Trigger(t)) => match db {
            DatabaseType::PostgreSQL => {
                let mut r = String::from_str("DROP TRIGGER ");
                r.append(t.name.as_str());
                r.append(" ON ");
                r.append(t.table.as_str());
                r.append(";");
                Ok(r)
            },
            DatabaseType::MySQL => match after_last_dot(diff.object_name.as_str()) {
                Some(x) => {
                    let mut r = String::from_str("DROP TRIGGER ");
                    r.append(quote(db, x.as_str()).as_str());
                    r.append(";");
                    Ok(r)
                },
                None => Err(name_error("trigger")),
            },
            _ => {
                let mut r = String::from_str("DROP TRIGGER ");
                r.append(quote(db, t.name.as_str()).as_str());
                r.append(";");
                Ok(r)
            },
        },
        Some(_) => Err(wrong_kind_error(SchemaObjectType::Trigger)),
        None => Err(missing_error("target", "trigger")),
    }
}

fn bound_string(keyword: &str, bound: Option<i64>) -> (r: String)
    ensures
        r@ == bound_clause(keyword@, bound),
{
    match bound {
        Some(v) => {
            let mut r = String::from_str("\n    ");
            r.append(keyword);
            r.append(" ");
            r.append(i64_text(v).as_str());
            r
        },
        None => String::new(),
    }
}

fn emit_create_sequence(db: DatabaseType, diff: &SchemaDifference) -> (r: Result<String, SyncroDbError>)
    ensures
        text_result(r) == create_sequence_sql(db, diff@),
{
    match &diff.source_value {
        Some(SchemaObject::Sequence(q)) => {
            let mut r = String::from_str("CREATE SEQUENCE ");
            r.append(table_reference(db, q.schema.as_str(), q.name.as_str()).as_str());
            r.append("\n    START WITH ");
            r.append(i64_text(q.start_value).as_str());
            r.append("\n    INCREMENT BY ");
            r.append(i64_text(q.increment).as_str());
            r.append(bound_string("MINVALUE", q.min_value).as_str());
            r.append(bound_string("MAXVALUE", q.max_value).as_str());
            if q.cycle {
                r.append("\n    CYCLE");
            } else {
                r.append("");
                proof {
                    reveal_strlit("");
                }
            }
            r.append(";");
            Ok(r)
        },
        Some(_) => Err(wrong_kind_error(SchemaObjectType::Sequence)),
        None => Err(missing_error("source", "sequence")),
    }
}

// ---------------------------------------------------------------------------
// One statement per difference
// ---------------------------------------------------------------------------

/// Whether the dialect can create and drop objects of this kind.
pub open spec fn kind_supported(db: DatabaseType, t: SchemaObjectType) -> bool {
    match db {
        DatabaseType::PostgreSQL | DatabaseType::SQLServer => true,
        DatabaseType::MySQL => t != SchemaObjectType::Sequence,
        DatabaseType::SQLite => t == SchemaObjectType::Table || t == SchemaObjectType::Column || t
            == SchemaObjectType::Index || t == SchemaObjectType::View || t
            == SchemaObjectType::Trigger,
    }
}

/// Whether the dialect has a statement for this change: creations and drops of the kinds it
/// supports, and changes to columns (not on SQLite) and views.
pub open spec fn supported(db: DatabaseType, t: SchemaObjectType, c: ChangeType) -> bool {
    match c {
        ChangeType::Modification => (t == SchemaObjectType::Column && db != DatabaseType::SQLite)
            || t == SchemaObjectType::View,
        _ => kind_supported(db, t),
    }
}

pub open spec fn unsupported_lead(db: DatabaseType) -> Seq<char> {
    match db {
        DatabaseType::PostgreSQL => "Unsupported operation: "@,
        DatabaseType::MySQL => "Unsupported MySQL operation: "@,
        DatabaseType::SQLite => "Unsupported SQLite operation: "@,
        DatabaseType::SQLServer => "Unsupported SQL Server operation: "@,
    }
}

/// The error for a change that the dialect has no statement for.
pub open spec fn unsupported(db: DatabaseType, t: SchemaObjectType, c: ChangeType) -> ErrorModel {
    ErrorModel::Migration(unsupported_lead(db) + object_type_name(t) + " "@ + change_type_name(c))
}

/// The SQL for one difference in the dialect of `db`.
pub open spec fn statement_sql(db: DatabaseType, d: DifferenceModel) -> Result<Seq<char>, ErrorModel> {
    if !supported(db, d.object_type, d.change_type) {
        Err(unsupported(db, d.object_type, d.change_type))
    } else {
        match d.change_type {
            ChangeType::Addition => match d.object_type {
                SchemaObjectType::Table => create_table_sql(db, d),
                SchemaObjectType::Column => add_column_sql(db, d),
                SchemaObjectType::PrimaryKey => add_primary_key_sql(db, d),
                SchemaObjectType::ForeignKey => add_foreign_key_sql(db, d),
                SchemaObjectType::UniqueConstraint => add_unique_sql(db, d),
                SchemaObjectType::CheckConstraint => add_check_sql(db, d),
                SchemaObjectType::Index => create_index_sql(db, d),
                SchemaObjectType::View => create_view_sql(db, d),
                SchemaObjectType::Procedure => create_procedure_sql(db, d),
                SchemaObjectType::Function => create_function_sql(db, d),
                SchemaObjectType::Trigger => create_trigger_sql(db, d),
                SchemaObjectType::Sequence => create_sequence_sql(db, d),
            },
            ChangeType::Deletion => match d.object_type {
                SchemaObjectType::Table => drop_object_sql(db, "TABLE"@, "table"@, d.object_name),
                SchemaObjectType::Column => drop_column_sql(db, d),
                SchemaObjectType::UniqueConstraint => if db == DatabaseType::MySQL {
                    drop_index_sql(db, d)
                } else {
                    drop_constraint_sql(db, d.object_type, d)
                },
                SchemaObjectType::PrimaryKey | SchemaObjectType::ForeignKey
                | SchemaObjectType::CheckConstraint => drop_constraint_sql(db, d.object_type, d),
                SchemaObjectType::Index => drop_index_sql(db, d),
                SchemaObjectType::View => drop_object_sql(db, "VIEW"@, "view"@, d.object_name),
                SchemaObjectType::Procedure => drop_object_sql(
                    db,
                    "PROCEDURE"@,
                    "procedure"@,
                    d.object_name,
                ),
                SchemaObjectType::Function => drop_object_sql(
                    db,
                    "FUNCTION"@,
                    "function"@,
                    d.object_name,
                ),
                SchemaObjectType::Trigger => drop_trigger_sql(db, d),
                SchemaObjectType::Sequence => drop_object_sql(
                    db,
                    "SEQUENCE"@,
                    "sequence"@,
                    d.object_name,
                ),
            },
            ChangeType::Modification => if d.object_type == SchemaObjectType::Column {
                match db {
                    DatabaseType::PostgreSQL => pg_alter_column_sql(d),
                    DatabaseType::MySQL => mysql_modify_column_sql(d),
                    _ => sqlserver_alter_column_sql(d),
                }
            } else {
                replace_view_sql(db, d)
            },
        }
    }
}

fn is_supported(db: DatabaseType, t: SchemaObjectType, c: ChangeType) -> (r: bool)
    ensures
        r == supported(db, t, c),
{
    let kind = match db {
        DatabaseType::PostgreSQL | DatabaseType::SQLServer => true,
        DatabaseType::MySQL => t != SchemaObjectType::Sequence,
        DatabaseType::SQLite => t == SchemaObjectType::Table || t == SchemaObjectType::Column || t
            == SchemaObjectType::Index || t == SchemaObjectType::View || t
            == SchemaObjectType::Trigger,
    };
    match c {
        ChangeType::Modification => (t == SchemaObjectType::Column && db != DatabaseType::SQLite)
            || t == SchemaObjectType::View,
        _ => kind,
    }
}

fn unsupported_error(db: DatabaseType, t: SchemaObjectType, c: ChangeType) -> (e: SyncroDbError)
    ensures
        e@ == unsupported(db, t, c),
{
    let mut m = String::from_str(
        match db {
            DatabaseType::PostgreSQL => "Unsupported operation: ",
            DatabaseType::MySQL => "Unsupported MySQL operation: ",
            DatabaseType::SQLite => "Unsupported SQLite operation: ",
            DatabaseType::SQLServer => "Unsupported SQL Server operation: ",
        },
    );
    m.append(t.kind_name());
    m.append(" ");
    m.append(c.change_name());
    SyncroDbError::Migration(m)
}

fn emit_statement(db: DatabaseType, diff: &SchemaDifference) -> (r: Result<String, SyncroDbError>)
    ensures
        text_result(r) == statement_sql(db, diff@),
{
    let t = diff.object_type;
    if !is_supported(db, t, diff.change_type) {
        return Err(unsupported_error(db, t, diff.change_type));
    }
    match diff.change_type {
        ChangeType::Addition => match t {
            SchemaObjectType::Table => emit_create_table(db, diff),
            SchemaObjectType::Column => emit_add_column(db, diff),
            SchemaObjectType::PrimaryKey => emit_add_primary_key(db, diff),
            SchemaObjectType::ForeignKey => emit_add_foreign_key(db, diff),
            SchemaObjectType::UniqueConstraint => emit_add_unique(db, diff),
            SchemaObjectType::CheckConstraint => emit_add_check(db, diff),
            SchemaObjectType::Index => emit_create_index(db, diff),
            SchemaObjectType::View => emit_create_view(db, diff),
            SchemaObjectType::Procedure => emit_create_procedure(db, diff),
            SchemaObjectType::Function => emit_create_function(db, diff),
            SchemaObjectType::Trigger => emit_create_trigger(db, diff),
            SchemaObjectType::Sequence => emit_create_sequence(db, diff),
        },
        ChangeType::Deletion => match t {
            SchemaObjectType::Table => emit_drop_object(
                db,
                "TABLE",
                "table",
                diff.object_name.as_str(),
            ),
            SchemaObjectType::Column => emit_drop_column(db, diff),
            SchemaObjectType::UniqueConstraint => if db == DatabaseType::MySQL {
                emit_drop_index(db, diff)
            } else {
                emit_drop_constraint(db, t, diff)
            },
            SchemaObjectType::PrimaryKey | SchemaObjectType::ForeignKey
            | SchemaObjectType::CheckConstraint => emit_drop_constraint(db, t, diff),
            SchemaObjectType::Index => emit_drop_index(db, diff),
            SchemaObjectType::View => emit_drop_object(
                db,
                "VIEW",
                "view",
                diff.object_name.as_str(),
            ),
            SchemaObjectType::Procedure => emit_drop_object(
                db,
                "PROCEDURE",
                "procedure",
                diff.object_name.as_str(),
            ),
            SchemaObjectType::Function => emit_drop_object(
                db,
                "FUNCTION",
                "function",
                diff.object_name.as_str(),
            ),
            SchemaObjectType::Trigger => emit_drop_trigger(db, diff),
            SchemaObjectType::Sequence => emit_drop_object(
                db,
                "SEQUENCE",
                "sequence",
                diff.object_name.as_str(),
            ),
        },
        ChangeType::Modification => if t == SchemaObjectType::Column {
            match db {
                DatabaseType::PostgreSQL => emit_pg_alter_column(diff),
                DatabaseType::MySQL => emit_mysql_modify_column(diff),
                _ => emit_sqlserver_alter_column(diff),
            }
        } else {
            emit_replace_view(db, diff)
        },
    }
}

// ---------------------------------------------------------------------------
// Which operations, in which order
// ---------------------------------------------------------------------------

/// The names of the selected operations.
pub open spec fn ids_of(ids: Seq<String>) -> Seq<Seq<char>> {
    ids.map_values(|s: String| s@)
}

/// The differences whose identifier is selected, in their given order.
pub open spec fn selected(diffs: Seq<DifferenceModel>, ids: Seq<Seq<char>>) -> Seq<DifferenceModel>
    decreases diffs.len(),
{
    if diffs.len() == 0 {
        diffs
    } else if ids.contains(diffs.last().id) {
        selected(diffs.drop_last(), ids).push(diffs.last())
    } else {
        selected(diffs.drop_last(), ids)
    }
}

/// Where a kind comes among creations: what other objects rest on comes first, so tables
/// precede their columns and keys, and foreign keys follow the keys they reference.
pub open spec fn creation_position(t: SchemaObjectType) -> nat {
    match t {
        SchemaObjectType::Table => 0,
        SchemaObjectType::Column => 1,
        SchemaObjectType::PrimaryKey => 2,
        SchemaObjectType::UniqueConstraint => 3,
        SchemaObjectType::CheckConstraint => 4,
        SchemaObjectType::Index => 5,
        SchemaObjectType::ForeignKey => 6,
        SchemaObjectType::Sequence => 7,
        SchemaObjectType::View => 8,
        SchemaObjectType::Function => 9,
        SchemaObjectType::Procedure => 10,
        SchemaObjectType::Trigger => 11,
    }
}

/// Where a kind comes among drops: what rests on other objects goes first.
pub open spec fn removal_position(t: SchemaObjectType) -> nat {
    match t {
        SchemaObjectType::Trigger => 0,
        SchemaObjectType::View => 1,
        SchemaObjectType::ForeignKey => 2,
        SchemaObjectType::Index => 3,
        SchemaObjectType::CheckConstraint => 4,
        SchemaObjectType::UniqueConstraint => 5,
        SchemaObjectType::PrimaryKey => 6,
        SchemaObjectType::Column => 7,
        SchemaObjectType::Table => 8,
        SchemaObjectType::Procedure => 9,
        SchemaObjectType::Function => 10,
        SchemaObjectType::Sequence => 11,
    }
}

/// The number of ranks; every difference has one below it.
pub open spec fn rank_count() -> nat {
    36
}

/// The slot of a difference in a script: all creations, then all modifications (in creation
/// order), then all drops (in removal order).
pub open spec fn rank(d: DifferenceModel) -> nat {
    match d.change_type {
        ChangeType::Addition => creation_position(d.object_type),
        ChangeType::Modification => 12 + creation_position(d.object_type),
        ChangeType::Deletion => 24 + removal_position(d.object_type),
    }
}

/// The differences of one rank, in their given order.
pub open spec fn of_rank(s: Seq<DifferenceModel>, r: nat) -> Seq<DifferenceModel>
    decreases s.len(),
{
    if s.len() == 0 {
        s
    } else if rank(s.last()) == r {
        of_rank(s.drop_last(), r).push(s.last())
    } else {
        of_rank(s.drop_last(), r)
    }
}

/// The differences of the ranks below `n`, rank by rank.
pub open spec fn ordered_upto(s: Seq<DifferenceModel>, n: nat) -> Seq<DifferenceModel>
    decreases n,
{
    if n == 0 {
        Seq::empty()
    } else {
        ordered_upto(s, (n - 1) as nat) + of_rank(s, (n - 1) as nat)
    }
}

/// The order in which a script runs the operations: by rank, and within a rank as given.
pub open spec fn operation_order(s: Seq<DifferenceModel>) -> Seq<DifferenceModel> {
    ordered_upto(s, rank_count())
}

/// The differences at the given positions.
pub open spec fn picks(m: Seq<DifferenceModel>, idx: Seq<usize>) -> Seq<DifferenceModel> {
    idx.map_values(|k: usize| m[k as int])
}

pub open spec fn within(idx: Seq<usize>, n: nat) -> bool {
    forall|k: int| 0 <= k < idx.len() ==> #[trigger] idx[k] < n
}

fn rank_of(d: &SchemaDifference) -> (r: u8)
    ensures
        r == rank(d@),
{
    let creation: u8 = match d.object_type {
        SchemaObjectType::Table => 0,
        SchemaObjectType::Column => 1,
        SchemaObjectType::PrimaryKey => 2,
        SchemaObjectType::UniqueConstraint => 3,
        SchemaObjectType::CheckConstraint => 4,
        SchemaObjectType::Index => 5,
        SchemaObjectType::ForeignKey => 6,
        SchemaObjectType::Sequence => 7,
        SchemaObjectType::View => 8,
        SchemaObjectType::Function => 9,
        SchemaObjectType::Procedure => 10,
        SchemaObjectType::Trigger => 11,
    };
    let removal: u8 = match d.object_type {
        SchemaObjectType::Trigger => 0,
        SchemaObjectType::View => 1,
        SchemaObjectType::ForeignKey => 2,
        SchemaObjectType::Index => 3,
        SchemaObjectType::CheckConstraint => 4,
        SchemaObjectType::UniqueConstraint => 5,
        SchemaObjectType::PrimaryKey => 6,
        SchemaObjectType::Column => 7,
        SchemaObjectType::Table => 8,
        SchemaObjectType::Procedure => 9,
        SchemaObjectType::Function => 10,
        SchemaObjectType::Sequence => 11,
    };
    match d.change_type {
        ChangeType::Addition => creation,
        ChangeType::Modification => 12 + creation,
        ChangeType::Deletion => 24 + removal,
    }
}

fn is_selected(ids: &[String], id: &String) -> (r: bool)
    ensures
        r == ids_of(ids@).contains(id@),
{
    for j in 0..ids.len()
        invariant
            forall|k: int| 0 <= k < j ==> #[trigger] ids@[k]@ != id@,
    {
        if ids[j] == *id {
            assert(ids_of(ids@)[j as int] == id@);
            return true;
        }
    }
    assert forall|k: int| 0 <= k < ids_of(ids@).len() implies #[trigger] ids_of(ids@)[k]
        != id@ by {
        assert(ids@[k]@ != id@);
    }
    false
}

fn select_indices(diffs: &[SchemaDifference], ids: &[String]) -> (r: Vec<usize>)
    ensures
        within(r@, diffs@.len()),
        picks(models(diffs@), r@) == selected(models(diffs@), ids_of(ids@)),
{
    let ghost m = models(diffs@);
    let mut r: Vec<usize> = Vec::new();
    for i in 0..diffs.len()
        invariant
            m == models(diffs@),
            within(r@, diffs@.len()),
            picks(m, r@) == selected(m.take(i as int), ids_of(ids@)),
    {
        assert(m.take(i + 1).drop_last() == m.take(i as int));
        assert(m.take(i + 1).last() == diffs@[i as int]@);
        if is_selected(ids, &diffs[i].id) {
            assert(picks(m, r@.push(i)) == picks(m, r@).push(m[i as int]));
            r.push(i);
        }
    }
    assert(m.take(diffs.len() as int) == m);
    r
}

// ---------------------------------------------------------------------------
// Scripts
// ---------------------------------------------------------------------------

pub open spec fn transaction_begin(db: DatabaseType) -> Seq<char> {
    match db {
        DatabaseType::PostgreSQL | DatabaseType::SQLite => "BEGIN;"@,
        DatabaseType::MySQL => "START TRANSACTION;"@,
        DatabaseType::SQLServer => "BEGIN TRANSACTION;"@,
    }
}

pub open spec fn transaction_commit() -> Seq<char> {
    "COMMIT;"@
}

/// The name of an object kind in lower case.
pub open spec fn lower_kind_name(t: SchemaObjectType) -> Seq<char> {
    match t {
        SchemaObjectType::Table => "table"@,
        SchemaObjectType::Column => "column"@,
        SchemaObjectType::PrimaryKey => "primarykey"@,
        SchemaObjectType::ForeignKey => "foreignkey"@,
        SchemaObjectType::UniqueConstraint => "uniqueconstraint"@,
        SchemaObjectType::CheckConstraint => "checkconstraint"@,
        SchemaObjectType::Index => "index"@,
        SchemaObjectType::View => "view"@,
        SchemaObjectType::Procedure => "procedure"@,
        SchemaObjectType::Function => "function"@,
        SchemaObjectType::Trigger => "trigger"@,
        SchemaObjectType::Sequence => "sequence"@,
    }
}

pub open spec fn change_verb(c: ChangeType) -> Seq<char> {
    match c {
        ChangeType::Deletion => "drop"@,
        ChangeType::Modification => "modify"@,
        ChangeType::Addition => "affect"@,
    }
}

/// The comment put before a destructive operation.
pub open spec fn safety_comment(d: DifferenceModel) -> Seq<char> {
    "-- WARNING: DESTRUCTIVE OPERATION\n-- This operation will "@ + change_verb(d.change_type) + " "@
        + lower_kind_name(d.object_type) + "\n-- Object: "@ + d.object_name
        + "\n-- Review carefully before executing\n"@
}

pub open spec fn savepoint_line(n: nat) -> Seq<char> {
    "SAVEPOINT sp_operation_"@ + nat_text(n) + ";\n"@
}

/// The `n`-th operation of a script: its savepoint, a warning if it is destructive, its SQL.
pub open spec fn step_text(n: nat, d: DifferenceModel, sql: Seq<char>) -> Seq<char> {
    savepoint_line(n) + (if d.destructive {
        safety_comment(d)
    } else {
        Seq::empty()
    }) + sql + "\n\n"@
}

/// The operations one after another, or the error of the first that has no SQL.
pub open spec fn script_steps(db: DatabaseType, ops: Seq<DifferenceModel>) -> Result<
    Seq<char>,
    ErrorModel,
>
    decreases ops.len(),
{
    if ops.len() == 0 {
        Ok(Seq::empty())
    } else {
        match script_steps(db, ops.drop_last()) {
            Err(e) => Err(e),
            Ok(prefix) => match statement_sql(db, ops.last()) {
                Err(e) => Err(e),
                Ok(sql) => Ok(prefix + step_text(ops.len(), ops.last(), sql)),
            },
        }
    }
}

/// The migration script for the selected differences: empty when none is selected, else one
/// transaction that runs them in operation order.
pub open spec fn migration_script(
    db: DatabaseType,
    diffs: Seq<DifferenceModel>,
    ids: Seq<Seq<char>>,
) -> Result<Seq<char>, ErrorModel> {
    let chosen = selected(diffs, ids);
    if chosen.len() == 0 {
        Ok(Seq::empty())
    } else {
        match script_steps(db, operation_order(chosen)) {
            Err(e) => Err(e),
            Ok(body) => Ok(transaction_begin(db) + "\n\n"@ + body + transaction_commit()),
        }
    }
}

/// An error among the first `k` operations is the error of the whole script.
proof fn lemma_steps_error_prefix(db: DatabaseType, ops: Seq<DifferenceModel>, k: int)
    requires
        0 <= k <= ops.len(),
        script_steps(db, ops.take(k)) is Err,
    ensures
        script_steps(db, ops) == script_steps(db, ops.take(k)),
    decreases ops.len(),
{
    if k == ops.len() {
        assert(ops.take(k) == ops);
    } else {
        assert(ops.drop_last().take(k) == ops.take(k));
        lemma_steps_error_prefix(db, ops.drop_last(), k);
    }
}

proof fn lemma_steps_extend(
    db: DatabaseType,
    ops: Seq<DifferenceModel>,
    i: int,
    prefix: Seq<char>,
    sql: Seq<char>,
)
    requires
        0 <= i < ops.len(),
        script_steps(db, ops.take(i)) == Ok::<_, ErrorModel>(prefix),
        statement_sql(db, ops[i]) == Ok::<_, ErrorModel>(sql),
    ensures
        script_steps(db, ops.take(i + 1)) == Ok::<_, ErrorModel>(
            prefix + step_text((i + 1) as nat, ops[i], sql),
        ),
{
    assert(ops.take(i + 1).drop_last() == ops.take(i));
    assert(ops.take(i + 1).last() == ops[i]);
}

proof fn lemma_steps_fail(
    db: DatabaseType,
    ops: Seq<DifferenceModel>,
    i: int,
    prefix: Seq<char>,
    e: ErrorModel,
)
    requires
        0 <= i < ops.len(),
        script_steps(db, ops.take(i)) == Ok::<_, ErrorModel>(prefix),
        statement_sql(db, ops[i]) == Err::<Seq<char>, _>(e),
    ensures
        script_steps(db, ops.take(i + 1)) == Err::<Seq<char>, _>(e),
{
    assert(ops.take(i + 1).drop_last() == ops.take(i));
    assert(ops.take(i + 1).last() == ops[i]);
}

/// Generates migration scripts for one database engine.
pub struct MigrationGenerator {
    db_type: DatabaseType,
}

impl MigrationGenerator {
    /// The engine whose dialect the scripts are written in.
    pub closed spec fn database_type(&self) -> DatabaseType {
        self.db_type
    }

    pub fn new(db_type: DatabaseType) -> (r: Self)
        ensures
            r.database_type() == db_type,
    {
        MigrationGenerator { db_type }
    }

    /// The script that applies the differences whose identifiers are selected: an empty
    /// text when none is, else `BEGIN` (as the dialect writes it), for each operation in
    /// operation order a numbered savepoint, a warning if it is destructive and its SQL, and
    /// `COMMIT;`. Fails with the error of the first operation that has no SQL.
    pub fn generate_script(
        &self,
        differences: &[SchemaDifference],
        selected_operation_ids: &[String],
    ) -> (r: Result<String, SyncroDbError>)
        ensures
            text_result(r) == migration_script(
                self.database_type(),
                models(differences@),
                ids_of(selected_operation_ids@),
            ),
    {
        let ghost m = models(differences@);
        let chosen = select_indices(differences, selected_operation_ids);
        if chosen.len() == 0 {
            return Ok(String::new());
        }
        let order = self.sort_operations_by_dependencies(differences, &chosen);
        let ghost ops = picks(m, order@);
        let ghost ids = ids_of(selected_operation_ids@);
        let mut body = String::new();
        for i in 0..order.len()
            invariant
                m == models(differences@),
                ops == picks(m, order@),
                ids == ids_of(selected_operation_ids@),
                ops == operation_order(selected(m, ids)),
                selected(m, ids).len() != 0,
                within(order@, differences@.len()),
                script_steps(self.db_type, ops.take(i as int)) == Ok::<_, ErrorModel>(body@),
        {
            let diff = &differences[order[i]];
            assert(ops[i as int] == diff@);
            match self.generate_sql_for_difference(diff) {
                Ok(sql) => {
                    proof {
                        lemma_steps_extend(self.db_type, ops, i as int, body@, sql@);
                    }
                    self.append_step(&mut body, i + 1, diff, &sql);
                },
                Err(e) => {
                    proof {
                        lemma_steps_fail(self.db_type, ops, i as int, body@, e@);
                        lemma_steps_error_prefix(self.db_type, ops, i + 1);
                    }
                    return Err(e);
                },
            }
        }
        assert(ops.take(order.len() as int) == ops);
        let mut script = self.generate_transaction_begin();
        script.append("\n\n");
        script.append(body.as_str());
        script.append(self.generate_transaction_commit().as_str());
        Ok(script)
    }

    /// The positions of the chosen differences in operation order.
    fn sort_operations_by_dependencies(
        &self,
        differences: &[SchemaDifference],
        chosen: &Vec<usize>,
    ) -> (r: Vec<usize>)
        requires
            within(chosen@, differences@.len()),
        ensures
            within(r@, differences@.len()),
            picks(models(differences@), r@) == operation_order(
                picks(models(differences@), chosen@),
            ),
    {
        let ghost m = models(differences@);
        let ghost s = picks(m, chosen@);
        let mut r: Vec<usize> = Vec::new();
        let mut current: u8 = 0;
        while current < 36
            invariant
                m == models(differences@),
                s == picks(m, chosen@),
                within(chosen@, differences@.len()),
                current <= 36,
                within(r@, differences@.len()),
                picks(m, r@) == ordered_upto(s, current as nat),
            decreases 36 - current,
        {
            for k in 0..chosen.len()
                invariant
                    m == models(differences@),
                    s == picks(m, chosen@),
                    within(chosen@, differences@.len()),
                    current < 36,
                    within(r@, differences@.len()),
                    picks(m, r@) == ordered_upto(s, current as nat) + of_rank(
                        s.take(k as int),
                        current as nat,
                    ),
            {
                let idx = chosen[k];
                assert(s.take(k + 1).drop_last() == s.take(k as int));
                assert(s.take(k + 1).last() == m[idx as int]);
                if rank_of(&differences[idx]) == current {
                    assert(picks(m, r@.push(idx)) == picks(m, r@).push(m[idx as int]));
                    r.push(idx);
                }
            }
            assert(s.take(chosen.len() as int) == s);
            current = current + 1;
        }
        r
    }

    /// Appends the `n`-th operation of a script.
    fn append_step(&self, body: &mut String, n: usize, diff: &SchemaDifference, sql: &String)
        ensures
            final(body)@ == old(body)@ + step_text(n as nat, diff@, sql@),
    {
        let ghost start = body@;
        let mut step = String::from_str("SAVEPOINT sp_operation_");
        step.append(u64_text(n as u64).as_str());
        step.append(";\n");
        if diff.destructive {
            step.append(self.generate_safety_comment(diff).as_str());
        } else {
            step.append("");
            proof {
                reveal_strlit("");
            }
        }
        step.append(sql.as_str());
        step.append("\n\n");
        body.append(step.as_str());
    }

    fn generate_sql_for_difference(&self, diff: &SchemaDifference) -> (r: Result<
        String,
        SyncroDbError,
    >)
        ensures
            text_result(r) == statement_sql(self.database_type(), diff@),
    {
        emit_statement(self.db_type, diff)
    }

    fn generate_transaction_begin(&self) -> (r: String)
        ensures
            r@ == transaction_begin(self.database_type()),
    {
        match self.db_type {
            DatabaseType::PostgreSQL | DatabaseType::SQLite => String::from_str("BEGIN;"),
            DatabaseType::MySQL => String::from_str("START TRANSACTION;"),
            DatabaseType::SQLServer => String::from_str("BEGIN TRANSACTION;"),
        }
    }

    fn generate_transaction_commit(&self) -> (r: String)
        ensures
            r@ == transaction_commit(),
    {
        String::from_str("COMMIT;")
    }

    fn generate_safety_comment(&self, diff: &SchemaDifference) -> (r: String)
        ensures
            r@ == safety_comment(diff@),
    {
        let verb = match diff.change_type {
            ChangeType::Deletion => "drop",
            ChangeType::Modification => "modify",
            ChangeType::Addition => "affect",
        };
        let kind = match diff.object_type {
            SchemaObjectType::Table => "table",
            SchemaObjectType::Column => "column",
            SchemaObjectType::PrimaryKey => "primarykey",
            SchemaObjectType::ForeignKey => "foreignkey",
            SchemaObjectType::UniqueConstraint => "uniqueconstraint",
            SchemaObjectType::CheckConstraint => "checkconstraint",
            SchemaObjectType::Index => "index",
            SchemaObjectType::View => "view",
            SchemaObjectType::Procedure => "procedure",
            SchemaObjectType::Function => "function",
            SchemaObjectType::Trigger => "trigger",
            SchemaObjectType::Sequence => "sequence",
        };
        let mut r = String::from_str("-- WARNING: DESTRUCTIVE OPERATION\n-- This operation will ");
        r.append(verb);
        r.append(" ");
        r.append(kind);
        r.append("\n-- Object: ");
        r.append(diff.object_name.as_str());
        r.append("\n-- Review carefully before executing\n");
        r
    }
}

impl Default for MigrationGenerator {
    fn default() -> (r: Self)
        ensures
            r.database_type() == DatabaseType::PostgreSQL,
    {
        Self::new(DatabaseType::PostgreSQL)
    }
}

// ---------------------------------------------------------------------------
// Laws of the operation order
// ---------------------------------------------------------------------------

proof fn lemma_rank_bound(d: DifferenceModel)
    ensures
        rank(d) < rank_count(),
{
}

proof fn lemma_empty_count(s: Seq<DifferenceModel>, x: DifferenceModel)
    requires
        s.len() == 0,
    ensures
        s.to_multiset().count(x) == 0,
{
    broadcast use vstd::seq_lib::to_multiset_contains;

    assert(!s.contains(x));
}

proof fn lemma_of_rank_count(s: Seq<DifferenceModel>, r: nat, x: DifferenceModel)
    ensures
        of_rank(s, r).to_multiset().count(x) == if rank(x) == r {
            s.to_multiset().count(x)
        } else {
            0
        },
    decreases s.len(),
{
    broadcast use vstd::multiset::group_multiset_axioms, vstd::seq_lib::to_multiset_build;

    if s.len() == 0 {
        lemma_empty_count(s, x);
    } else {
        let t = s.drop_last();
        assert(s == t.push(s.last()));
        lemma_of_rank_count(t, r, x);
    }
}

proof fn lemma_ordered_count(s: Seq<DifferenceModel>, n: nat, x: DifferenceModel)
    ensures
        ordered_upto(s, n).to_multiset().count(x) == if rank(x) < n {
            s.to_multiset().count(x)
        } else {
            0
        },
    decreases n,
{
    broadcast use vstd::multiset::group_multiset_axioms, vstd::seq_lib::lemma_multiset_commutative;

    if n == 0 {
        lemma_empty_count(ordered_upto(s, n), x);
    } else {
        lemma_ordered_count(s, (n - 1) as nat, x);
        lemma_of_rank_count(s, (n - 1) as nat, x);
    }
}

proof fn lemma_of_rank_ranks(s: Seq<DifferenceModel>, r: nat)
    ensures
        forall|i: int| 0 <= i < of_rank(s, r).len() ==> rank(#[trigger] of_rank(s, r)[i]) == r,
    decreases s.len(),
{
    if s.len() > 0 {
        let t = of_rank(s.drop_last(), r);
        lemma_of_rank_ranks(s.drop_last(), r);
        if rank(s.last()) == r {
            assert forall|i: int| 0 <= i < of_rank(s, r).len() implies rank(
                #[trigger] of_rank(s, r)[i],
            ) == r by {
                if i < t.len() {
                    assert(of_rank(s, r)[i] == t[i]);
                }
            }
        }
    }
}

proof fn lemma_ordered_ranks(s: Seq<DifferenceModel>, n: nat)
    ensures
        forall|i: int|
            0 <= i < ordered_upto(s, n).len() ==> rank(#[trigger] ordered_upto(s, n)[i]) < n,
        forall|i: int, j: int|
            0 <= i < j < ordered_upto(s, n).len() ==> rank(#[trigger] ordered_upto(s, n)[i]) <= rank(
                #[trigger] ordered_upto(s, n)[j],
            ),
    decreases n,
{
    if n > 0 {
        let m = (n - 1) as nat;
        lemma_ordered_ranks(s, m);
        lemma_of_rank_ranks(s, m);
        let a = ordered_upto(s, m);
        let b = of_rank(s, m);
        let o = ordered_upto(s, n);
        assert(o == a + b);
        assert forall|i: int| 0 <= i < o.len() implies rank(#[trigger] o[i]) < n by {
            if i >= a.len() {
                assert(o[i] == b[i - a.len()]);
            } else {
                assert(o[i] == a[i]);
            }
        }
        assert forall|i: int, j: int| 0 <= i < j < o.len() implies rank(#[trigger] o[i]) <= rank(
            #[trigger] o[j],
        ) by {
            if j < a.len() {
                assert(o[i] == a[i] && o[j] == a[j]);
            } else if i < a.len() {
                assert(o[i] == a[i] && o[j] == b[j - a.len()]);
            } else {
                assert(o[i] == b[i - a.len()] && o[j] == b[j - a.len()]);
            }
        }
    }
}

proof fn lemma_of_rank_add(a: Seq<DifferenceModel>, b: Seq<DifferenceModel>, r: nat)
    ensures
        of_rank(a + b, r) == of_rank(a, r) + of_rank(b, r),
    decreases b.len(),
{
    if b.len() == 0 {
        assert(a + b == a);
        assert(of_rank(a, r) + of_rank(b, r) == of_rank(a, r));
    } else {
        assert((a + b).drop_last() == a + b.drop_last());
        assert((a + b).last() == b.last());
        lemma_of_rank_add(a, b.drop_last(), r);
        assert(of_rank(a, r) + of_rank(b.drop_last(), r).push(b.last()) == (of_rank(a, r)
            + of_rank(b.drop_last(), r)).push(b.last()));
    }
}

proof fn lemma_of_rank_twice(s: Seq<DifferenceModel>, q: nat, r: nat)
    ensures
        of_rank(of_rank(s, q), r) == if r == q {
            of_rank(s, r)
        } else {
            Seq::<DifferenceModel>::empty()
        },
    decreases s.len(),
{
    if s.len() > 0 {
        lemma_of_rank_twice(s.drop_last(), q, r);
        if rank(s.last()) == q {
            let t = of_rank(s.drop_last(), q);
            assert(t.push(s.last()).drop_last() == t);
        }
    }
}

proof fn lemma_of_rank_absent(s: Seq<DifferenceModel>, r: nat)
    requires
        r >= rank_count(),
    ensures
        of_rank(s, r) == Seq::<DifferenceModel>::empty(),
    decreases s.len(),
{
    if s.len() > 0 {
        lemma_of_rank_absent(s.drop_last(), r);
    }
}

proof fn lemma_ordered_of_rank(s: Seq<DifferenceModel>, n: nat, r: nat)
    ensures
        of_rank(ordered_upto(s, n), r) == if r < n {
            of_rank(s, r)
        } else {
            Seq::<DifferenceModel>::empty()
        },
    decreases n,
{
    if n > 0 {
        let m = (n - 1) as nat;
        lemma_ordered_of_rank(s, m, r);
        lemma_of_rank_add(ordered_upto(s, m), of_rank(s, m), r);
        lemma_of_rank_twice(s, m, r);
        assert(Seq::<DifferenceModel>::empty() + of_rank(s, r) == of_rank(s, r));
        assert(of_rank(s, r) + Seq::<DifferenceModel>::empty() == of_rank(s, r));
        assert(Seq::<DifferenceModel>::empty() + Seq::<DifferenceModel>::empty()
            == Seq::<DifferenceModel>::empty());
    }
}

/// A script runs exactly the selected operations: each as often as it was selected.
pub proof fn law_operation_order_is_permutation(s: Seq<DifferenceModel>)
    ensures
        operation_order(s).to_multiset() == s.to_multiset(),
        operation_order(s).len() == s.len(),
{
    assert forall|x: DifferenceModel| #[trigger] operation_order(s).to_multiset().count(x)
        == s.to_multiset().count(x) by {
        lemma_ordered_count(s, rank_count(), x);
        lemma_rank_bound(x);
    }
    assert(operation_order(s).to_multiset() =~= s.to_multiset());
    vstd::seq_lib::to_multiset_len(operation_order(s));
    vstd::seq_lib::to_multiset_len(s);
}

/// All creations come first, then all modifications, then all drops; among creations, an
/// object comes before those that rest on it, and among drops after them.
pub proof fn law_operation_order_is_sorted(s: Seq<DifferenceModel>)
    ensures
        forall|i: int, j: int|
            0 <= i < j < operation_order(s).len() ==> rank(#[trigger] operation_order(s)[i])
                <= rank(#[trigger] operation_order(s)[j]),
{
    lemma_ordered_ranks(s, rank_count());
}

/// Operations of the same rank keep the order in which they were given.
pub proof fn law_operation_order_is_stable(s: Seq<DifferenceModel>, r: nat)
    ensures
        of_rank(operation_order(s), r) == of_rank(s, r),
{
    lemma_ordered_of_rank(s, rank_count(), r);
    if r >= rank_count() {
        lemma_of_rank_absent(s, r);
    }
}

/// A table is created before any foreign key is added, and any foreign key is dropped before
/// a table is dropped.
pub proof fn law_tables_and_foreign_keys(s: Seq<DifferenceModel>)
    ensures
        forall|i: int, j: int|
            0 <= i < operation_order(s).len() && 0 <= j < operation_order(s).len()
                && (#[trigger] operation_order(s)[i]).object_type == SchemaObjectType::Table
                && operation_order(s)[i].change_type == ChangeType::Addition && (
            #[trigger] operation_order(s)[j]).object_type == SchemaObjectType::ForeignKey
                && operation_order(s)[j].change_type == ChangeType::Addition ==> i < j,
        forall|i: int, j: int|
            0 <= i < operation_order(s).len() && 0 <= j < operation_order(s).len()
                && (#[trigger] operation_order(s)[i]).object_type == SchemaObjectType::ForeignKey
                && operation_order(s)[i].change_type == ChangeType::Deletion && (
            #[trigger] operation_order(s)[j]).object_type == SchemaObjectType::Table
                && operation_order(s)[j].change_type == ChangeType::Deletion ==> i < j,
{
    law_operation_order_is_sorted(s);
}

// ---------------------------------------------------------------------------
// Laws of scripts
// ---------------------------------------------------------------------------

proof fn lemma_contains_self(p: Seq<char>)
    ensures
        contains_text(p, p),
{
    let z: int = 0;
    assert(p.subrange(z, z + p.len()) == p);
}

proof fn lemma_contains_right(a: Seq<char>, y: Seq<char>, p: Seq<char>)
    requires
        contains_text(a, p),
    ensures
        contains_text(a + y, p),
{
    let i = choose|i: int|
        0 <= i && i + p.len() <= a.len() && #[trigger] a.subrange(i, i + p.len()) == p;
    assert((a + y).subrange(i, i + p.len()) == a.subrange(i, i + p.len()));
}

proof fn lemma_contains_left(x: Seq<char>, a: Seq<char>, p: Seq<char>)
    requires
        contains_text(a, p),
    ensures
        contains_text(x + a, p),
{
    let i = choose|i: int|
        0 <= i && i + p.len() <= a.len() && #[trigger] a.subrange(i, i + p.len()) == p;
    let j = i + x.len();
    assert((x + a).subrange(j, j + p.len()) == a.subrange(i, i + p.len()));
}

proof fn lemma_contains_front(s: Seq<char>, p: Seq<char>, q: Seq<char>)
    requires
        contains_text(s, p + q),
    ensures
        contains_text(s, p),
{
    let w = p + q;
    let i = choose|i: int|
        0 <= i && i + w.len() <= s.len() && #[trigger] s.subrange(i, i + w.len()) == w;
    assert(s.subrange(i, i + p.len()) == s.subrange(i, i + w.len()).subrange(0, p.len() as int));
    assert(w.subrange(0, p.len() as int) == p);
}

proof fn lemma_contains_back(s: Seq<char>, p: Seq<char>, q: Seq<char>)
    requires
        contains_text(s, p + q),
    ensures
        contains_text(s, q),
{
    let w = p + q;
    let i = choose|i: int|
        0 <= i && i + w.len() <= s.len() && #[trigger] s.subrange(i, i + w.len()) == w;
    let j = i + p.len();
    assert(s.subrange(j, j + q.len()) == s.subrange(i, i + w.len()).subrange(
        p.len() as int,
        w.len() as int,
    ));
    assert(w.subrange(p.len() as int, w.len() as int) == q);
}

/// The pieces of one step that a script shows.
proof fn lemma_step_pieces(s: Seq<char>, n: nat, d: DifferenceModel, sql: Seq<char>)
    requires
        contains_text(s, step_text(n, d, sql)),
    ensures
        contains_text(s, savepoint_line(n)),
        contains_text(s, sql),
        d.destructive ==> contains_text(s, safety_comment(d)),
{
    let warning = if d.destructive {
        safety_comment(d)
    } else {
        Seq::empty()
    };
    lemma_contains_front(s, savepoint_line(n) + warning + sql, "\n\n"@);
    lemma_contains_front(s, savepoint_line(n) + warning, sql);
    lemma_contains_back(s, savepoint_line(n) + warning, sql);
    lemma_contains_front(s, savepoint_line(n), warning);
    lemma_contains_back(s, savepoint_line(n), warning);
}

/// Every operation of a successful run of steps has SQL, and its step is in the text.
proof fn lemma_steps_hold_each(db: DatabaseType, ops: Seq<DifferenceModel>, k: int)
    requires
        script_steps(db, ops) is Ok,
        0 <= k < ops.len(),
    ensures
        statement_sql(db, ops[k]) is Ok,
        contains_text(
            script_steps(db, ops)->Ok_0,
            step_text((k + 1) as nat, ops[k], statement_sql(db, ops[k])->Ok_0),
        ),
    decreases ops.len(),
{
    let prefix = script_steps(db, ops.drop_last())->Ok_0;
    let sql = statement_sql(db, ops.last())->Ok_0;
    let step = step_text(ops.len(), ops.last(), sql);
    if k == ops.len() - 1 {
        lemma_contains_self(step);
        lemma_contains_left(prefix, step, step);
    } else {
        lemma_steps_hold_each(db, ops.drop_last(), k);
        assert(ops.drop_last()[k] == ops[k]);
        lemma_contains_right(
            prefix,
            step,
            step_text((k + 1) as nat, ops[k], statement_sql(db, ops[k])->Ok_0),
        );
    }
}

/// A run of steps succeeds exactly when every operation has SQL.
proof fn lemma_steps_ok_iff(db: DatabaseType, ops: Seq<DifferenceModel>)
    ensures
        script_steps(db, ops) is Ok <==> forall|k: int|
            0 <= k < ops.len() ==> #[trigger] statement_sql(db, ops[k]) is Ok,
    decreases ops.len(),
{
    if ops.len() > 0 {
        lemma_steps_ok_iff(db, ops.drop_last());
        if script_steps(db, ops) is Ok {
            assert forall|k: int| 0 <= k < ops.len() implies #[trigger] statement_sql(
                db,
                ops[k],
            ) is Ok by {
                lemma_steps_hold_each(db, ops, k);
            }
        }
        if forall|k: int| 0 <= k < ops.len() ==> #[trigger] statement_sql(db, ops[k]) is Ok {
            assert forall|k: int| 0 <= k < ops.drop_last().len() implies #[trigger] statement_sql(
                db,
                ops.drop_last()[k],
            ) is Ok by {
                assert(ops.drop_last()[k] == ops[k]);
            }
            assert(statement_sql(db, ops[ops.len() - 1]) is Ok);
        }
    }
}

proof fn lemma_no_selection(diffs: Seq<DifferenceModel>)
    ensures
        selected(diffs, Seq::empty()).len() == 0,
    decreases diffs.len(),
{
    if diffs.len() > 0 {
        lemma_no_selection(diffs.drop_last());
    }
}

/// The same operations appear in the order a script runs them as were selected.
proof fn lemma_same_members(s: Seq<DifferenceModel>, x: DifferenceModel)
    ensures
        operation_order(s).contains(x) <==> s.contains(x),
{
    law_operation_order_is_permutation(s);
    vstd::seq_lib::to_multiset_contains(s, x);
    vstd::seq_lib::to_multiset_contains(operation_order(s), x);
}

/// Selecting nothing gives an empty script.
pub proof fn law_no_selection_no_script(db: DatabaseType, diffs: Seq<DifferenceModel>)
    ensures
        migration_script(db, diffs, Seq::empty()) == Ok::<Seq<char>, ErrorModel>(Seq::empty()),
{
    lemma_no_selection(diffs);
}

/// A script for a non-empty selection is one transaction: it opens with the dialect's `BEGIN`
/// and ends with `COMMIT;`.
pub proof fn law_script_is_one_transaction(
    db: DatabaseType,
    diffs: Seq<DifferenceModel>,
    ids: Seq<Seq<char>>,
)
    requires
        selected(diffs, ids).len() > 0,
        migration_script(db, diffs, ids) is Ok,
    ensures
        transaction_begin(db).is_prefix_of(migration_script(db, diffs, ids)->Ok_0),
        transaction_commit().is_suffix_of(migration_script(db, diffs, ids)->Ok_0),
{
    let script = migration_script(db, diffs, ids)->Ok_0;
    let body = script_steps(db, operation_order(selected(diffs, ids)))->Ok_0;
    let head = transaction_begin(db) + "\n\n"@ + body;
    assert(script == head + transaction_commit());
    assert(script.subrange(0, transaction_begin(db).len() as int) == transaction_begin(db));
    assert(script.subrange(head.len() as int, script.len() as int) == transaction_commit());
}

/// A script can be written exactly when every selected operation has SQL in the dialect.
pub proof fn law_script_succeeds_iff_every_statement_does(
    db: DatabaseType,
    diffs: Seq<DifferenceModel>,
    ids: Seq<Seq<char>>,
)
    ensures
        migration_script(db, diffs, ids) is Ok <==> forall|j: int|
            0 <= j < selected(diffs, ids).len() ==> #[trigger] statement_sql(
                db,
                selected(diffs, ids)[j],
            ) is Ok,
{
    let sel = selected(diffs, ids);
    let ops = operation_order(sel);
    lemma_steps_ok_iff(db, ops);
    law_operation_order_is_permutation(sel);
    if script_steps(db, ops) is Ok {
        assert forall|j: int| 0 <= j < sel.len() implies #[trigger] statement_sql(db, sel[j]) is Ok by {
            lemma_same_members(sel, sel[j]);
            assert(sel.contains(sel[j]));
            let k = choose|k: int| 0 <= k < ops.len() && ops[k] == sel[j];
            assert(statement_sql(db, ops[k]) is Ok);
        }
    }
    if forall|j: int| 0 <= j < sel.len() ==> #[trigger] statement_sql(db, sel[j]) is Ok {
        assert forall|k: int| 0 <= k < ops.len() implies #[trigger] statement_sql(db, ops[k]) is Ok by {
            lemma_same_members(sel, ops[k]);
            assert(ops.contains(ops[k]));
            let j = choose|j: int| 0 <= j < sel.len() && sel[j] == ops[k];
            assert(statement_sql(db, sel[j]) is Ok);
        }
    }
}

/// A script holds one numbered savepoint per selected operation, the SQL of each selected
/// operation, and a warning before each destructive one.
pub proof fn law_script_covers_every_operation(
    db: DatabaseType,
    diffs: Seq<DifferenceModel>,
    ids: Seq<Seq<char>>,
)
    requires
        migration_script(db, diffs, ids) is Ok,
    ensures
        forall|n: nat|
            1 <= n <= selected(diffs, ids).len() ==> contains_text(
                migration_script(db, diffs, ids)->Ok_0,
                #[trigger] savepoint_line(n),
            ),
        forall|j: int|
            0 <= j < selected(diffs, ids).len() ==> contains_text(
                migration_script(db, diffs, ids)->Ok_0,
                #[trigger] statement_sql(db, selected(diffs, ids)[j])->Ok_0,
            ),
        forall|j: int|
            0 <= j < selected(diffs, ids).len() && (#[trigger] selected(diffs, ids)[j]).destructive
                ==> contains_text(
                migration_script(db, diffs, ids)->Ok_0,
                safety_comment(selected(diffs, ids)[j]),
            ),
{
    let sel = selected(diffs, ids);
    let ops = operation_order(sel);
    let script = migration_script(db, diffs, ids)->Ok_0;
    law_operation_order_is_permutation(sel);
    if sel.len() > 0 {
        let body = script_steps(db, ops)->Ok_0;
        let lead = transaction_begin(db) + "\n\n"@;
        assert(script == lead + body + transaction_commit());
        assert forall|k: int| 0 <= k < ops.len() implies contains_text(
            script,
            step_text((k + 1) as nat, ops[k], statement_sql(db, ops[k])->Ok_0),
        ) by {
            let step = step_text((k + 1) as nat, ops[k], statement_sql(db, ops[k])->Ok_0);
            lemma_steps_hold_each(db, ops, k);
            lemma_contains_left(lead, body, step);
            lemma_contains_right(lead + body, transaction_commit(), step);
        }
        assert forall|n: nat| 1 <= n <= sel.len() implies contains_text(
            script,
            #[trigger] savepoint_line(n),
        ) by {
            let k = n - 1;
            lemma_step_pieces(
                script,
                (k + 1) as nat,
                ops[k],
                statement_sql(db, ops[k])->Ok_0,
            );
        }
        assert forall|j: int| 0 <= j < sel.len() implies contains_text(
            script,
            #[trigger] statement_sql(db, sel[j])->Ok_0,
        ) && (sel[j].destructive ==> contains_text(script, safety_comment(sel[j]))) by {
            lemma_same_members(sel, sel[j]);
            assert(sel.contains(sel[j]));
            let k = choose|k: int| 0 <= k < ops.len() && ops[k] == sel[j];
            lemma_step_pieces(
                script,
                (k + 1) as nat,
                ops[k],
                statement_sql(db, ops[k])->Ok_0,
            );
        }
    }
}

// ---------------------------------------------------------------------------
// Laws of selection
// ---------------------------------------------------------------------------

/// Selection only asks, of each difference, whether its identifier is listed.
proof fn lemma_selected_by_membership(
    diffs: Seq<DifferenceModel>,
    ids: Seq<Seq<char>>,
    other: Seq<Seq<char>>,
)
    requires
        forall|k: int|
            0 <= k < diffs.len() ==> (ids.contains(#[trigger] diffs[k].id) <==> other.contains(
                diffs[k].id,
            )),
    ensures
        selected(diffs, ids) == selected(diffs, other),
    decreases diffs.len(),
{
    if diffs.len() > 0 {
        let rest = diffs.drop_last();
        assert forall|k: int| 0 <= k < rest.len() implies (ids.contains(#[trigger] rest[k].id)
            <==> other.contains(rest[k].id)) by {
            assert(rest[k] == diffs[k]);
        }
        lemma_selected_by_membership(rest, ids, other);
        assert(diffs.last() == diffs[diffs.len() - 1]);
    }
}

/// Selecting again from a selection changes nothing.
proof fn lemma_selected_twice(diffs: Seq<DifferenceModel>, ids: Seq<Seq<char>>)
    ensures
        selected(selected(diffs, ids), ids) == selected(diffs, ids),
    decreases diffs.len(),
{
    if diffs.len() > 0 {
        lemma_selected_twice(diffs.drop_last(), ids);
        if ids.contains(diffs.last().id) {
            let rest = selected(diffs.drop_last(), ids);
            assert(rest.push(diffs.last()).drop_last() == rest);
        }
    }
}

/// A script depends only on the selected differences and on which identifiers are listed:
/// leaving out the unselected differences, listing identifiers that name no difference, or
/// listing them in another order gives the same script.
pub proof fn law_selection_decides_the_script(
    db: DatabaseType,
    diffs: Seq<DifferenceModel>,
    ids: Seq<Seq<char>>,
    other: Seq<Seq<char>>,
)
    requires
        forall|k: int|
            0 <= k < diffs.len() ==> (ids.contains(#[trigger] diffs[k].id) <==> other.contains(
                diffs[k].id,
            )),
    ensures
        migration_script(db, diffs, ids) == migration_script(db, diffs, other),
        migration_script(db, diffs, ids) == migration_script(db, selected(diffs, ids), ids),
{
    lemma_selected_by_membership(diffs, ids, other);
    lemma_selected_twice(diffs, ids);
}

/// Two lists of identifiers that hold the same identifiers, in any order and with any
/// repetition, select the same script; so does a list with further identifiers that name no
/// difference.
pub proof fn law_identifier_order_and_extras_do_not_matter(
    db: DatabaseType,
    diffs: Seq<DifferenceModel>,
    ids: Seq<Seq<char>>,
    extra: Seq<Seq<char>>,
    perm: Seq<Seq<char>>,
)
    requires
        forall|x: Seq<char>| ids.contains(x) <==> perm.contains(x),
        forall|k: int| 0 <= k < diffs.len() ==> !extra.contains(#[trigger] diffs[k].id),
    ensures
        migration_script(db, diffs, ids) == migration_script(db, diffs, perm),
        migration_script(db, diffs, ids) == migration_script(db, diffs, ids + extra),
{
    law_selection_decides_the_script(db, diffs, ids, perm);
    assert forall|k: int| 0 <= k < diffs.len() implies (ids.contains(#[trigger] diffs[k].id)
        <==> (ids + extra).contains(diffs[k].id)) by {
        let x = diffs[k].id;
        if ids.contains(x) {
            let j = choose|j: int| 0 <= j < ids.len() && ids[j] == x;
            assert((ids + extra)[j] == x);
        }
        if (ids + extra).contains(x) {
            let j = choose|j: int| 0 <= j < (ids + extra).len() && (ids + extra)[j] == x;
            if j >= ids.len() {
                assert(extra[j - ids.len()] == x);
            }
        }
    }
    law_selection_decides_the_script(db, diffs, ids, ids + extra);
}

// ---------------------------------------------------------------------------
// Laws of dependency order and of column alteration
// ---------------------------------------------------------------------------

/// Every operation on an object of kind `k1` with change `c1` runs before every operation on
/// an object of kind `k2` with change `c2`.
pub open spec fn runs_before(
    o: Seq<DifferenceModel>,
    k1: SchemaObjectType,
    c1: ChangeType,
    k2: SchemaObjectType,
    c2: ChangeType,
) -> bool {
    forall|i: int, j: int|
        0 <= i < o.len() && 0 <= j < o.len() && (#[trigger] o[i]).object_type == k1
            && o[i].change_type == c1 && (#[trigger] o[j]).object_type == k2 && o[j].change_type
            == c2 ==> i < j
}

proof fn lemma_runs_before(
    s: Seq<DifferenceModel>,
    k1: SchemaObjectType,
    c1: ChangeType,
    k2: SchemaObjectType,
    c2: ChangeType,
)
    requires
        forall|x: DifferenceModel, y: DifferenceModel|
            x.object_type == k1 && x.change_type == c1 && y.object_type == k2 && y.change_type
                == c2 ==> #[trigger] rank(x) < #[trigger] rank(y),
    ensures
        runs_before(operation_order(s), k1, c1, k2, c2),
{
    law_operation_order_is_sorted(s);
    let o = operation_order(s);
    assert forall|i: int, j: int|
        0 <= i < o.len() && 0 <= j < o.len() && (#[trigger] o[i]).object_type == k1
            && o[i].change_type == c1 && (#[trigger] o[j]).object_type == k2 && o[j].change_type
            == c2 implies i < j by {
        assert(rank(o[i]) < rank(o[j]));
        if j < i {
            assert(rank(o[j]) <= rank(o[i]));
        }
    }
}

/// Creations run so that what an object rests on exists first: tables, then their columns,
/// then primary keys, unique constraints, check constraints and indexes over those columns,
/// then foreign keys, sequences, views, functions, procedures and triggers. Changes follow
/// the same order among themselves.
pub proof fn law_creations_follow_dependencies(s: Seq<DifferenceModel>, c: ChangeType)
    requires
        c == ChangeType::Addition || c == ChangeType::Modification,
    ensures
        runs_before(operation_order(s), SchemaObjectType::Table, c, SchemaObjectType::Column, c),
        runs_before(operation_order(s), SchemaObjectType::Column, c, SchemaObjectType::PrimaryKey, c),
        runs_before(operation_order(s), SchemaObjectType::Column, c, SchemaObjectType::UniqueConstraint, c),
        runs_before(operation_order(s), SchemaObjectType::Column, c, SchemaObjectType::CheckConstraint, c),
        runs_before(operation_order(s), SchemaObjectType::Column, c, SchemaObjectType::Index, c),
        runs_before(operation_order(s), SchemaObjectType::PrimaryKey, c, SchemaObjectType::UniqueConstraint, c),
        runs_before(operation_order(s), SchemaObjectType::UniqueConstraint, c, SchemaObjectType::CheckConstraint, c),
        runs_before(operation_order(s), SchemaObjectType::CheckConstraint, c, SchemaObjectType::Index, c),
        runs_before(operation_order(s), SchemaObjectType::Index, c, SchemaObjectType::ForeignKey, c),
        runs_before(operation_order(s), SchemaObjectType::ForeignKey, c, SchemaObjectType::Sequence, c),
        runs_before(operation_order(s), SchemaObjectType::Sequence, c, SchemaObjectType::View, c),
        runs_before(operation_order(s), SchemaObjectType::View, c, SchemaObjectType::Function, c),
        runs_before(operation_order(s), SchemaObjectType::Function, c, SchemaObjectType::Procedure, c),
        runs_before(operation_order(s), SchemaObjectType::Procedure, c, SchemaObjectType::Trigger, c),
{
    lemma_runs_before(s, SchemaObjectType::Table, c, SchemaObjectType::Column, c);
    lemma_runs_before(s, SchemaObjectType::Column, c, SchemaObjectType::PrimaryKey, c);
    lemma_runs_before(s, SchemaObjectType::Column, c, SchemaObjectType::UniqueConstraint, c);
    lemma_runs_before(s, SchemaObjectType::Column, c, SchemaObjectType::CheckConstraint, c);
    lemma_runs_before(s, SchemaObjectType::Column, c, SchemaObjectType::Index, c);
    lemma_runs_before(s, SchemaObjectType::PrimaryKey, c, SchemaObjectType::UniqueConstraint, c);
    lemma_runs_before(s, SchemaObjectType::UniqueConstraint, c, SchemaObjectType::CheckConstraint, c);
    lemma_runs_before(s, SchemaObjectType::CheckConstraint, c, SchemaObjectType::Index, c);
    lemma_runs_before(s, SchemaObjectType::Index, c, SchemaObjectType::ForeignKey, c);
    lemma_runs_before(s, SchemaObjectType::ForeignKey, c, SchemaObjectType::Sequence, c);
    lemma_runs_before(s, SchemaObjectType::Sequence, c, SchemaObjectType::View, c);
    lemma_runs_before(s, SchemaObjectType::View, c, SchemaObjectType::Function, c);
    lemma_runs_before(s, SchemaObjectType::Function, c, SchemaObjectType::Procedure, c);
    lemma_runs_before(s, SchemaObjectType::Procedure, c, SchemaObjectType::Trigger, c);
}

/// Drops run so that what rests on an object goes first: triggers, views, foreign keys,
/// indexes, check constraints, unique constraints, primary keys, columns, tables, then
/// procedures, functions and sequences. All creations run before all changes, and all changes
/// before all drops.
pub proof fn law_drops_follow_dependents(s: Seq<DifferenceModel>, k1: SchemaObjectType, k2: SchemaObjectType)
    ensures
        runs_before(operation_order(s), SchemaObjectType::Trigger, ChangeType::Deletion, SchemaObjectType::View, ChangeType::Deletion),
        runs_before(operation_order(s), SchemaObjectType::View, ChangeType::Deletion, SchemaObjectType::ForeignKey, ChangeType::Deletion),
        runs_before(operation_order(s), SchemaObjectType::ForeignKey, ChangeType::Deletion, SchemaObjectType::Index, ChangeType::Deletion),
        runs_before(operation_order(s), SchemaObjectType::Index, ChangeType::Deletion, SchemaObjectType::CheckConstraint, ChangeType::Deletion),
        runs_before(operation_order(s), SchemaObjectType::CheckConstraint, ChangeType::Deletion, SchemaObjectType::UniqueConstraint, ChangeType::Deletion),
        runs_before(operation_order(s), SchemaObjectType::UniqueConstraint, ChangeType::Deletion, SchemaObjectType::PrimaryKey, ChangeType::Deletion),
        runs_before(operation_order(s), SchemaObjectType::PrimaryKey, ChangeType::Deletion, SchemaObjectType::Column, ChangeType::Deletion),
        runs_before(operation_order(s), SchemaObjectType::Column, ChangeType::Deletion, SchemaObjectType::Table, ChangeType::Deletion),
        runs_before(operation_order(s), SchemaObjectType::Table, ChangeType::Deletion, SchemaObjectType::Procedure, ChangeType::Deletion),
        runs_before(operation_order(s), SchemaObjectType::Procedure, ChangeType::Deletion, SchemaObjectType::Function, ChangeType::Deletion),
        runs_before(operation_order(s), SchemaObjectType::Function, ChangeType::Deletion, SchemaObjectType::Sequence, ChangeType::Deletion),
        runs_before(operation_order(s), k1, ChangeType::Addition, k2, ChangeType::Modification),
        runs_before(operation_order(s), k1, ChangeType::Modification, k2, ChangeType::Deletion),
{
    let d = ChangeType::Deletion;
    lemma_runs_before(s, SchemaObjectType::Trigger, d, SchemaObjectType::View, d);
    lemma_runs_before(s, SchemaObjectType::View, d, SchemaObjectType::ForeignKey, d);
    lemma_runs_before(s, SchemaObjectType::ForeignKey, d, SchemaObjectType::Index, d);
    lemma_runs_before(s, SchemaObjectType::Index, d, SchemaObjectType::CheckConstraint, d);
    lemma_runs_before(s, SchemaObjectType::CheckConstraint, d, SchemaObjectType::UniqueConstraint, d);
    lemma_runs_before(s, SchemaObjectType::UniqueConstraint, d, SchemaObjectType::PrimaryKey, d);
    lemma_runs_before(s, SchemaObjectType::PrimaryKey, d, SchemaObjectType::Column, d);
    lemma_runs_before(s, SchemaObjectType::Column, d, SchemaObjectType::Table, d);
    lemma_runs_before(s, SchemaObjectType::Table, d, SchemaObjectType::Procedure, d);
    lemma_runs_before(s, SchemaObjectType::Procedure, d, SchemaObjectType::Function, d);
    lemma_runs_before(s, SchemaObjectType::Function, d, SchemaObjectType::Sequence, d);
    lemma_runs_before(s, k1, ChangeType::Addition, k2, ChangeType::Modification);
    lemma_runs_before(s, k1, ChangeType::Modification, k2, d);
}

/// On PostgreSQL, a column whose nullability alone changes gets one statement that gives it
/// the source's nullability: `DROP NOT NULL` when the source column is nullable, `SET NOT
/// NULL` when it is not.
pub proof fn law_postgresql_nullability_follows_the_source(
    d: DifferenceModel,
    s: ColumnModel,
    t: ColumnModel,
    schema: Seq<char>,
    table: Seq<char>,
    column: Seq<char>,
)
    requires
        d.object_type == SchemaObjectType::Column,
        d.change_type == ChangeType::Modification,
        d.source_value == Some(ObjectModel::Column(s)),
        d.target_value == Some(ObjectModel::Column(t)),
        split_triple(d.object_name) == Some((schema, table, column)),
        s.data_type == t.data_type,
        s.default_value == t.default_value,
        s.nullable != t.nullable,
    ensures
        statement_sql(DatabaseType::PostgreSQL, d) == Ok::<Seq<char>, ErrorModel>(
            "ALTER TABLE "@ + schema + "."@ + table + "\nALTER COLUMN "@ + column + (if s.nullable {
                " DROP NOT NULL;"@
            } else {
                " SET NOT NULL;"@
            }),
        ),
{
    let prefix = pg_alter_prefix(schema, table, column);
    let line = prefix + " "@ + (if s.nullable { "DROP"@ } else { "SET"@ }) + " NOT NULL;"@;
    assert(pg_alter_statements(schema, table, column, s, t) =~= seq![line]);
    assert(join(seq![line], "\n"@) == line);
    reveal_strlit(" DROP NOT NULL;");
    reveal_strlit(" SET NOT NULL;");
    reveal_strlit(" ");
    reveal_strlit("DROP");
    reveal_strlit("SET");
    reveal_strlit(" NOT NULL;");
    assert(line =~= "ALTER TABLE "@ + schema + "."@ + table + "\nALTER COLUMN "@ + column + (
    if s.nullable {
        " DROP NOT NULL;"@
    } else {
        " SET NOT NULL;"@
    }));
}

} // verus!
