//! Connection settings and schema metadata, each with a mathematical model.
use vstd::prelude::*;
use vstd::view::View as _;

use crate::strings::{clone_opt_string, clone_strings};

verus! {

/// The database engines the application can talk to.
#[derive(Debug, Clone, Copy, PartialEq, Eq, Structural)]
pub enum DatabaseType {
    PostgreSQL,
    MySQL,
    SQLServer,
    SQLite,
}

/// TLS settings of a saved connection.
#[derive(Debug, Clone)]
pub struct SSLConfig {
    pub mode: String,
    pub ca: Option<String>,
    pub cert: Option<String>,
    pub key: Option<String>,
}

/// A saved connection profile.
#[derive(Debug, Clone)]
pub struct DatabaseConnection {
    pub id: String,
    pub name: String,
    pub db_type: DatabaseType,
    pub host: String,
    pub port: u16,
    pub database: String,
    pub username: String,
    pub password: String,
    pub ssl: bool,
    pub ssl_config: Option<SSLConfig>,
    pub created_at: String,
    pub updated_at: String,
}

/// The outcome of a connection attempt.
#[derive(Debug, Clone)]
pub struct ConnectionTestResult {
    pub success: bool,
    pub message: String,
    pub latency: Option<u64>,
    pub server_version: Option<String>,
}

/// Everything that the analyzers read from one database.
#[derive(Debug)]
pub struct DatabaseSchema {
    pub connection_id: String,
    pub database_name: String,
    pub tables: Vec<Table>,
    pub views: Vec<View>,
    pub procedures: Vec<StoredProcedure>,
    pub functions: Vec<Function>,
    pub triggers: Vec<Trigger>,
    pub sequences: Vec<Sequence>,
    pub analyzed_at: String,
}

#[derive(Debug)]
pub struct Table {
    pub name: String,
    pub schema: String,
    pub columns: Vec<Column>,
    pub primary_key: Option<PrimaryKey>,
    pub foreign_keys: Vec<ForeignKey>,
    pub unique_constraints: Vec<UniqueConstraint>,
    pub check_constraints: Vec<CheckConstraint>,
    pub indexes: Vec<Index>,
    pub row_count: Option<i64>,
}

#[derive(Debug)]
pub struct Column {
    pub name: String,
    pub data_type: String,
    pub nullable: bool,
    pub default_value: Option<String>,
    pub auto_increment: bool,
    pub comment: Option<String>,
    pub ordinal_position: i32,
}

#[derive(Debug)]
pub struct PrimaryKey {
    pub name: String,
    pub columns: Vec<String>,
}

#[derive(Debug)]
pub struct ForeignKey {
    pub name: String,
    pub columns: Vec<String>,
    pub referenced_table: String,
    pub referenced_columns: Vec<String>,
    pub on_delete: String,
    pub on_update: String,
}

#[derive(Debug)]
pub struct UniqueConstraint {
    pub name: String,
    pub columns: Vec<String>,
}

#[derive(Debug)]
pub struct CheckConstraint {
    pub name: String,
    pub expression: String,
}

#[derive(Debug)]
pub struct Index {
    pub name: String,
    pub columns: Vec<String>,
    pub unique: bool,
    pub index_type: String,
    pub partial: bool,
    pub condition: Option<String>,
}

#[derive(Debug)]
pub struct View {
    pub name: String,
    pub schema: String,
    pub definition: String,
}

#[derive(Debug)]
pub struct StoredProcedure {
    pub name: String,
    pub schema: String,
    pub parameters: Vec<Parameter>,
    pub definition: String,
}

#[derive(Debug)]
pub struct Function {
    pub name: String,
    pub schema: String,
    pub parameters: Vec<Parameter>,
    pub return_type: String,
    pub definition: String,
}

#[derive(Debug)]
pub struct Parameter {
    pub name: String,
    pub data_type: String,
    pub mode: String,
}

#[derive(Debug)]
pub struct Trigger {
    pub name: String,
    pub table: String,
    pub timing: String,
    pub event: String,
    pub definition: String,
}

#[derive(Debug)]
pub struct Sequence {
    pub name: String,
    pub schema: String,
    pub start_value: i64,
    pub increment: i64,
    pub min_value: Option<i64>,
    pub max_value: Option<i64>,
    pub cycle: bool,
}

/// The kind of schema object a difference is about.
#[derive(Debug, Clone, Copy, PartialEq, Eq, Structural)]
pub enum SchemaObjectType {
    Table,
    Column,
    PrimaryKey,
    ForeignKey,
    UniqueConstraint,
    CheckConstraint,
    Index,
    View,
    Procedure,
    Function,
    Trigger,
    Sequence,
}

/// Whether an object must be created, altered or dropped on the target.
#[derive(Debug, Clone, Copy, PartialEq, Eq, Structural)]
pub enum ChangeType {
    Addition,
    Modification,
    Deletion,
}

/// The definition of the object that a difference carries.
#[derive(Debug)]
pub enum SchemaObject {
    Table(Table),
    Column(Column),
    PrimaryKey(PrimaryKey),
    ForeignKey(ForeignKey),
    UniqueConstraint(UniqueConstraint),
    CheckConstraint(CheckConstraint),
    Index(Index),
    View(View),
    Procedure(StoredProcedure),
    Function(Function),
    Trigger(Trigger),
    Sequence(Sequence),
}

/// One change that turns the target schema into the source schema.
#[derive(Debug)]
pub struct SchemaDifference {
    pub id: String,
    pub object_type: SchemaObjectType,
    pub object_name: String,
    pub change_type: ChangeType,
    pub source_value: Option<SchemaObject>,
    pub target_value: Option<SchemaObject>,
    pub details: String,
    pub destructive: bool,
}

/// Counts over a list of differences.
#[derive(Debug, Clone, Copy)]
pub struct DiffSummary {
    pub total_differences: usize,
    pub additions: usize,
    pub modifications: usize,
    pub deletions: usize,
    pub destructive_changes: usize,
}

/// The result of comparing two analysed databases.
#[derive(Debug)]
pub struct SchemaComparison {
    pub source_id: String,
    pub target_id: String,
    pub differences: Vec<SchemaDifference>,
    pub summary: DiffSummary,
    pub compared_at: String,
}

// ---------------------------------------------------------------------------
// Mathematical models
// ---------------------------------------------------------------------------

pub struct ColumnModel {
    pub name: Seq<char>,
    pub data_type: Seq<char>,
    pub nullable: bool,
    pub default_value: Option<Seq<char>>,
    pub auto_increment: bool,
    pub comment: Option<Seq<char>>,
    pub ordinal_position: i32,
}

pub struct PrimaryKeyModel {
    pub name: Seq<char>,
    pub columns: Seq<Seq<char>>,
}

pub struct ForeignKeyModel {
    pub name: Seq<char>,
    pub columns: Seq<Seq<char>>,
    pub referenced_table: Seq<char>,
    pub referenced_columns: Seq<Seq<char>>,
    pub on_delete: Seq<char>,
    pub on_update: Seq<char>,
}

pub struct UniqueConstraintModel {
    pub name: Seq<char>,
    pub columns: Seq<Seq<char>>,
}

pub struct CheckConstraintModel {
    pub name: Seq<char>,
    pub expression: Seq<char>,
}

pub struct IndexModel {
    pub name: Seq<char>,
    pub columns: Seq<Seq<char>>,
    pub unique: bool,
    pub index_type: Seq<char>,
    pub partial: bool,
    pub condition: Option<Seq<char>>,
}

pub struct ViewModel {
    pub name: Seq<char>,
    pub schema: Seq<char>,
    pub definition: Seq<char>,
}

pub struct ParameterModel {
    pub name: Seq<char>,
    pub data_type: Seq<char>,
    pub mode: Seq<char>,
}

pub struct ProcedureModel {
    pub name: Seq<char>,
    pub schema: Seq<char>,
    pub parameters: Seq<ParameterModel>,
    pub definition: Seq<char>,
}

pub struct FunctionModel {
    pub name: Seq<char>,
    pub schema: Seq<char>,
    pub parameters: Seq<ParameterModel>,
    pub return_type: Seq<char>,
    pub definition: Seq<char>,
}

pub struct TriggerModel {
    pub name: Seq<char>,
    pub table: Seq<char>,
    pub timing: Seq<char>,
    pub event: Seq<char>,
    pub definition: Seq<char>,
}

pub struct SequenceModel {
    pub name: Seq<char>,
    pub schema: Seq<char>,
    pub start_value: i64,
    pub increment: i64,
    pub min_value: Option<i64>,
    pub max_value: Option<i64>,
    pub cycle: bool,
}

pub struct TableModel {
    pub name: Seq<char>,
    pub schema: Seq<char>,
    pub columns: Seq<ColumnModel>,
    pub primary_key: Option<PrimaryKeyModel>,
    pub foreign_keys: Seq<ForeignKeyModel>,
    pub unique_constraints: Seq<UniqueConstraintModel>,
    pub check_constraints: Seq<CheckConstraintModel>,
    pub indexes: Seq<IndexModel>,
    pub row_count: Option<i64>,
}

pub enum ObjectModel {
    Table(TableModel),
    Column(ColumnModel),
    PrimaryKey(PrimaryKeyModel),
    ForeignKey(ForeignKeyModel),
    UniqueConstraint(UniqueConstraintModel),
    CheckConstraint(CheckConstraintModel),
    Index(IndexModel),
    View(ViewModel),
    Procedure(ProcedureModel),
    Function(FunctionModel),
    Trigger(TriggerModel),
    Sequence(SequenceModel),
}

pub struct DifferenceModel {
    pub id: Seq<char>,
    pub object_type: SchemaObjectType,
    pub object_name: Seq<char>,
    pub change_type: ChangeType,
    pub source_value: Option<ObjectModel>,
    pub target_value: Option<ObjectModel>,
    pub details: Seq<char>,
    pub destructive: bool,
}

impl DifferenceModel {
    /// The difference without its identifier, which is drawn at random.
    pub open spec fn content(self) -> DifferenceModel {
        DifferenceModel { id: Seq::empty(), ..self }
    }
}

/// The contents of a list of differences, identifiers left out.
pub open spec fn contents(diffs: Seq<SchemaDifference>) -> Seq<DifferenceModel> {
    diffs.map_values(|d: SchemaDifference| d@.content())
}

impl vstd::view::View for Column {
    type V = ColumnModel;

    open spec fn view(&self) -> ColumnModel {
        ColumnModel {
            name: self.name@,
            data_type: self.data_type@,
            nullable: self.nullable,
            default_value: self.default_value.deep_view(),
            auto_increment: self.auto_increment,
            comment: self.comment.deep_view(),
            ordinal_position: self.ordinal_position,
        }
    }
}

impl vstd::view::View for PrimaryKey {
    type V = PrimaryKeyModel;

    open spec fn view(&self) -> PrimaryKeyModel {
        PrimaryKeyModel { name: self.name@, columns: self.columns.deep_view() }
    }
}

impl vstd::view::View for ForeignKey {
    type V = ForeignKeyModel;

    open spec fn view(&self) -> ForeignKeyModel {
        ForeignKeyModel {
            name: self.name@,
            columns: self.columns.deep_view(),
            referenced_table: self.referenced_table@,
            referenced_columns: self.referenced_columns.deep_view(),
            on_delete: self.on_delete@,
            on_update: self.on_update@,
        }
    }
}

impl vstd::view::View for UniqueConstraint {
    type V = UniqueConstraintModel;

    open spec fn view(&self) -> UniqueConstraintModel {
        UniqueConstraintModel { name: self.name@, columns: self.columns.deep_view() }
    }
}

impl vstd::view::View for CheckConstraint {
    type V = CheckConstraintModel;

    open spec fn view(&self) -> CheckConstraintModel {
        CheckConstraintModel { name: self.name@, expression: self.expression@ }
    }
}

impl vstd::view::View for Index {
    type V = IndexModel;

    open spec fn view(&self) -> IndexModel {
        IndexModel {
            name: self.name@,
            columns: self.columns.deep_view(),
            unique: self.unique,
            index_type: self.index_type@,
            partial: self.partial,
            condition: self.condition.deep_view(),
        }
    }
}

impl vstd::view::View for View {
    type V = ViewModel;

    open spec fn view(&self) -> ViewModel {
        ViewModel { name: self.name@, schema: self.schema@, definition: self.definition@ }
    }
}

impl vstd::view::View for Parameter {
    type V = ParameterModel;

    open spec fn view(&self) -> ParameterModel {
        ParameterModel { name: self.name@, data_type: self.data_type@, mode: self.mode@ }
    }
}

impl vstd::view::View for StoredProcedure {
    type V = ProcedureModel;

    open spec fn view(&self) -> ProcedureModel {
        ProcedureModel {
            name: self.name@,
            schema: self.schema@,
            parameters: self.parameters@.map_values(|p: Parameter| p@),
            definition: self.definition@,
        }
    }
}

impl vstd::view::View for Function {
    type V = FunctionModel;

    open spec fn view(&self) -> FunctionModel {
        FunctionModel {
            name: self.name@,
            schema: self.schema@,
            parameters: self.parameters@.map_values(|p: Parameter| p@),
            return_type: self.return_type@,
            definition: self.definition@,
        }
    }
}

impl vstd::view::View for Trigger {
    type V = TriggerModel;

    open spec fn view(&self) -> TriggerModel {
        TriggerModel {
            name: self.name@,
            table: self.table@,
            timing: self.timing@,
            event: self.event@,
            definition: self.definition@,
        }
    }
}

impl vstd::view::View for Sequence {
    type V = SequenceModel;

    open spec fn view(&self) -> SequenceModel {
        SequenceModel {
            name: self.name@,
            schema: self.schema@,
            start_value: self.start_value,
            increment: self.increment,
            min_value: self.min_value,
            max_value: self.max_value,
            cycle: self.cycle,
        }
    }
}

impl vstd::view::View for Table {
    type V = TableModel;

    open spec fn view(&self) -> TableModel {
        TableModel {
            name: self.name@,
            schema: self.schema@,
            columns: self.columns@.map_values(|c: Column| c@),
            primary_key: primary_key_model(self.primary_key),
            foreign_keys: self.foreign_keys@.map_values(|f: ForeignKey| f@),
            unique_constraints: self.unique_constraints@.map_values(|u: UniqueConstraint| u@),
            check_constraints: self.check_constraints@.map_values(|c: CheckConstraint| c@),
            indexes: self.indexes@.map_values(|i: Index| i@),
            row_count: self.row_count,
        }
    }
}

impl vstd::view::View for SchemaObject {
    type V = ObjectModel;

    open spec fn view(&self) -> ObjectModel {
        match self {
            SchemaObject::Table(t) => ObjectModel::Table(t@),
            SchemaObject::Column(c) => ObjectModel::Column(c@),
            SchemaObject::PrimaryKey(p) => ObjectModel::PrimaryKey(p@),
            SchemaObject::ForeignKey(f) => ObjectModel::ForeignKey(f@),
            SchemaObject::UniqueConstraint(u) => ObjectModel::UniqueConstraint(u@),
            SchemaObject::CheckConstraint(c) => ObjectModel::CheckConstraint(c@),
            SchemaObject::Index(i) => ObjectModel::Index(i@),
            SchemaObject::View(v) => ObjectModel::View(v@),
            SchemaObject::Procedure(p) => ObjectModel::Procedure(p@),
            SchemaObject::Function(f) => ObjectModel::Function(f@),
            SchemaObject::Trigger(t) => ObjectModel::Trigger(t@),
            SchemaObject::Sequence(s) => ObjectModel::Sequence(s@),
        }
    }
}

/// The model of an optional primary key.
pub open spec fn primary_key_model(pk: Option<PrimaryKey>) -> Option<PrimaryKeyModel> {
    match pk {
        Some(p) => Some(p@),
        None => None,
    }
}

/// The model of an optional object definition.
pub open spec fn object_model(v: Option<SchemaObject>) -> Option<ObjectModel> {
    match v {
        Some(o) => Some(o@),
        None => None,
    }
}

impl vstd::view::View for SchemaDifference {
    type V = DifferenceModel;

    open spec fn view(&self) -> DifferenceModel {
        DifferenceModel {
            id: self.id@,
            object_type: self.object_type,
            object_name: self.object_name@,
            change_type: self.change_type,
            source_value: object_model(self.source_value),
            target_value: object_model(self.target_value),
            details: self.details@,
            destructive: self.destructive,
        }
    }
}


/// The name of an object kind, as its `Debug` form prints it.
pub open spec fn object_type_name(t: SchemaObjectType) -> Seq<char> {
    match t {
        SchemaObjectType::Table => "Table"@,
        SchemaObjectType::Column => "Column"@,
        SchemaObjectType::PrimaryKey => "PrimaryKey"@,
        SchemaObjectType::ForeignKey => "ForeignKey"@,
        SchemaObjectType::UniqueConstraint => "UniqueConstraint"@,
        SchemaObjectType::CheckConstraint => "CheckConstraint"@,
        SchemaObjectType::Index => "Index"@,
        SchemaObjectType::View => "View"@,
        SchemaObjectType::Procedure => "Procedure"@,
        SchemaObjectType::Function => "Function"@,
        SchemaObjectType::Trigger => "Trigger"@,
        SchemaObjectType::Sequence => "Sequence"@,
    }
}

/// The name of a change kind, as its `Debug` form prints it.
pub open spec fn change_type_name(c: ChangeType) -> Seq<char> {
    match c {
        ChangeType::Addition => "Addition"@,
        ChangeType::Modification => "Modification"@,
        ChangeType::Deletion => "Deletion"@,
    }
}

impl SchemaObjectType {
    /// The kind's name.
    pub fn kind_name(&self) -> (r: &'static str)
        ensures
            r@ == object_type_name(*self),
    {
        match self {
            SchemaObjectType::Table => "Table",
            SchemaObjectType::Column => "Column",
            SchemaObjectType::PrimaryKey => "PrimaryKey",
            SchemaObjectType::ForeignKey => "ForeignKey",
            SchemaObjectType::UniqueConstraint => "UniqueConstraint",
            SchemaObjectType::CheckConstraint => "CheckConstraint",
            SchemaObjectType::Index => "Index",
            SchemaObjectType::View => "View",
            SchemaObjectType::Procedure => "Procedure",
            SchemaObjectType::Function => "Function",
            SchemaObjectType::Trigger => "Trigger",
            SchemaObjectType::Sequence => "Sequence",
        }
    }
}

impl ChangeType {
    /// The change's name.
    pub fn change_name(&self) -> (r: &'static str)
        ensures
            r@ == change_type_name(*self),
    {
        match self {
            ChangeType::Addition => "Addition",
            ChangeType::Modification => "Modification",
            ChangeType::Deletion => "Deletion",
        }
    }
}

// ---------------------------------------------------------------------------
// Copies that keep the model
// ---------------------------------------------------------------------------

impl Clone for Column {
    fn clone(&self) -> (r: Self)
        ensures
            r@ == self@,
    {
        Column {
            name: self.name.clone(),
            data_type: self.data_type.clone(),
            nullable: self.nullable,
            default_value: clone_opt_string(&self.default_value),
            auto_increment: self.auto_increment,
            comment: clone_opt_string(&self.comment),
            ordinal_position: self.ordinal_position,
        }
    }
}

impl Clone for PrimaryKey {
    fn clone(&self) -> (r: Self)
        ensures
            r@ == self@,
    {
        PrimaryKey { name: self.name.clone(), columns: clone_strings(&self.columns) }
    }
}

impl Clone for ForeignKey {
    fn clone(&self) -> (r: Self)
        ensures
            r@ == self@,
    {
        ForeignKey {
            name: self.name.clone(),
            columns: clone_strings(&self.columns),
            referenced_table: self.referenced_table.clone(),
            referenced_columns: clone_strings(&self.referenced_columns),
            on_delete: self.on_delete.clone(),
            on_update: self.on_update.clone(),
        }
    }
}

impl Clone for UniqueConstraint {
    fn clone(&self) -> (r: Self)
        ensures
            r@ == self@,
    {
        UniqueConstraint { name: self.name.clone(), columns: clone_strings(&self.columns) }
    }
}

impl Clone for CheckConstraint {
    fn clone(&self) -> (r: Self)
        ensures
            r@ == self@,
    {
        CheckConstraint { name: self.name.clone(), expression: self.expression.clone() }
    }
}

impl Clone for Index {
    fn clone(&self) -> (r: Self)
        ensures
            r@ == self@,
    {
        Index {
            name: self.name.clone(),
            columns: clone_strings(&self.columns),
            unique: self.unique,
            index_type: self.index_type.clone(),
            partial: self.partial,
            condition: clone_opt_string(&self.condition),
        }
    }
}

impl Clone for View {
    fn clone(&self) -> (r: Self)
        ensures
            r@ == self@,
    {
        View {
            name: self.name.clone(),
            schema: self.schema.clone(),
            definition: self.definition.clone(),
        }
    }
}

impl Clone for Parameter {
    fn clone(&self) -> (r: Self)
        ensures
            r@ == self@,
    {
        Parameter {
            name: self.name.clone(),
            data_type: self.data_type.clone(),
            mode: self.mode.clone(),
        }
    }
}

fn clone_parameters(v: &Vec<Parameter>) -> (r: Vec<Parameter>)
    ensures
        r@.map_values(|p: Parameter| p@) == v@.map_values(|p: Parameter| p@),
{
    let mut r: Vec<Parameter> = Vec::new();
    for i in 0..v.len()
        invariant
            r.len() == i,
            forall|j: int| 0 <= j < i ==> #[trigger] r@[j]@ == v@[j]@,
    {
        r.push(v[i].clone());
    }
    assert(r@.map_values(|p: Parameter| p@) =~= v@.map_values(|p: Parameter| p@));
    r
}

impl Clone for StoredProcedure {
    fn clone(&self) -> (r: Self)
        ensures
            r@ == self@,
    {
        StoredProcedure {
            name: self.name.clone(),
            schema: self.schema.clone(),
            parameters: clone_parameters(&self.parameters),
            definition: self.definition.clone(),
        }
    }
}

impl Clone for Function {
    fn clone(&self) -> (r: Self)
        ensures
            r@ == self@,
    {
        Function {
            name: self.name.clone(),
            schema: self.schema.clone(),
            parameters: clone_parameters(&self.parameters),
            return_type: self.return_type.clone(),
            definition: self.definition.clone(),
        }
    }
}

impl Clone for Trigger {
    fn clone(&self) -> (r: Self)
        ensures
            r@ == self@,
    {
        Trigger {
            name: self.name.clone(),
            table: self.table.clone(),
            timing: self.timing.clone(),
            event: self.event.clone(),
            definition: self.definition.clone(),
        }
    }
}

impl Clone for Sequence {
    fn clone(&self) -> (r: Self)
        ensures
            r@ == self@,
    {
        Sequence {
            name: self.name.clone(),
            schema: self.schema.clone(),
            start_value: self.start_value,
            increment: self.increment,
            min_value: self.min_value,
            max_value: self.max_value,
            cycle: self.cycle,
        }
    }
}

fn clone_columns(v: &Vec<Column>) -> (r: Vec<Column>)
    ensures
        r@.map_values(|x: Column| x@) == v@.map_values(|x: Column| x@),
{
    let mut r: Vec<Column> = Vec::new();
    for i in 0..v.len()
        invariant
            r.len() == i,
            forall|j: int| 0 <= j < i ==> #[trigger] r@[j]@ == v@[j]@,
    {
        r.push(v[i].clone());
    }
    assert(r@.map_values(|x: Column| x@) =~= v@.map_values(|x: Column| x@));
    r
}

fn clone_foreign_keys(v: &Vec<ForeignKey>) -> (r: Vec<ForeignKey>)
    ensures
        r@.map_values(|x: ForeignKey| x@) == v@.map_values(|x: ForeignKey| x@),
{
    let mut r: Vec<ForeignKey> = Vec::new();
    for i in 0..v.len()
        invariant
            r.len() == i,
            forall|j: int| 0 <= j < i ==> #[trigger] r@[j]@ == v@[j]@,
    {
        r.push(v[i].clone());
    }
    assert(r@.map_values(|x: ForeignKey| x@) =~= v@.map_values(|x: ForeignKey| x@));
    r
}

fn clone_unique_constraints(v: &Vec<UniqueConstraint>) -> (r: Vec<UniqueConstraint>)
    ensures
        r@.map_values(|x: UniqueConstraint| x@) == v@.map_values(|x: UniqueConstraint| x@),
{
    let mut r: Vec<UniqueConstraint> = Vec::new();
    for i in 0..v.len()
        invariant
            r.len() == i,
            forall|j: int| 0 <= j < i ==> #[trigger] r@[j]@ == v@[j]@,
    {
        r.push(v[i].clone());
    }
    assert(r@.map_values(|x: UniqueConstraint| x@) =~= v@.map_values(|x: UniqueConstraint| x@));
    r
}

fn clone_check_constraints(v: &Vec<CheckConstraint>) -> (r: Vec<CheckConstraint>)
    ensures
        r@.map_values(|x: CheckConstraint| x@) == v@.map_values(|x: CheckConstraint| x@),
{
    let mut r: Vec<CheckConstraint> = Vec::new();
    for i in 0..v.len()
        invariant
            r.len() == i,
            forall|j: int| 0 <= j < i ==> #[trigger] r@[j]@ == v@[j]@,
    {
        r.push(v[i].clone());
    }
    assert(r@.map_values(|x: CheckConstraint| x@) =~= v@.map_values(|x: CheckConstraint| x@));
    r
}

fn clone_indexes(v: &Vec<Index>) -> (r: Vec<Index>)
    ensures
        r@.map_values(|x: Index| x@) == v@.map_values(|x: Index| x@),
{
    let mut r: Vec<Index> = Vec::new();
    for i in 0..v.len()
        invariant
            r.len() == i,
            forall|j: int| 0 <= j < i ==> #[trigger] r@[j]@ == v@[j]@,
    {
        r.push(v[i].clone());
    }
    assert(r@.map_values(|x: Index| x@) =~= v@.map_values(|x: Index| x@));
    r
}

impl Clone for Table {
    fn clone(&self) -> (r: Self)
        ensures
            r@ == self@,
    {
        let primary_key = match &self.primary_key {
            Some(pk) => Some(pk.clone()),
            None => None,
        };
        Table {
            name: self.name.clone(),
            schema: self.schema.clone(),
            columns: clone_columns(&self.columns),
            primary_key,
            foreign_keys: clone_foreign_keys(&self.foreign_keys),
            unique_constraints: clone_unique_constraints(&self.unique_constraints),
            check_constraints: clone_check_constraints(&self.check_constraints),
            indexes: clone_indexes(&self.indexes),
            row_count: self.row_count,
        }
    }
}


impl Clone for SchemaObject {
    fn clone(&self) -> (r: Self)
        ensures
            r@ == self@,
    {
        match self {
            SchemaObject::Table(t) => SchemaObject::Table(t.clone()),
            SchemaObject::Column(c) => SchemaObject::Column(c.clone()),
            SchemaObject::PrimaryKey(p) => SchemaObject::PrimaryKey(p.clone()),
            SchemaObject::ForeignKey(f) => SchemaObject::ForeignKey(f.clone()),
            SchemaObject::UniqueConstraint(u) => SchemaObject::UniqueConstraint(u.clone()),
            SchemaObject::CheckConstraint(c) => SchemaObject::CheckConstraint(c.clone()),
            SchemaObject::Index(i) => SchemaObject::Index(i.clone()),
            SchemaObject::View(v) => SchemaObject::View(v.clone()),
            SchemaObject::Procedure(p) => SchemaObject::Procedure(p.clone()),
            SchemaObject::Function(f) => SchemaObject::Function(f.clone()),
            SchemaObject::Trigger(t) => SchemaObject::Trigger(t.clone()),
            SchemaObject::Sequence(s) => SchemaObject::Sequence(s.clone()),
        }
    }
}

fn clone_object(v: &Option<SchemaObject>) -> (r: Option<SchemaObject>)
    ensures
        object_model(r) == object_model(*v),
{
    match v {
        Some(o) => Some(o.clone()),
        None => None,
    }
}

impl Clone for SchemaDifference {
    fn clone(&self) -> (r: Self)
        ensures
            r@ == self@,
    {
        SchemaDifference {
            id: self.id.clone(),
            object_type: self.object_type,
            object_name: self.object_name.clone(),
            change_type: self.change_type,
            source_value: clone_object(&self.source_value),
            target_value: clone_object(&self.target_value),
            details: self.details.clone(),
            destructive: self.destructive,
        }
    }
}

} // verus!
