//! The database: user tables of schema `dbo`, each with an object id, its
//! column definitions and its rows, and the statements that define and change
//! them (`CREATE TABLE`, `ALTER TABLE`, `INSERT`, `UPDATE`, `DELETE`).
//!
//! Every change is computed in full before it takes effect: a statement that
//! fails leaves the database as it was.

use vstd::prelude::*;

use crate::ast::{
    assignments_view, column_specs_view, copy_column_spec, copy_column_specs, filter_view,
    literals_view, names_view, AlterAction, AlterActionModel, Assignment, AssignmentModel,
    ColumnSpec, ColumnSpecModel, Comparison, ComparisonModel, Literal, LiteralModel, ObjectName,
    ObjectNameModel,
};
use crate::builtins::{eval_literal, spec_eval_literal};
use crate::eval::{
    bind_expr, bind_filter, bound_filter_view, eval_default, filter_in, keep_rows, row_matches,
    spec_bind_expr, spec_bind_filter, spec_eval_default, spec_keep_rows, spec_row_matches,
    BoundComparisonModel, Scope, ScopeModel,
};
use crate::values::{convert, spec_convert, sql_equal, values_equal};
use crate::text::{copy_chars, same_name, same_name_chars, string_from_chars, word_is, word_matches};
use crate::types::{copy_row, copy_value, row_view, DbError, DbErrorModel, Value, ValueModel};

verus! {

/// Most columns a table may have.
pub const MAX_COLUMNS: usize = 1024;

/// Object id of the first table created.
pub const FIRST_OBJECT_ID: i32 = 1000001;

/// A user table.
pub struct Table {
    pub object_id: i32,
    pub name: Vec<char>,
    pub columns: Vec<ColumnSpec>,
    pub rows: Vec<Vec<Value>>,
}

/// The model of a [`Table`].
pub struct TableModel {
    pub object_id: i32,
    pub name: Seq<char>,
    pub columns: Seq<ColumnSpecModel>,
    pub rows: Seq<Seq<ValueModel>>,
}

pub open spec fn rows_view(rows: Seq<Vec<Value>>) -> Seq<Seq<ValueModel>> {
    rows.map_values(|r: Vec<Value>| row_view(r))
}

impl View for Table {
    type V = TableModel;

    open spec fn view(&self) -> TableModel {
        TableModel {
            object_id: self.object_id,
            name: self.name@,
            columns: column_specs_view(self.columns@),
            rows: rows_view(self.rows@),
        }
    }
}

/// The user tables and the object id the next table gets.
pub struct Database {
    pub tables: Vec<Table>,
    pub next_object_id: i32,
}

/// The model of a [`Database`].
pub struct DatabaseModel {
    pub tables: Seq<TableModel>,
    pub next_object_id: i32,
}

pub open spec fn tables_view(ts: Seq<Table>) -> Seq<TableModel> {
    ts.map_values(|t: Table| t@)
}

impl View for Database {
    type V = DatabaseModel;

    open spec fn view(&self) -> DatabaseModel {
        DatabaseModel { tables: tables_view(self.tables@), next_object_id: self.next_object_id }
    }
}

// ---------------------------------------------------------------------------
// Well-formedness and lookups
// ---------------------------------------------------------------------------

/// A table has between one and [`MAX_COLUMNS`] columns, each row holds one
/// value per column, and no two rows share a primary key.
pub open spec fn table_ok(t: TableModel) -> bool {
    &&& 0 < t.columns.len() <= MAX_COLUMNS
    &&& forall|r: int| 0 <= r < t.rows.len() ==> (#[trigger] t.rows[r]).len() == t.columns.len()
    &&& keys_unique(t)
}

/// No two rows of the table hold equal keys in its primary-key column.
pub open spec fn keys_unique(t: TableModel) -> bool {
    match pk_column_from(t.columns, 0) {
        Some(k) => !has_key_conflict(t.rows, k),
        None => true,
    }
}

/// Every table of the database is well formed; no two tables share a name
/// (up to case); object ids grow in the order the tables were created and
/// stay below the id the next table gets.
pub open spec fn db_wf(db: DatabaseModel) -> bool {
    &&& forall|i: int| 0 <= i < db.tables.len() ==> table_ok(#[trigger] db.tables[i])
    &&& forall|i: int, j: int|
        0 <= i < j < db.tables.len() ==> !same_name(
            #[trigger] db.tables[i].name,
            #[trigger] db.tables[j].name,
        )
    &&& forall|i: int, j: int|
        0 <= i < j < db.tables.len() ==> (#[trigger] db.tables[i]).object_id
            < (#[trigger] db.tables[j]).object_id
    &&& forall|i: int| 0 <= i < db.tables.len() ==> (#[trigger] db.tables[i]).object_id < db.next_object_id
}

pub proof fn lemma_find_table_none(tables: Seq<TableModel>, name: Seq<char>, k: int)
    requires
        0 <= k,
        find_table_from(tables, name, k) is None,
    ensures
        forall|i: int| k <= i < tables.len() ==> !same_name(#[trigger] tables[i].name, name),
    decreases tables.len() - k,
{
    if k < tables.len() {
        lemma_find_table_none(tables, name, k + 1);
    }
}

/// The empty database.
pub open spec fn empty_db() -> DatabaseModel {
    DatabaseModel { tables: seq![], next_object_id: FIRST_OBJECT_ID }
}

/// A schema name the user tables live in: none, or `dbo`.
pub open spec fn schema_ok(schema: Option<Seq<char>>) -> bool {
    match schema {
        None => true,
        Some(s) => word_is(s, "DBO"@),
    }
}

/// The first table at or after `k` named `name` (up to case).
pub open spec fn find_table_from(tables: Seq<TableModel>, name: Seq<char>, k: int) -> Option<int>
    decreases tables.len() - k,
{
    if k < 0 || k >= tables.len() {
        None
    } else if same_name(tables[k].name, name) {
        Some(k)
    } else {
        find_table_from(tables, name, k + 1)
    }
}

/// The table `obj` names, if any.
pub open spec fn lookup_table(db: DatabaseModel, obj: ObjectNameModel) -> Option<int> {
    if schema_ok(obj.schema) {
        find_table_from(db.tables, obj.name, 0)
    } else {
        None
    }
}

/// The first table at or after `k` with object id `id`.
pub open spec fn find_table_by_id_from(tables: Seq<TableModel>, id: int, k: int) -> Option<int>
    decreases tables.len() - k,
{
    if k < 0 || k >= tables.len() {
        None
    } else if tables[k].object_id == id {
        Some(k)
    } else {
        find_table_by_id_from(tables, id, k + 1)
    }
}

/// The first column at or after `k` named `name` (up to case).
pub open spec fn find_column_from(cols: Seq<ColumnSpecModel>, name: Seq<char>, k: int) -> Option<int>
    decreases cols.len() - k,
{
    if k < 0 || k >= cols.len() {
        None
    } else if same_name(cols[k].name, name) {
        Some(k)
    } else {
        find_column_from(cols, name, k + 1)
    }
}

/// The first primary-key column at or after `k`.
pub open spec fn pk_column_from(cols: Seq<ColumnSpecModel>, k: int) -> Option<int>
    decreases cols.len() - k,
{
    if k < 0 || k >= cols.len() {
        None
    } else if cols[k].primary_key {
        Some(k)
    } else {
        pk_column_from(cols, k + 1)
    }
}

pub proof fn lemma_find_table_from_range(tables: Seq<TableModel>, name: Seq<char>, k: int)
    ensures
        find_table_from(tables, name, k) matches Some(i) ==> k <= i < tables.len() && same_name(
            tables[i].name,
            name,
        ),
    decreases tables.len() - k,
{
    if 0 <= k < tables.len() && !same_name(tables[k].name, name) {
        lemma_find_table_from_range(tables, name, k + 1);
    }
}

pub proof fn lemma_find_column_from_range(cols: Seq<ColumnSpecModel>, name: Seq<char>, k: int)
    ensures
        find_column_from(cols, name, k) matches Some(i) ==> k <= i < cols.len() && same_name(
            cols[i].name,
            name,
        ),
    decreases cols.len() - k,
{
    if 0 <= k < cols.len() && !same_name(cols[k].name, name) {
        lemma_find_column_from_range(cols, name, k + 1);
    }
}

pub proof fn lemma_pk_column_from_range(cols: Seq<ColumnSpecModel>, k: int)
    ensures
        pk_column_from(cols, k) matches Some(i) ==> k <= i < cols.len() && cols[i].primary_key,
    decreases cols.len() - k,
{
    if 0 <= k < cols.len() && !cols[k].primary_key {
        lemma_pk_column_from_range(cols, k + 1);
    }
}

// ---------------------------------------------------------------------------
// Implementation of the lookups
// ---------------------------------------------------------------------------

impl Database {
    /// The empty database.
    pub fn new() -> (db: Database)
        ensures
            db@ == empty_db(),
    {
        let db = Database { tables: Vec::new(), next_object_id: FIRST_OBJECT_ID };
        assert(db@.tables =~= empty_db().tables);
        db
    }
}

/// Whether an optional schema name allows the user tables.
pub fn schema_ok_exec(schema: &Option<Vec<char>>) -> (b: bool)
    ensures
        b == schema_ok(crate::ast::opt_chars_view(*schema)),
{
    match schema {
        None => true,
        Some(s) => word_matches(s, "DBO"),
    }
}

/// The index of the table named `name`.
pub fn find_table(db: &Database, name: &Vec<char>) -> (r: Option<usize>)
    ensures
        match r {
            None => find_table_from(db@.tables, name@, 0) is None,
            Some(i) => find_table_from(db@.tables, name@, 0) == Some(i as int) && i
                < db@.tables.len(),
        },
{
    let mut k: usize = 0;
    while k < db.tables.len()
        invariant
            k <= db@.tables.len(),
            find_table_from(db@.tables, name@, 0) == find_table_from(db@.tables, name@, k as int),
        decreases db@.tables.len() - k,
    {
        if same_name_chars(&db.tables[k].name, name) {
            return Some(k);
        }
        k = k + 1;
    }
    None
}

/// The index of the table `obj` names.
pub fn lookup_table_exec(db: &Database, obj: &ObjectName) -> (r: Option<usize>)
    ensures
        match r {
            None => lookup_table(db@, obj@) is None,
            Some(i) => lookup_table(db@, obj@) == Some(i as int) && i < db@.tables.len(),
        },
{
    if schema_ok_exec(&obj.schema) {
        find_table(db, &obj.name)
    } else {
        None
    }
}

/// The index of the table with object id `id`.
pub fn find_table_by_id(db: &Database, id: i64) -> (r: Option<usize>)
    ensures
        match r {
            None => find_table_by_id_from(db@.tables, id as int, 0) is None,
            Some(i) => find_table_by_id_from(db@.tables, id as int, 0) == Some(i as int) && i
                < db@.tables.len(),
        },
{
    let mut k: usize = 0;
    while k < db.tables.len()
        invariant
            k <= db@.tables.len(),
            find_table_by_id_from(db@.tables, id as int, 0) == find_table_by_id_from(
                db@.tables,
                id as int,
                k as int,
            ),
        decreases db@.tables.len() - k,
    {
        if db.tables[k].object_id as i64 == id {
            return Some(k);
        }
        k = k + 1;
    }
    None
}

/// The index of the column named `name`.
pub fn find_column(cols: &Vec<ColumnSpec>, name: &Vec<char>) -> (r: Option<usize>)
    ensures
        match r {
            None => find_column_from(column_specs_view(cols@), name@, 0) is None,
            Some(i) => find_column_from(column_specs_view(cols@), name@, 0) == Some(i as int) && i
                < cols@.len(),
        },
{
    let ghost cv = column_specs_view(cols@);
    let mut k: usize = 0;
    while k < cols.len()
        invariant
            k <= cols@.len(),
            cv == column_specs_view(cols@),
            find_column_from(cv, name@, 0) == find_column_from(cv, name@, k as int),
        decreases cols@.len() - k,
    {
        if same_name_chars(&cols[k].name, name) {
            return Some(k);
        }
        k = k + 1;
    }
    None
}

/// The index of the first primary-key column.
pub fn pk_column(cols: &Vec<ColumnSpec>) -> (r: Option<usize>)
    ensures
        match r {
            None => pk_column_from(column_specs_view(cols@), 0) is None,
            Some(i) => pk_column_from(column_specs_view(cols@), 0) == Some(i as int) && i
                < cols@.len(),
        },
{
    let ghost cv = column_specs_view(cols@);
    let mut k: usize = 0;
    while k < cols.len()
        invariant
            k <= cols@.len(),
            cv == column_specs_view(cols@),
            pk_column_from(cv, 0) == pk_column_from(cv, k as int),
        decreases cols@.len() - k,
    {
        if cols[k].primary_key {
            return Some(k);
        }
        k = k + 1;
    }
    None
}

// ---------------------------------------------------------------------------
// Copies
// ---------------------------------------------------------------------------

/// A copy of a list of rows.
pub fn copy_rows(rows: &Vec<Vec<Value>>) -> (r: Vec<Vec<Value>>)
    ensures
        rows_view(r@) == rows_view(rows@),
{
    let mut out: Vec<Vec<Value>> = Vec::new();
    let mut k: usize = 0;
    while k < rows.len()
        invariant
            k <= rows@.len(),
            out@.len() == k,
            forall|j: int| 0 <= j < k ==> row_view(#[trigger] out@[j]) == row_view(rows@[j]),
        decreases rows@.len() - k,
    {
        out.push(copy_row(&rows[k]));
        k = k + 1;
    }
    assert(rows_view(out@) =~= rows_view(rows@));
    out
}

/// A copy of a table.
pub fn copy_table(t: &Table) -> (r: Table)
    ensures
        r@ == t@,
{
    Table {
        object_id: t.object_id,
        name: copy_chars(&t.name),
        columns: copy_column_specs(&t.columns),
        rows: copy_rows(&t.rows),
    }
}

/// A copy of the database.
pub fn copy_db(db: &Database) -> (r: Database)
    ensures
        r@ == db@,
{
    let mut out: Vec<Table> = Vec::new();
    let mut k: usize = 0;
    while k < db.tables.len()
        invariant
            k <= db@.tables.len(),
            out@.len() == k,
            forall|j: int| 0 <= j < k ==> (#[trigger] out@[j])@ == db.tables@[j]@,
        decreases db@.tables.len() - k,
    {
        out.push(copy_table(&db.tables[k]));
        k = k + 1;
    }
    let r = Database { tables: out, next_object_id: db.next_object_id };
    assert(r@.tables =~= db@.tables);
    r
}

// ---------------------------------------------------------------------------
// Messages
// ---------------------------------------------------------------------------

pub open spec fn msg_invalid_object(name: Seq<char>) -> Seq<char> {
    "Invalid object name '"@ + name + "'."@
}

pub open spec fn msg_bad_schema(schema: Seq<char>) -> Seq<char> {
    "The specified schema name \""@ + schema
        + "\" either does not exist or you do not have permission to use it."@
}

pub open spec fn msg_table_exists(name: Seq<char>) -> Seq<char> {
    "There is already an object named '"@ + name + "' in the database."@
}

pub open spec fn msg_no_columns() -> Seq<char> {
    "A table must have at least one column."@
}

pub open spec fn msg_column_limit() -> Seq<char> {
    "A table can have at most 1024 columns."@
}

pub open spec fn msg_duplicate_column(column: Seq<char>, table: Seq<char>) -> Seq<char> {
    "Column names in each table must be unique. Column name '"@ + column + "' in table '"@
        + table + "' is specified more than once."@
}

pub open spec fn msg_multiple_pk(table: Seq<char>) -> Seq<char> {
    "Cannot add multiple PRIMARY KEY constraints to table '"@ + table + "'."@
}

pub open spec fn msg_ids_exhausted() -> Seq<char> {
    "No object id is left for a new table."@
}

/// Concatenation of a text, a name and a text.
pub fn msg3(a: &str, b: &Vec<char>, c: &str) -> (s: String)
    ensures
        s@ == a@ + b@ + c@,
{
    let mut s = String::from_str(a);
    let n = string_from_chars(b.as_slice());
    s.append(n.as_str());
    s.append(c);
    s
}

/// Concatenation of a text, a name, a text, a name and a text.
pub fn msg5(a: &str, b: &Vec<char>, c: &str, d: &Vec<char>, e: &str) -> (s: String)
    ensures
        s@ == a@ + b@ + c@ + d@ + e@,
{
    let mut s = msg3(a, b, c);
    let n = string_from_chars(d.as_slice());
    s.append(n.as_str());
    s.append(e);
    s
}

// ---------------------------------------------------------------------------
// CREATE TABLE
// ---------------------------------------------------------------------------

/// How a column is stored: a primary-key column does not allow nulls.
pub open spec fn stored_column(c: ColumnSpecModel) -> ColumnSpecModel {
    ColumnSpecModel { nullable: c.nullable && !c.primary_key, ..c }
}

pub open spec fn stored_columns(cs: Seq<ColumnSpecModel>) -> Seq<ColumnSpecModel> {
    Seq::new(cs.len(), |i: int| stored_column(cs[i]))
}

/// The first column at or after `j` whose name an earlier column already has.
pub open spec fn first_duplicate_from(cs: Seq<ColumnSpecModel>, j: int) -> Option<int>
    decreases cs.len() - j,
{
    if j < 0 || j >= cs.len() {
        None
    } else if find_column_from(cs, cs[j].name, 0) != Some(j) {
        Some(j)
    } else {
        first_duplicate_from(cs, j + 1)
    }
}

/// The number of primary-key columns.
pub open spec fn pk_count(cs: Seq<ColumnSpecModel>) -> nat
    decreases cs.len(),
{
    if cs.len() == 0 {
        0
    } else {
        pk_count(cs.drop_last()) + if cs.last().primary_key {
            1nat
        } else {
            0nat
        }
    }
}

/// The error of the first column at or after `j` whose default is not a
/// constant expression.
pub open spec fn first_default_error_from(cs: Seq<ColumnSpecModel>, j: int) -> Option<DbErrorModel>
    decreases cs.len() - j,
{
    if j < 0 || j >= cs.len() {
        None
    } else {
        match cs[j].default {
            Some(e) => match spec_bind_expr(None, e) {
                Err(err) => Some(err),
                Ok(_) => first_default_error_from(cs, j + 1),
            },
            None => first_default_error_from(cs, j + 1),
        }
    }
}

/// `CREATE TABLE`: the new table gets the next object id and no rows.
pub open spec fn spec_create_table(
    db: DatabaseModel,
    table: ObjectNameModel,
    cols: Seq<ColumnSpecModel>,
) -> Result<DatabaseModel, DbErrorModel> {
    if !schema_ok(table.schema) {
        Err(DbErrorModel::Execution(msg_bad_schema(table.schema->0)))
    } else if find_table_from(db.tables, table.name, 0) is Some {
        Err(DbErrorModel::Execution(msg_table_exists(table.name)))
    } else if cols.len() == 0 {
        Err(DbErrorModel::Execution(msg_no_columns()))
    } else if cols.len() > MAX_COLUMNS {
        Err(DbErrorModel::Execution(msg_column_limit()))
    } else if first_duplicate_from(cols, 0) is Some {
        Err(
            DbErrorModel::Execution(
                msg_duplicate_column(cols[first_duplicate_from(cols, 0)->0].name, table.name),
            ),
        )
    } else if pk_count(cols) > 1 {
        Err(DbErrorModel::Execution(msg_multiple_pk(table.name)))
    } else if first_default_error_from(cols, 0) is Some {
        Err(first_default_error_from(cols, 0)->0)
    } else if db.next_object_id == i32::MAX {
        Err(DbErrorModel::Execution(msg_ids_exhausted()))
    } else {
        Ok(
            DatabaseModel {
                tables: db.tables.push(
                    TableModel {
                        object_id: db.next_object_id,
                        name: table.name,
                        columns: stored_columns(cols),
                        rows: seq![],
                    },
                ),
                next_object_id: (db.next_object_id + 1) as i32,
            },
        )
    }
}

proof fn lemma_first_duplicate_range(cs: Seq<ColumnSpecModel>, j: int)
    ensures
        first_duplicate_from(cs, j) matches Some(i) ==> j <= i < cs.len(),
    decreases cs.len() - j,
{
    if 0 <= j < cs.len() && find_column_from(cs, cs[j].name, 0) == Some(j) {
        lemma_first_duplicate_range(cs, j + 1);
    }
}

proof fn lemma_pk_count_prefix(cs: Seq<ColumnSpecModel>, k: int)
    requires
        0 <= k < cs.len(),
    ensures
        pk_count(cs.take(k + 1)) == pk_count(cs.take(k)) + if cs[k].primary_key {
            1nat
        } else {
            0nat
        },
{
    assert(cs.take(k + 1).drop_last() =~= cs.take(k));
}

fn first_duplicate(cols: &Vec<ColumnSpec>) -> (r: Option<usize>)
    ensures
        match r {
            None => first_duplicate_from(column_specs_view(cols@), 0) is None,
            Some(j) => first_duplicate_from(column_specs_view(cols@), 0) == Some(j as int) && j
                < cols@.len(),
        },
{
    let ghost cv = column_specs_view(cols@);
    let mut j: usize = 0;
    while j < cols.len()
        invariant
            j <= cols@.len(),
            cv == column_specs_view(cols@),
            first_duplicate_from(cv, 0) == first_duplicate_from(cv, j as int),
        decreases cols@.len() - j,
    {
        assert(cv[j as int].name == cols@[j as int].name@);
        match find_column(cols, &cols[j].name) {
            Some(i) => {
                if i != j {
                    return Some(j);
                }
            },
            None => {
                return Some(j);
            },
        }
        j = j + 1;
    }
    None
}

fn count_pk(cols: &Vec<ColumnSpec>) -> (n: usize)
    ensures
        n == pk_count(column_specs_view(cols@)),
{
    let ghost cv = column_specs_view(cols@);
    let mut n: usize = 0;
    let mut k: usize = 0;
    assert(cv.take(0) =~= Seq::<ColumnSpecModel>::empty());
    while k < cols.len()
        invariant
            k <= cols@.len(),
            cv == column_specs_view(cols@),
            n == pk_count(cv.take(k as int)),
            n <= k,
        decreases cols@.len() - k,
    {
        proof {
            lemma_pk_count_prefix(cv, k as int);
        }
        if cols[k].primary_key {
            n = n + 1;
        }
        k = k + 1;
    }
    assert(cv.take(cols@.len() as int) =~= cv);
    n
}

fn first_default_error(cols: &Vec<ColumnSpec>) -> (r: Option<DbError>)
    ensures
        match r {
            None => first_default_error_from(column_specs_view(cols@), 0) is None,
            Some(e) => first_default_error_from(column_specs_view(cols@), 0) == Some(e@),
        },
{
    let ghost cv = column_specs_view(cols@);
    let mut j: usize = 0;
    while j < cols.len()
        invariant
            j <= cols@.len(),
            cv == column_specs_view(cols@),
            first_default_error_from(cv, 0) == first_default_error_from(cv, j as int),
        decreases cols@.len() - j,
    {
        assert(cv[j as int] == cols@[j as int]@);
        if let Some(e) = &cols[j].default {
            if let Err(err) = bind_expr(None, e) {
                return Some(err);
            }
        }
        j = j + 1;
    }
    None
}

fn stored_column_exec(c: &ColumnSpec) -> (r: ColumnSpec)
    ensures
        r@ == stored_column(c@),
{
    let mut r = copy_column_spec(c);
    r.nullable = c.nullable && !c.primary_key;
    r
}

impl Database {
    /// `CREATE TABLE table (cols)`.
    pub fn create_table(&mut self, table: &ObjectName, cols: &Vec<ColumnSpec>) -> (r: Result<(), DbError>)
        ensures
            match r {
                Ok(()) => spec_create_table(old(self)@, table@, column_specs_view(cols@)) == Ok::<
                    DatabaseModel,
                    DbErrorModel,
                >(final(self)@),
                Err(e) => spec_create_table(old(self)@, table@, column_specs_view(cols@)) == Err::<
                    DatabaseModel,
                    DbErrorModel,
                >(e@) && final(self)@ == old(self)@,
            },
            db_wf(old(self)@) ==> db_wf(final(self)@),
    {
        let ghost cv = column_specs_view(cols@);
        if !schema_ok_exec(&table.schema) {
            let schema = table.schema.as_ref().unwrap();
            return Err(
                DbError::Execution(
                    msg3(
                        "The specified schema name \"",
                        schema,
                        "\" either does not exist or you do not have permission to use it.",
                    ),
                ),
            );
        }
        if find_table(self, &table.name).is_some() {
            return Err(
                DbError::Execution(
                    msg3("There is already an object named '", &table.name, "' in the database."),
                ),
            );
        }
        if cols.len() == 0 {
            return Err(DbError::Execution(String::from_str("A table must have at least one column.")));
        }
        if cols.len() > MAX_COLUMNS {
            return Err(DbError::Execution(String::from_str("A table can have at most 1024 columns.")));
        }
        if let Some(j) = first_duplicate(cols) {
            return Err(
                DbError::Execution(
                    msg5(
                        "Column names in each table must be unique. Column name '",
                        &cols[j].name,
                        "' in table '",
                        &table.name,
                        "' is specified more than once.",
                    ),
                ),
            );
        }
        if count_pk(cols) > 1 {
            return Err(
                DbError::Execution(
                    msg3("Cannot add multiple PRIMARY KEY constraints to table '", &table.name, "'."),
                ),
            );
        }
        if let Some(e) = first_default_error(cols) {
            return Err(e);
        }
        if self.next_object_id == 2147483647 {
            return Err(DbError::Execution(String::from_str("No object id is left for a new table.")));
        }
        let mut stored: Vec<ColumnSpec> = Vec::new();
        let mut k: usize = 0;
        while k < cols.len()
            invariant
                k <= cols@.len(),
                stored@.len() == k,
                forall|j: int| 0 <= j < k ==> (#[trigger] stored@[j])@ == stored_column(cols@[j]@),
            decreases cols@.len() - k,
        {
            stored.push(stored_column_exec(&cols[k]));
            k = k + 1;
        }
        assert(column_specs_view(stored@) =~= stored_columns(cv));
        let t = Table {
            object_id: self.next_object_id,
            name: copy_chars(&table.name),
            columns: stored,
            rows: Vec::new(),
        };
        assert(t@.rows =~= Seq::<Seq<ValueModel>>::empty());
        let ghost before = self@;
        self.tables.push(t);
        self.next_object_id = self.next_object_id + 1;
        assert(self@.tables =~= before.tables.push(t@));
        proof {
            if db_wf(before) {
                let n = before.tables.len() as int;
                lemma_find_table_none(before.tables, table@.name, 0);
                assert forall|i: int| 0 <= i < self@.tables.len() implies table_ok(#[trigger] self@.tables[i]) by {
                    if i < n {
                        assert(self@.tables[i] == before.tables[i]);
                    }
                }
                assert forall|i: int, j: int| 0 <= i < j < self@.tables.len() implies !same_name(
                    #[trigger] self@.tables[i].name,
                    #[trigger] self@.tables[j].name,
                ) by {
                    assert(self@.tables[i] == before.tables[i]);
                    if j < n {
                        assert(self@.tables[j] == before.tables[j]);
                    } else {
                        assert(!same_name(before.tables[i].name, table@.name));
                    }
                }
                assert forall|i: int, j: int| 0 <= i < j < self@.tables.len() implies (#[trigger] self@.tables[i]).object_id
                    < (#[trigger] self@.tables[j]).object_id by {
                    assert(self@.tables[i] == before.tables[i]);
                    if j < n {
                        assert(self@.tables[j] == before.tables[j]);
                    }
                }
                assert forall|i: int| 0 <= i < self@.tables.len() implies (#[trigger] self@.tables[i]).object_id
                    < self@.next_object_id by {
                    if i < n {
                        assert(self@.tables[i] == before.tables[i]);
                    }
                }
            }
        }
        Ok(())
    }
}

// ---------------------------------------------------------------------------
// INSERT
// ---------------------------------------------------------------------------

pub open spec fn msg_value_count() -> Seq<char> {
    "Column name or number of supplied values does not match table definition."@
}

pub open spec fn msg_duplicate_target(column: Seq<char>) -> Seq<char> {
    "The column name '"@ + column
        + "' is specified more than once in the SET clause or column list of an INSERT."@
}

pub open spec fn msg_null_insert(column: Seq<char>, table: Seq<char>) -> Seq<char> {
    "Cannot insert the value NULL into column '"@ + column + "', table '"@ + table
        + "'; column does not allow nulls. INSERT fails."@
}

pub open spec fn msg_null_update(column: Seq<char>, table: Seq<char>) -> Seq<char> {
    "Cannot insert the value NULL into column '"@ + column + "', table '"@ + table
        + "'; column does not allow nulls. UPDATE fails."@
}

pub open spec fn msg_pk_violation(table: Seq<char>) -> Seq<char> {
    "Violation of PRIMARY KEY constraint 'PK_"@ + table
        + "'. Cannot insert duplicate key in object 'dbo."@ + table + "'."@
}

/// The columns a list of names designates, in the order named; an unknown
/// name or a name given twice is refused.
pub open spec fn spec_resolve_targets(cols: Seq<ColumnSpecModel>, names: Seq<Seq<char>>) -> Result<
    Seq<int>,
    DbErrorModel,
>
    decreases names.len(),
{
    if names.len() == 0 {
        Ok(seq![])
    } else {
        match spec_resolve_targets(cols, names.drop_last()) {
            Err(e) => Err(e),
            Ok(ts) => match find_column_from(cols, names.last(), 0) {
                None => Err(DbErrorModel::Execution(crate::eval::msg_invalid_column(names.last()))),
                Some(k) => if ts.contains(k) {
                    Err(DbErrorModel::Execution(msg_duplicate_target(names.last())))
                } else {
                    Ok(ts.push(k))
                },
            },
        }
    }
}

/// The first position at or after `p` of `j` in `ts`.
pub open spec fn position_from(ts: Seq<int>, j: int, p: int) -> Option<int>
    decreases ts.len() - p,
{
    if p < 0 || p >= ts.len() {
        None
    } else if ts[p] == j {
        Some(p)
    } else {
        position_from(ts, j, p + 1)
    }
}

/// The columns an `INSERT` fills: those listed, or every column in order.
pub open spec fn spec_insert_targets(t: TableModel, names: Seq<Seq<char>>) -> Result<
    Seq<int>,
    DbErrorModel,
> {
    if names.len() == 0 {
        Ok(Seq::new(t.columns.len(), |j: int| j))
    } else {
        spec_resolve_targets(t.columns, names)
    }
}

/// The value an `INSERT` puts in column `j`: the value given for it,
/// converted to the column's type; else the column's default; else `NULL`.
pub open spec fn spec_insert_cell(
    db: DatabaseModel,
    now: i64,
    t: TableModel,
    ts: Seq<int>,
    values: Seq<LiteralModel>,
    j: int,
) -> Result<ValueModel, DbErrorModel> {
    let col = t.columns[j];
    match position_from(ts, j, 0) {
        Some(p) => spec_convert(spec_eval_literal(values[p]).0, col.data_type),
        None => match col.default {
            None => Ok(ValueModel::Null),
            Some(e) => spec_convert(spec_eval_default(e, db, now), col.data_type),
        },
    }
}

/// The values of columns `0..n` of the new row; the first failing column's error.
pub open spec fn spec_insert_cells(
    db: DatabaseModel,
    now: i64,
    t: TableModel,
    ts: Seq<int>,
    values: Seq<LiteralModel>,
    n: nat,
) -> Result<Seq<ValueModel>, DbErrorModel>
    decreases n,
{
    if n == 0 {
        Ok(seq![])
    } else {
        match spec_insert_cells(db, now, t, ts, values, (n - 1) as nat) {
            Err(e) => Err(e),
            Ok(cs) => match spec_insert_cell(db, now, t, ts, values, n - 1) {
                Err(e) => Err(e),
                Ok(v) => Ok(cs.push(v)),
            },
        }
    }
}

/// The first column at or after `j` that holds `NULL` but does not allow it.
pub open spec fn first_null_from(cols: Seq<ColumnSpecModel>, row: Seq<ValueModel>, j: int) -> Option<
    int,
>
    decreases cols.len() - j,
{
    if j < 0 || j >= cols.len() {
        None
    } else if row[j] is Null && !cols[j].nullable {
        Some(j)
    } else {
        first_null_from(cols, row, j + 1)
    }
}

/// Some row already holds a key equal to `v` in column `k`.
pub open spec fn key_taken(rows: Seq<Seq<ValueModel>>, k: int, v: ValueModel) -> bool {
    exists|r: int| 0 <= r < rows.len() && sql_equal(#[trigger] rows[r][k], v)
}

/// The database with table `ti` replaced.
pub open spec fn with_table(db: DatabaseModel, ti: int, t: TableModel) -> DatabaseModel {
    DatabaseModel { tables: db.tables.update(ti, t), ..db }
}

/// `INSERT INTO table [(names)] VALUES (values)`: one new row at the end of
/// the table.
pub open spec fn spec_insert(
    db: DatabaseModel,
    now: i64,
    table: ObjectNameModel,
    names: Seq<Seq<char>>,
    values: Seq<LiteralModel>,
) -> Result<DatabaseModel, DbErrorModel> {
    match lookup_table(db, table) {
        None => Err(DbErrorModel::Execution(msg_invalid_object(table.name))),
        Some(ti) => {
            let t = db.tables[ti];
            match spec_insert_targets(t, names) {
                Err(e) => Err(e),
                Ok(ts) => if ts.len() != values.len() {
                    Err(DbErrorModel::Execution(msg_value_count()))
                } else {
                    match spec_insert_cells(db, now, t, ts, values, t.columns.len()) {
                        Err(e) => Err(e),
                        Ok(row) => match first_null_from(t.columns, row, 0) {
                            Some(j) => Err(
                                DbErrorModel::Execution(msg_null_insert(t.columns[j].name, t.name)),
                            ),
                            None => if pk_column_from(t.columns, 0) is Some && key_taken(
                                t.rows,
                                pk_column_from(t.columns, 0)->0,
                                row[pk_column_from(t.columns, 0)->0],
                            ) {
                                Err(DbErrorModel::Execution(msg_pk_violation(t.name)))
                            } else {
                                Ok(with_table(db, ti, TableModel { rows: t.rows.push(row), ..t }))
                            },
                        },
                    }
                },
            }
        },
    }
}

pub open spec fn targets_view(ts: Seq<usize>) -> Seq<int> {
    ts.map_values(|x: usize| x as int)
}

proof fn lemma_resolve_error_extends(cols: Seq<ColumnSpecModel>, names: Seq<Seq<char>>, k: int)
    requires
        0 <= k <= names.len(),
        spec_resolve_targets(cols, names.take(k)) is Err,
    ensures
        spec_resolve_targets(cols, names) == spec_resolve_targets(cols, names.take(k)),
    decreases names.len() - k,
{
    if k < names.len() {
        assert(names.take(k + 1).drop_last() =~= names.take(k));
        lemma_resolve_error_extends(cols, names, k + 1);
    } else {
        assert(names.take(k) =~= names);
    }
}

fn contains_index(ts: &Vec<usize>, k: usize) -> (b: bool)
    ensures
        b == targets_view(ts@).contains(k as int),
{
    let mut i: usize = 0;
    while i < ts.len()
        invariant
            i <= ts@.len(),
            forall|j: int| 0 <= j < i ==> ts@[j] != k,
        decreases ts@.len() - i,
    {
        if ts[i] == k {
            assert(targets_view(ts@)[i as int] == k as int);
            return true;
        }
        i = i + 1;
    }
    proof {
        if targets_view(ts@).contains(k as int) {
            let j = choose|j: int| 0 <= j < targets_view(ts@).len() && targets_view(ts@)[j] == k as int;
            assert(ts@[j] == k);
        }
    }
    false
}

/// The columns a list of names designates.
pub fn resolve_targets(cols: &Vec<ColumnSpec>, names: &Vec<Vec<char>>) -> (r: Result<Vec<usize>, DbError>)
    ensures
        match r {
            Ok(ts) => spec_resolve_targets(column_specs_view(cols@), names_view(names@)) == Ok::<
                Seq<int>,
                DbErrorModel,
            >(targets_view(ts@)) && (forall|i: int| 0 <= i < ts@.len() ==> #[trigger] ts@[i] < cols@.len())
                && ts@.len() == names@.len(),
            Err(e) => spec_resolve_targets(column_specs_view(cols@), names_view(names@)) == Err::<
                Seq<int>,
                DbErrorModel,
            >(e@),
        },
{
    let ghost cv = column_specs_view(cols@);
    let ghost nv = names_view(names@);
    let mut ts: Vec<usize> = Vec::new();
    let mut k: usize = 0;
    assert(nv.take(0) =~= Seq::<Seq<char>>::empty());
    assert(targets_view(ts@) =~= Seq::<int>::empty());
    while k < names.len()
        invariant
            k <= names@.len(),
            cv == column_specs_view(cols@),
            nv == names_view(names@),
            ts@.len() == k,
            forall|i: int| 0 <= i < ts@.len() ==> #[trigger] ts@[i] < cols@.len(),
            spec_resolve_targets(cv, nv.take(k as int)) == Ok::<Seq<int>, DbErrorModel>(
                targets_view(ts@),
            ),
        decreases names@.len() - k,
    {
        assert(nv.take(k + 1).drop_last() =~= nv.take(k as int));
        assert(nv.take(k + 1).last() == names@[k as int]@);
        match find_column(cols, &names[k]) {
            None => {
                proof {
                    lemma_resolve_error_extends(cv, nv, k + 1);
                }
                return Err(crate::eval::invalid_column(&names[k]));
            },
            Some(c) => {
                if contains_index(&ts, c) {
                    proof {
                        lemma_resolve_error_extends(cv, nv, k + 1);
                    }
                    return Err(
                        DbError::Execution(
                            msg3(
                                "The column name '",
                                &names[k],
                                "' is specified more than once in the SET clause or column list of an INSERT.",
                            ),
                        ),
                    );
                }
                let ghost before = ts@;
                ts.push(c);
                assert(targets_view(ts@) =~= targets_view(before).push(c as int));
            },
        }
        k = k + 1;
    }
    assert(nv.take(names@.len() as int) =~= nv);
    Ok(ts)
}

/// The first position of `j` in `ts`.
pub fn position(ts: &Vec<usize>, j: usize) -> (r: Option<usize>)
    ensures
        match r {
            None => position_from(targets_view(ts@), j as int, 0) is None,
            Some(p) => position_from(targets_view(ts@), j as int, 0) == Some(p as int) && p
                < ts@.len(),
        },
{
    let mut p: usize = 0;
    while p < ts.len()
        invariant
            p <= ts@.len(),
            position_from(targets_view(ts@), j as int, 0) == position_from(
                targets_view(ts@),
                j as int,
                p as int,
            ),
        decreases ts@.len() - p,
    {
        if ts[p] == j {
            return Some(p);
        }
        p = p + 1;
    }
    None
}

fn insert_cell(
    db: &Database,
    now: i64,
    t: &Table,
    ts: &Vec<usize>,
    values: &Vec<Literal>,
    j: usize,
) -> (r: Result<Value, DbError>)
    requires
        j < t.columns@.len(),
        ts@.len() == values@.len(),
    ensures
        match r {
            Ok(v) => spec_insert_cell(
                db@,
                now,
                t@,
                targets_view(ts@),
                literals_view(values@),
                j as int,
            ) == Ok::<ValueModel, DbErrorModel>(v@),
            Err(e) => spec_insert_cell(
                db@,
                now,
                t@,
                targets_view(ts@),
                literals_view(values@),
                j as int,
            ) == Err::<ValueModel, DbErrorModel>(e@),
        },
{
    assert(t@.columns[j as int] == t.columns@[j as int]@);
    let dt = t.columns[j].data_type;
    match position(ts, j) {
        Some(p) => {
            let (v, _) = eval_literal(&values[p]);
            convert(&v, &dt)
        },
        None => match &t.columns[j].default {
            None => Ok(Value::Null),
            Some(e) => {
                let v = eval_default(e, db, now);
                convert(&v, &dt)
            },
        },
    }
}

proof fn lemma_insert_cells_error_extends(
    db: DatabaseModel,
    now: i64,
    t: TableModel,
    ts: Seq<int>,
    values: Seq<LiteralModel>,
    k: nat,
    n: nat,
)
    requires
        k <= n,
        spec_insert_cells(db, now, t, ts, values, k) is Err,
    ensures
        spec_insert_cells(db, now, t, ts, values, n) == spec_insert_cells(db, now, t, ts, values, k),
    decreases n - k,
{
    if k < n {
        lemma_insert_cells_error_extends(db, now, t, ts, values, k, (n - 1) as nat);
    }
}

fn first_null(cols: &Vec<ColumnSpec>, row: &Vec<Value>) -> (r: Option<usize>)
    requires
        row@.len() == cols@.len(),
    ensures
        match r {
            None => first_null_from(column_specs_view(cols@), row_view(*row), 0) is None,
            Some(j) => first_null_from(column_specs_view(cols@), row_view(*row), 0) == Some(
                j as int,
            ) && j < cols@.len(),
        },
{
    let ghost cv = column_specs_view(cols@);
    let mut j: usize = 0;
    while j < cols.len()
        invariant
            j <= cols@.len(),
            row@.len() == cols@.len(),
            cv == column_specs_view(cols@),
            first_null_from(cv, row_view(*row), 0) == first_null_from(cv, row_view(*row), j as int),
        decreases cols@.len() - j,
    {
        assert(cv[j as int] == cols@[j as int]@);
        let is_null = match &row[j] {
            Value::Null => true,
            _ => false,
        };
        if is_null && !cols[j].nullable {
            return Some(j);
        }
        j = j + 1;
    }
    None
}

fn key_in(rows: &Vec<Vec<Value>>, k: usize, v: &Value) -> (b: bool)
    requires
        forall|i: int| 0 <= i < rows@.len() ==> k < (#[trigger] rows@[i])@.len(),
    ensures
        b == key_taken(rows_view(rows@), k as int, v@),
{
    let ghost rv = rows_view(rows@);
    let mut i: usize = 0;
    while i < rows.len()
        invariant
            i <= rows@.len(),
            rv == rows_view(rows@),
            forall|j: int| 0 <= j < rows@.len() ==> k < (#[trigger] rows@[j])@.len(),
            forall|j: int| 0 <= j < i ==> !sql_equal(#[trigger] rv[j][k as int], v@),
        decreases rows@.len() - i,
    {
        assert(rv[i as int][k as int] == rows@[i as int]@[k as int]@);
        if values_equal(&rows[i][k], v) {
            return true;
        }
        i = i + 1;
    }
    false
}

impl Database {
    /// `INSERT INTO table [(names)] VALUES (values)`.
    pub fn insert(
        &mut self,
        now: i64,
        table: &ObjectName,
        names: &Vec<Vec<char>>,
        values: &Vec<Literal>,
    ) -> (r: Result<(), DbError>)
        requires
            db_wf(old(self)@),
        ensures
            match r {
                Ok(()) => spec_insert(
                    old(self)@,
                    now,
                    table@,
                    names_view(names@),
                    literals_view(values@),
                ) == Ok::<DatabaseModel, DbErrorModel>(final(self)@),
                Err(e) => spec_insert(
                    old(self)@,
                    now,
                    table@,
                    names_view(names@),
                    literals_view(values@),
                ) == Err::<DatabaseModel, DbErrorModel>(e@) && final(self)@ == old(self)@,
            },
            db_wf(final(self)@),
    {
        let ti = match lookup_table_exec(self, table) {
            None => {
                return Err(DbError::Execution(msg3("Invalid object name '", &table.name, "'.")));
            },
            Some(ti) => ti,
        };
        let ghost tm = self@.tables[ti as int];
        assert(tm == self.tables@[ti as int]@);
        assert(table_ok(tm));
        let t = &self.tables[ti];
        let ts: Vec<usize> = if names.len() == 0 {
            let mut all: Vec<usize> = Vec::new();
            let mut j: usize = 0;
            while j < t.columns.len()
                invariant
                    j <= t.columns@.len(),
                    all@.len() == j,
                    forall|i: int| 0 <= i < j ==> #[trigger] all@[i] == i,
                decreases t.columns@.len() - j,
            {
                all.push(j);
                j = j + 1;
            }
            assert(targets_view(all@) =~= Seq::new(tm.columns.len(), |j: int| j));
            all
        } else {
            match resolve_targets(&t.columns, names) {
                Err(e) => {
                    return Err(e);
                },
                Ok(ts) => ts,
            }
        };
        if ts.len() != values.len() {
            return Err(
                DbError::Execution(
                    String::from_str(
                        "Column name or number of supplied values does not match table definition.",
                    ),
                ),
            );
        }
        let ghost tv = targets_view(ts@);
        let ghost lv = literals_view(values@);
        let n = t.columns.len();
        let mut row: Vec<Value> = Vec::new();
        let mut j: usize = 0;
        assert(row_view(row) =~= Seq::<ValueModel>::empty());
        while j < n
            invariant
                self@ == old(self)@,
                lookup_table(self@, table@) == Some(ti as int),
                ti < self@.tables.len(),
                tm == self@.tables[ti as int],
                db_wf(self@),
                spec_insert_targets(tm, names_view(names@)) == Ok::<Seq<int>, DbErrorModel>(tv),
                n == t.columns@.len(),
                j <= n,
                row@.len() == j,
                ts@.len() == values@.len(),
                tm == t@,
                tv == targets_view(ts@),
                lv == literals_view(values@),
                spec_insert_cells(self@, now, tm, tv, lv, j as nat) == Ok::<
                    Seq<ValueModel>,
                    DbErrorModel,
                >(row_view(row)),
            decreases n - j,
        {
            match insert_cell(self, now, t, &ts, values, j) {
                Err(e) => {
                    proof {
                        lemma_insert_cells_error_extends(self@, now, tm, tv, lv, (j + 1) as nat, n as nat);
                    }
                    return Err(e);
                },
                Ok(v) => {
                    let ghost before = row_view(row);
                    let ghost vv = v@;
                    row.push(v);
                    assert(row_view(row) =~= before.push(vv));
                },
            }
            j = j + 1;
        }
        if let Some(j) = first_null(&t.columns, &row) {
            assert(tm.columns[j as int] == t.columns@[j as int]@);
            return Err(
                DbError::Execution(
                    msg5(
                        "Cannot insert the value NULL into column '",
                        &t.columns[j].name,
                        "', table '",
                        &t.name,
                        "'; column does not allow nulls. INSERT fails.",
                    ),
                ),
            );
        }
        if let Some(k) = pk_column(&t.columns) {
            assert forall|i: int| 0 <= i < t.rows@.len() implies k < (#[trigger] t.rows@[i])@.len() by {
                assert(tm.rows[i] == row_view(t.rows@[i]));
            }
            assert(row_view(row)[k as int] == row@[k as int]@);
            if key_in(&t.rows, k, &row[k]) {
                return Err(
                    DbError::Execution(
                        msg5(
                            "Violation of PRIMARY KEY constraint 'PK_",
                            &t.name,
                            "'. Cannot insert duplicate key in object 'dbo.",
                            &t.name,
                            "'.",
                        ),
                    ),
                );
            }
        }
        let ghost before = self@;
        let ghost rowv = row_view(row);
        let ghost old_rows = self.tables@[ti as int].rows@;
        let ghost rowc = row;
        self.tables[ti].rows.push(row);
        assert(self.tables@[ti as int].rows@ == old_rows.push(rowc));
        assert(rows_view(self.tables@[ti as int].rows@) =~= rows_view(old_rows).push(rowv));
        assert(self@.tables[ti as int] == TableModel { rows: tm.rows.push(rowv), ..tm });
        assert(self@.tables =~= before.tables.update(ti as int, TableModel { rows: tm.rows.push(rowv), ..tm }));
        proof {
            let nt = TableModel { rows: tm.rows.push(rowv), ..tm };
            assert forall|r: int| 0 <= r < nt.rows.len() implies (#[trigger] nt.rows[r]).len() == nt.columns.len() by {
                if r < tm.rows.len() {
                    assert(nt.rows[r] == tm.rows[r]);
                }
            }
            assert(table_ok(nt));
            lemma_table_ok_update(before, ti as int, nt);
        }
        Ok(())
    }
}

// ---------------------------------------------------------------------------
// UPDATE and DELETE
// ---------------------------------------------------------------------------

/// The columns of a table as the scope of its `WHERE` conditions.
pub open spec fn table_scope(t: TableModel) -> ScopeModel {
    ScopeModel {
        qualifier: t.name,
        names: Seq::new(t.columns.len(), |j: int| t.columns[j].name),
        types: Seq::new(t.columns.len(), |j: int| t.columns[j].data_type),
    }
}

pub open spec fn assignment_names(a: Seq<AssignmentModel>) -> Seq<Seq<char>> {
    Seq::new(a.len(), |p: int| a[p].column)
}

pub open spec fn assignment_values(a: Seq<AssignmentModel>) -> Seq<LiteralModel> {
    Seq::new(a.len(), |p: int| a[p].value)
}

/// The values given for the target columns `ts`, converted to their types;
/// the first failing value's error.
pub open spec fn spec_convert_values(t: TableModel, ts: Seq<int>, values: Seq<LiteralModel>) -> Result<
    Seq<ValueModel>,
    DbErrorModel,
>
    decreases values.len(),
{
    if values.len() == 0 {
        Ok(seq![])
    } else {
        match spec_convert_values(t, ts, values.drop_last()) {
            Err(e) => Err(e),
            Ok(vs) => match spec_convert(
                spec_eval_literal(values.last()).0,
                t.columns[ts[values.len() - 1]].data_type,
            ) {
                Err(e) => Err(e),
                Ok(v) => Ok(vs.push(v)),
            },
        }
    }
}

/// The first value at or after `p` that is `NULL` for a column that does not
/// allow it.
pub open spec fn first_null_value_from(t: TableModel, ts: Seq<int>, vals: Seq<ValueModel>, p: int) -> Option<
    int,
>
    decreases vals.len() - p,
{
    if p < 0 || p >= vals.len() {
        None
    } else if vals[p] is Null && !t.columns[ts[p]].nullable {
        Some(p)
    } else {
        first_null_value_from(t, ts, vals, p + 1)
    }
}

/// A row with the target columns `ts` set to `vals`.
pub open spec fn assign_row(row: Seq<ValueModel>, ts: Seq<int>, vals: Seq<ValueModel>) -> Seq<ValueModel> {
    Seq::new(
        row.len(),
        |j: int|
            match position_from(ts, j, 0) {
                Some(p) => vals[p],
                None => row[j],
            },
    )
}

/// The rows after an `UPDATE`: those that satisfy the condition get the new
/// values, the others stay as they are.
pub open spec fn updated_rows(
    rows: Seq<Seq<ValueModel>>,
    f: Seq<BoundComparisonModel>,
    ts: Seq<int>,
    vals: Seq<ValueModel>,
    db: DatabaseModel,
    now: i64,
) -> Seq<Seq<ValueModel>> {
    Seq::new(
        rows.len(),
        |r: int|
            if spec_row_matches(f, rows[r], db, now) {
                assign_row(rows[r], ts, vals)
            } else {
                rows[r]
            },
    )
}

/// Two rows hold equal keys in column `k`.
pub open spec fn has_key_conflict(rows: Seq<Seq<ValueModel>>, k: int) -> bool {
    exists|i: int, j: int| 0 <= i < j < rows.len() && sql_equal(#[trigger] rows[i][k], #[trigger] rows[j][k])
}

/// `UPDATE table SET assignments [WHERE filter]`.
pub open spec fn spec_update(
    db: DatabaseModel,
    now: i64,
    table: ObjectNameModel,
    assignments: Seq<AssignmentModel>,
    filter: Seq<ComparisonModel>,
) -> Result<DatabaseModel, DbErrorModel> {
    match lookup_table(db, table) {
        None => Err(DbErrorModel::Execution(msg_invalid_object(table.name))),
        Some(ti) => {
            let t = db.tables[ti];
            match spec_resolve_targets(t.columns, assignment_names(assignments)) {
                Err(e) => Err(e),
                Ok(ts) => match spec_convert_values(t, ts, assignment_values(assignments)) {
                    Err(e) => Err(e),
                    Ok(vals) => match first_null_value_from(t, ts, vals, 0) {
                        Some(p) => Err(
                            DbErrorModel::Execution(msg_null_update(t.columns[ts[p]].name, t.name)),
                        ),
                        None => match spec_bind_filter(Some(table_scope(t)), filter) {
                            Err(e) => Err(e),
                            Ok(f) => {
                                let rows2 = updated_rows(t.rows, f, ts, vals, db, now);
                                let pk = pk_column_from(t.columns, 0);
                                if pk is Some && position_from(ts, pk->0, 0) is Some
                                    && has_key_conflict(rows2, pk->0) {
                                    Err(DbErrorModel::Execution(msg_pk_violation(t.name)))
                                } else {
                                    Ok(with_table(db, ti, TableModel { rows: rows2, ..t }))
                                }
                            },
                        },
                    },
                },
            }
        },
    }
}

/// `DELETE FROM table [WHERE filter]`: the rows that satisfy the condition go.
pub open spec fn spec_delete(
    db: DatabaseModel,
    now: i64,
    table: ObjectNameModel,
    filter: Seq<ComparisonModel>,
) -> Result<DatabaseModel, DbErrorModel> {
    match lookup_table(db, table) {
        None => Err(DbErrorModel::Execution(msg_invalid_object(table.name))),
        Some(ti) => {
            let t = db.tables[ti];
            match spec_bind_filter(Some(table_scope(t)), filter) {
                Err(e) => Err(e),
                Ok(f) => Ok(
                    with_table(
                        db,
                        ti,
                        TableModel { rows: spec_keep_rows(t.rows, f, db, now, false), ..t },
                    ),
                ),
            }
        },
    }
}

/// The scope of a table's columns.
pub fn table_scope_exec(t: &Table) -> (sc: Scope)
    ensures
        sc@ == table_scope(t@),
        crate::eval::scope_wf(sc@),
{
    let mut names: Vec<String> = Vec::new();
    let mut types: Vec<crate::types::DataType> = Vec::new();
    let mut j: usize = 0;
    while j < t.columns.len()
        invariant
            j <= t.columns@.len(),
            names@.len() == j,
            types@.len() == j,
            forall|i: int| 0 <= i < j ==> (#[trigger] names@[i])@ == t.columns@[i].name@,
            forall|i: int| 0 <= i < j ==> #[trigger] types@[i] == t.columns@[i].data_type,
        decreases t.columns@.len() - j,
    {
        names.push(string_from_chars(t.columns[j].name.as_slice()));
        types.push(t.columns[j].data_type);
        j = j + 1;
    }
    let sc = Scope { qualifier: copy_chars(&t.name), names, types };
    assert(sc@.names =~= table_scope(t@).names);
    assert(sc@.types =~= table_scope(t@).types);
    sc
}

proof fn lemma_convert_values_error_extends(t: TableModel, ts: Seq<int>, values: Seq<LiteralModel>, k: int)
    requires
        0 <= k <= values.len(),
        spec_convert_values(t, ts, values.take(k)) is Err,
    ensures
        spec_convert_values(t, ts, values) == spec_convert_values(t, ts, values.take(k)),
    decreases values.len() - k,
{
    if k < values.len() {
        assert(values.take(k + 1).drop_last() =~= values.take(k));
        lemma_convert_values_error_extends(t, ts, values, k + 1);
    } else {
        assert(values.take(k) =~= values);
    }
}

fn convert_values(t: &Table, ts: &Vec<usize>, values: &Vec<Literal>) -> (r: Result<Vec<Value>, DbError>)
    requires
        ts@.len() == values@.len(),
        forall|i: int| 0 <= i < ts@.len() ==> #[trigger] ts@[i] < t.columns@.len(),
    ensures
        match r {
            Ok(vs) => spec_convert_values(t@, targets_view(ts@), literals_view(values@)) == Ok::<
                Seq<ValueModel>,
                DbErrorModel,
            >(row_view(vs)) && vs@.len() == values@.len(),
            Err(e) => spec_convert_values(t@, targets_view(ts@), literals_view(values@)) == Err::<
                Seq<ValueModel>,
                DbErrorModel,
            >(e@),
        },
{
    let ghost lv = literals_view(values@);
    let ghost tv = targets_view(ts@);
    let mut out: Vec<Value> = Vec::new();
    let mut p: usize = 0;
    assert(lv.take(0) =~= Seq::<LiteralModel>::empty());
    assert(row_view(out) =~= Seq::<ValueModel>::empty());
    while p < values.len()
        invariant
            p <= values@.len(),
            ts@.len() == values@.len(),
            forall|i: int| 0 <= i < ts@.len() ==> #[trigger] ts@[i] < t.columns@.len(),
            lv == literals_view(values@),
            tv == targets_view(ts@),
            out@.len() == p,
            spec_convert_values(t@, tv, lv.take(p as int)) == Ok::<Seq<ValueModel>, DbErrorModel>(
                row_view(out),
            ),
        decreases values@.len() - p,
    {
        assert(lv.take(p + 1).drop_last() =~= lv.take(p as int));
        assert(lv.take(p + 1).last() == values@[p as int]@);
        assert(t@.columns[tv[p as int]] == t.columns@[ts@[p as int] as int]@);
        let (v, _) = eval_literal(&values[p]);
        match convert(&v, &t.columns[ts[p]].data_type) {
            Err(e) => {
                proof {
                    lemma_convert_values_error_extends(t@, tv, lv, p + 1);
                }
                return Err(e);
            },
            Ok(c) => {
                let ghost before = row_view(out);
                let ghost cv = c@;
                out.push(c);
                assert(row_view(out) =~= before.push(cv));
            },
        }
        p = p + 1;
    }
    assert(lv.take(values@.len() as int) =~= lv);
    Ok(out)
}

fn first_null_value(t: &Table, ts: &Vec<usize>, vals: &Vec<Value>) -> (r: Option<usize>)
    requires
        ts@.len() == vals@.len(),
        forall|i: int| 0 <= i < ts@.len() ==> #[trigger] ts@[i] < t.columns@.len(),
    ensures
        match r {
            None => first_null_value_from(t@, targets_view(ts@), row_view(*vals), 0) is None,
            Some(p) => first_null_value_from(t@, targets_view(ts@), row_view(*vals), 0) == Some(
                p as int,
            ) && p < ts@.len(),
        },
{
    let mut p: usize = 0;
    while p < vals.len()
        invariant
            p <= vals@.len(),
            ts@.len() == vals@.len(),
            forall|i: int| 0 <= i < ts@.len() ==> #[trigger] ts@[i] < t.columns@.len(),
            first_null_value_from(t@, targets_view(ts@), row_view(*vals), 0)
                == first_null_value_from(t@, targets_view(ts@), row_view(*vals), p as int),
        decreases vals@.len() - p,
    {
        assert(t@.columns[targets_view(ts@)[p as int]] == t.columns@[ts@[p as int] as int]@);
        let is_null = match &vals[p] {
            Value::Null => true,
            _ => false,
        };
        if is_null && !t.columns[ts[p]].nullable {
            return Some(p);
        }
        p = p + 1;
    }
    None
}

fn assign_row_exec(row: &Vec<Value>, ts: &Vec<usize>, vals: &Vec<Value>) -> (r: Vec<Value>)
    requires
        ts@.len() == vals@.len(),
    ensures
        row_view(r) == assign_row(row_view(*row), targets_view(ts@), row_view(*vals)),
        r@.len() == row@.len(),
{
    let mut out: Vec<Value> = Vec::new();
    let mut j: usize = 0;
    while j < row.len()
        invariant
            j <= row@.len(),
            ts@.len() == vals@.len(),
            out@.len() == j,
            forall|i: int|
                0 <= i < j ==> (#[trigger] out@[i])@ == assign_row(
                    row_view(*row),
                    targets_view(ts@),
                    row_view(*vals),
                )[i],
        decreases row@.len() - j,
    {
        match position(ts, j) {
            Some(p) => out.push(copy_value(&vals[p])),
            None => out.push(copy_value(&row[j])),
        }
        j = j + 1;
    }
    assert(row_view(out) =~= assign_row(row_view(*row), targets_view(ts@), row_view(*vals)));
    out
}

fn key_conflict(rows: &Vec<Vec<Value>>, k: usize) -> (b: bool)
    requires
        forall|i: int| 0 <= i < rows@.len() ==> k < (#[trigger] rows@[i])@.len(),
    ensures
        b == has_key_conflict(rows_view(rows@), k as int),
{
    let ghost rv = rows_view(rows@);
    let n = rows.len();
    let mut j: usize = 0;
    while j < n
        invariant
            n == rows@.len(),
            j <= n,
            rv == rows_view(rows@),
            forall|i: int| 0 <= i < rows@.len() ==> k < (#[trigger] rows@[i])@.len(),
            forall|a: int, b: int|
                0 <= a < b < j ==> !sql_equal(#[trigger] rv[a][k as int], #[trigger] rv[b][k as int]),
        decreases n - j,
    {
        let mut i: usize = 0;
        while i < j
            invariant
                n == rows@.len(),
                i <= j < n,
                rv == rows_view(rows@),
                forall|x: int| 0 <= x < rows@.len() ==> k < (#[trigger] rows@[x])@.len(),
                forall|a: int, b: int|
                    0 <= a < b < j ==> !sql_equal(#[trigger] rv[a][k as int], #[trigger] rv[b][k as int]),
                forall|a: int| 0 <= a < i ==> !sql_equal(#[trigger] rv[a][k as int], rv[j as int][k as int]),
            decreases j - i,
        {
            assert(rv[i as int][k as int] == rows@[i as int]@[k as int]@);
            assert(rv[j as int][k as int] == rows@[j as int]@[k as int]@);
            if values_equal(&rows[i][k], &rows[j][k]) {
                return true;
            }
            i = i + 1;
        }
        j = j + 1;
    }
    false
}

impl Database {
    /// `UPDATE table SET assignments [WHERE filter]`.
    pub fn update(
        &mut self,
        now: i64,
        table: &ObjectName,
        assignments: &Vec<Assignment>,
        filter: &Vec<Comparison>,
    ) -> (r: Result<(), DbError>)
        requires
            db_wf(old(self)@),
        ensures
            match r {
                Ok(()) => spec_update(
                    old(self)@,
                    now,
                    table@,
                    assignments_view(assignments@),
                    filter_view(filter@),
                ) == Ok::<DatabaseModel, DbErrorModel>(final(self)@),
                Err(e) => spec_update(
                    old(self)@,
                    now,
                    table@,
                    assignments_view(assignments@),
                    filter_view(filter@),
                ) == Err::<DatabaseModel, DbErrorModel>(e@) && final(self)@ == old(self)@,
            },
            db_wf(final(self)@),
    {
        let ti = match lookup_table_exec(self, table) {
            None => {
                return Err(DbError::Execution(msg3("Invalid object name '", &table.name, "'.")));
            },
            Some(ti) => ti,
        };
        let ghost av = assignments_view(assignments@);
        let ghost tm = self@.tables[ti as int];
        assert(tm == self.tables@[ti as int]@);
        assert(table_ok(tm));
        let t = &self.tables[ti];
        let mut names: Vec<Vec<char>> = Vec::new();
        let mut values: Vec<Literal> = Vec::new();
        let mut p: usize = 0;
        while p < assignments.len()
            invariant
                p <= assignments@.len(),
                names@.len() == p,
                values@.len() == p,
                forall|i: int| 0 <= i < p ==> (#[trigger] names@[i])@ == assignments@[i].column@,
                forall|i: int| 0 <= i < p ==> (#[trigger] values@[i])@ == assignments@[i].value@,
            decreases assignments@.len() - p,
        {
            names.push(copy_chars(&assignments[p].column));
            values.push(crate::ast::copy_literal(&assignments[p].value));
            p = p + 1;
        }
        assert(names_view(names@) =~= assignment_names(av));
        assert(literals_view(values@) =~= assignment_values(av));
        let ts = match resolve_targets(&t.columns, &names) {
            Err(e) => {
                return Err(e);
            },
            Ok(ts) => ts,
        };
        let vals = match convert_values(t, &ts, &values) {
            Err(e) => {
                return Err(e);
            },
            Ok(vals) => vals,
        };
        if let Some(p) = first_null_value(t, &ts, &vals) {
            assert(tm.columns[targets_view(ts@)[p as int]] == t.columns@[ts@[p as int] as int]@);
            return Err(
                DbError::Execution(
                    msg5(
                        "Cannot insert the value NULL into column '",
                        &t.columns[ts[p]].name,
                        "', table '",
                        &t.name,
                        "'; column does not allow nulls. UPDATE fails.",
                    ),
                ),
            );
        }
        let scope = table_scope_exec(t);
        let f = match bind_filter(Some(&scope), filter) {
            Err(e) => {
                return Err(e);
            },
            Ok(f) => f,
        };
        let ghost fv = bound_filter_view(f@);
        let ghost tv = targets_view(ts@);
        let n = t.rows.len();
        let mut rows: Vec<Vec<Value>> = Vec::new();
        let mut r: usize = 0;
        while r < n
            invariant
                n == t.rows@.len(),
                r <= n,
                tm == t@,
                table_ok(tm),
                ts@.len() == vals@.len(),
                fv == bound_filter_view(f@),
                tv == targets_view(ts@),
                filter_in(fv, t.columns@.len() as int),
                rows@.len() == r,
                forall|i: int| 0 <= i < r ==> (#[trigger] rows@[i])@.len() == t.columns@.len(),
                forall|i: int|
                    0 <= i < r ==> row_view(#[trigger] rows@[i]) == updated_rows(
                        tm.rows,
                        fv,
                        tv,
                        row_view(vals),
                        self@,
                        now,
                    )[i],
            decreases n - r,
        {
            assert(tm.rows[r as int] == row_view(t.rows@[r as int]));
            assert(tm.rows[r as int].len() == tm.columns.len());
            let row = if row_matches(&f, &t.rows[r], self, now) {
                assign_row_exec(&t.rows[r], &ts, &vals)
            } else {
                copy_row(&t.rows[r])
            };
            rows.push(row);
            r = r + 1;
        }
        let ghost rows2 = updated_rows(tm.rows, fv, tv, row_view(vals), self@, now);
        assert(rows_view(rows@) =~= rows2);
        if let Some(k) = pk_column(&t.columns) {
            if position(&ts, k).is_some() && key_conflict(&rows, k) {
                return Err(
                    DbError::Execution(
                        msg5(
                            "Violation of PRIMARY KEY constraint 'PK_",
                            &t.name,
                            "'. Cannot insert duplicate key in object 'dbo.",
                            &t.name,
                            "'.",
                        ),
                    ),
                );
            }
        }
        let ghost before = self@;
        let ghost rowsc = rows;
        self.tables[ti].rows = rows;
        assert(self.tables@[ti as int].rows@ == rowsc@);
        assert(self@.tables[ti as int] == TableModel { rows: rows2, ..tm });
        assert(self@.tables =~= before.tables.update(ti as int, TableModel { rows: rows2, ..tm }));
        proof {
            let nt = TableModel { rows: rows2, ..tm };
            assert forall|x: int| 0 <= x < nt.rows.len() implies (#[trigger] nt.rows[x]).len() == nt.columns.len() by {
                assert(nt.rows[x] == row_view(rowsc@[x]));
            }
            assert(table_ok(nt));
            lemma_table_ok_update(before, ti as int, nt);
        }
        Ok(())
    }

    /// `DELETE FROM table [WHERE filter]`.
    pub fn delete(&mut self, now: i64, table: &ObjectName, filter: &Vec<Comparison>) -> (r: Result<
        (),
        DbError,
    >)
        requires
            db_wf(old(self)@),
        ensures
            match r {
                Ok(()) => spec_delete(old(self)@, now, table@, filter_view(filter@)) == Ok::<
                    DatabaseModel,
                    DbErrorModel,
                >(final(self)@),
                Err(e) => spec_delete(old(self)@, now, table@, filter_view(filter@)) == Err::<
                    DatabaseModel,
                    DbErrorModel,
                >(e@) && final(self)@ == old(self)@,
            },
            db_wf(final(self)@),
    {
        let ti = match lookup_table_exec(self, table) {
            None => {
                return Err(DbError::Execution(msg3("Invalid object name '", &table.name, "'.")));
            },
            Some(ti) => ti,
        };
        let ghost tm = self@.tables[ti as int];
        assert(tm == self.tables@[ti as int]@);
        assert(table_ok(tm));
        let t = &self.tables[ti];
        let scope = table_scope_exec(t);
        let f = match bind_filter(Some(&scope), filter) {
            Err(e) => {
                return Err(e);
            },
            Ok(f) => f,
        };
        assert forall|i: int| 0 <= i < t.rows@.len() implies (#[trigger] t.rows@[i])@.len() == t.columns@.len() by {
            assert(tm.rows[i] == row_view(t.rows@[i]));
        }
        let rows = keep_rows(&t.rows, &f, t.columns.len(), self, now, false);
        let ghost rows2 = spec_keep_rows(tm.rows, bound_filter_view(f@), self@, now, false);
        proof {
            if let Some(k) = pk_column_from(tm.columns, 0) {
                lemma_keep_rows_unique(tm.rows, bound_filter_view(f@), self@, now, false, k);
            }
        }
        let ghost before = self@;
        let ghost rowsc = rows;
        self.tables[ti].rows = rows;
        assert(self.tables@[ti as int].rows@ == rowsc@);
        assert(self@.tables[ti as int] == TableModel { rows: rows2, ..tm });
        assert(self@.tables =~= before.tables.update(ti as int, TableModel { rows: rows2, ..tm }));
        proof {
            let nt = TableModel { rows: rows2, ..tm };
            assert forall|x: int| 0 <= x < nt.rows.len() implies (#[trigger] nt.rows[x]).len() == nt.columns.len() by {
                assert(nt.rows[x] == row_view(rowsc@[x]));
            }
            assert(table_ok(nt));
            lemma_table_ok_update(before, ti as int, nt);
        }
        Ok(())
    }
}

// ---------------------------------------------------------------------------
// ALTER TABLE
// ---------------------------------------------------------------------------

pub open spec fn msg_drop_missing(column: Seq<char>, table: Seq<char>) -> Seq<char> {
    "ALTER TABLE DROP COLUMN failed because column '"@ + column + "' does not exist in table '"@
        + table + "'."@
}

pub open spec fn msg_drop_only(column: Seq<char>, table: Seq<char>) -> Seq<char> {
    "ALTER TABLE DROP COLUMN failed because '"@ + column + "' is the only data column in table '"@
        + table + "'. A table must have at least one data column."@
}

pub open spec fn msg_key_dependent(table: Seq<char>, column: Seq<char>) -> Seq<char> {
    "The object 'PK_"@ + table + "' is dependent on column '"@ + column + "'."@
}

pub open spec fn msg_alter_missing(column: Seq<char>, table: Seq<char>) -> Seq<char> {
    "ALTER TABLE ALTER COLUMN failed because column '"@ + column + "' does not exist in table '"@
        + table + "'."@
}

pub open spec fn msg_add_not_null(column: Seq<char>, table: Seq<char>) -> Seq<char> {
    "ALTER TABLE only allows columns to be added that can contain nulls, or have a DEFAULT definition specified. Column '"@
        + column + "' cannot be added to non-empty table '"@ + table
        + "' because it does not satisfy these conditions."@
}

/// The value the existing rows get in a column that `ALTER TABLE ADD` adds:
/// `NULL` where the column allows it; else its default, which must exist
/// unless the table has no rows.
pub open spec fn spec_add_fill(db: DatabaseModel, now: i64, t: TableModel, c: ColumnSpecModel) -> Result<
    ValueModel,
    DbErrorModel,
> {
    if stored_column(c).nullable || t.rows.len() == 0 {
        Ok(ValueModel::Null)
    } else {
        match c.default {
            None => Err(DbErrorModel::Execution(msg_add_not_null(c.name, t.name))),
            Some(e) => match spec_convert(spec_eval_default(e, db, now), c.data_type) {
                Err(err) => Err(err),
                Ok(v) => if v is Null {
                    Err(DbErrorModel::Execution(msg_add_not_null(c.name, t.name)))
                } else {
                    Ok(v)
                },
            },
        }
    }
}

/// `ALTER TABLE t ADD c`: the column goes last; each row gets the fill value.
pub open spec fn spec_add_column(
    db: DatabaseModel,
    now: i64,
    ti: int,
    t: TableModel,
    c: ColumnSpecModel,
) -> Result<DatabaseModel, DbErrorModel> {
    if find_column_from(t.columns, c.name, 0) is Some {
        Err(DbErrorModel::Execution(msg_duplicate_column(c.name, t.name)))
    } else if t.columns.len() >= MAX_COLUMNS {
        Err(DbErrorModel::Execution(msg_column_limit()))
    } else if c.primary_key && pk_column_from(t.columns, 0) is Some {
        Err(DbErrorModel::Execution(msg_multiple_pk(t.name)))
    } else if c.default is Some && spec_bind_expr(None, c.default->0) is Err {
        Err(spec_bind_expr(None, c.default->0)->Err_0)
    } else {
        match spec_add_fill(db, now, t, c) {
            Err(e) => Err(e),
            Ok(v) => {
                let rows2 = Seq::new(t.rows.len(), |r: int| t.rows[r].push(v));
                if c.primary_key && has_key_conflict(rows2, t.columns.len() as int) {
                    Err(DbErrorModel::Execution(msg_pk_violation(t.name)))
                } else {
                    Ok(
                        with_table(
                            db,
                            ti,
                            TableModel {
                                columns: t.columns.push(stored_column(c)),
                                rows: rows2,
                                ..t
                            },
                        ),
                    )
                }
            },
        }
    }
}

/// `ALTER TABLE t DROP COLUMN name`: the column and its values go.
pub open spec fn spec_drop_column(db: DatabaseModel, ti: int, t: TableModel, name: Seq<char>) -> Result<
    DatabaseModel,
    DbErrorModel,
> {
    match find_column_from(t.columns, name, 0) {
        None => Err(DbErrorModel::Execution(msg_drop_missing(name, t.name))),
        Some(k) => if t.columns[k].primary_key {
            Err(DbErrorModel::Execution(msg_key_dependent(t.name, t.columns[k].name)))
        } else if t.columns.len() == 1 {
            Err(DbErrorModel::Execution(msg_drop_only(name, t.name)))
        } else {
            Ok(
                with_table(
                    db,
                    ti,
                    TableModel {
                        columns: t.columns.remove(k),
                        rows: Seq::new(t.rows.len(), |r: int| t.rows[r].remove(k)),
                        ..t
                    },
                ),
            )
        },
    }
}

/// The values of column `k` converted to type `dt`; the first failing row's error.
pub open spec fn spec_convert_column(rows: Seq<Seq<ValueModel>>, k: int, dt: crate::types::DataType) -> Result<
    Seq<ValueModel>,
    DbErrorModel,
>
    decreases rows.len(),
{
    if rows.len() == 0 {
        Ok(seq![])
    } else {
        match spec_convert_column(rows.drop_last(), k, dt) {
            Err(e) => Err(e),
            Ok(vs) => match spec_convert(rows.last()[k], dt) {
                Err(e) => Err(e),
                Ok(v) => Ok(vs.push(v)),
            },
        }
    }
}

/// `ALTER TABLE t ALTER COLUMN c`: the column takes the new type and
/// nullability; each value is converted to the new type.
pub open spec fn spec_alter_column(db: DatabaseModel, ti: int, t: TableModel, c: ColumnSpecModel) -> Result<
    DatabaseModel,
    DbErrorModel,
> {
    match find_column_from(t.columns, c.name, 0) {
        None => Err(DbErrorModel::Execution(msg_alter_missing(c.name, t.name))),
        Some(k) => if t.columns[k].primary_key {
            Err(DbErrorModel::Execution(msg_key_dependent(t.name, t.columns[k].name)))
        } else {
            match spec_convert_column(t.rows, k, c.data_type) {
                Err(e) => Err(e),
                Ok(vals) => if !c.nullable && (exists|r: int| 0 <= r < vals.len() && #[trigger] vals[r] is Null) {
                    Err(DbErrorModel::Execution(msg_null_update(t.columns[k].name, t.name)))
                } else {
                    Ok(
                        with_table(
                            db,
                            ti,
                            TableModel {
                                columns: t.columns.update(
                                    k,
                                    ColumnSpecModel {
                                        data_type: c.data_type,
                                        nullable: c.nullable,
                                        ..t.columns[k]
                                    },
                                ),
                                rows: Seq::new(t.rows.len(), |r: int| t.rows[r].update(k, vals[r])),
                                ..t
                            },
                        ),
                    )
                },
            }
        },
    }
}

/// `ALTER TABLE table action`.
pub open spec fn spec_alter_table(
    db: DatabaseModel,
    now: i64,
    table: ObjectNameModel,
    action: AlterActionModel,
) -> Result<DatabaseModel, DbErrorModel> {
    match lookup_table(db, table) {
        None => Err(DbErrorModel::Execution(msg_invalid_object(table.name))),
        Some(ti) => match action {
            AlterActionModel::AddColumn(c) => spec_add_column(db, now, ti, db.tables[ti], c),
            AlterActionModel::DropColumn(name) => spec_drop_column(db, ti, db.tables[ti], name),
            AlterActionModel::AlterColumn(c) => spec_alter_column(db, ti, db.tables[ti], c),
        },
    }
}

proof fn lemma_convert_column_error_extends(rows: Seq<Seq<ValueModel>>, k: int, dt: crate::types::DataType, n: int)
    requires
        0 <= n <= rows.len(),
        spec_convert_column(rows.take(n), k, dt) is Err,
    ensures
        spec_convert_column(rows, k, dt) == spec_convert_column(rows.take(n), k, dt),
    decreases rows.len() - n,
{
    if n < rows.len() {
        assert(rows.take(n + 1).drop_last() =~= rows.take(n));
        lemma_convert_column_error_extends(rows, k, dt, n + 1);
    } else {
        assert(rows.take(n) =~= rows);
    }
}

proof fn lemma_table_ok_update(db: DatabaseModel, ti: int, nt: TableModel)
    requires
        db_wf(db),
        0 <= ti < db.tables.len(),
        table_ok(nt),
        nt.name == db.tables[ti].name,
        nt.object_id == db.tables[ti].object_id,
    ensures
        db_wf(with_table(db, ti, nt)),
{
    let d2 = with_table(db, ti, nt);
    assert forall|i: int| 0 <= i < d2.tables.len() implies table_ok(#[trigger] d2.tables[i]) by {
        if i != ti {
            assert(d2.tables[i] == db.tables[i]);
        }
    }
    assert forall|i: int, j: int| 0 <= i < j < d2.tables.len() implies !same_name(
        #[trigger] d2.tables[i].name,
        #[trigger] d2.tables[j].name,
    ) by {
        assert(d2.tables[i].name == db.tables[i].name);
        assert(d2.tables[j].name == db.tables[j].name);
    }
    assert forall|i: int, j: int| 0 <= i < j < d2.tables.len() implies (#[trigger] d2.tables[i]).object_id
        < (#[trigger] d2.tables[j]).object_id by {
        assert(d2.tables[i].object_id == db.tables[i].object_id);
        assert(d2.tables[j].object_id == db.tables[j].object_id);
    }
    assert forall|i: int| 0 <= i < d2.tables.len() implies (#[trigger] d2.tables[i]).object_id
        < d2.next_object_id by {
        assert(d2.tables[i].object_id == db.tables[i].object_id);
    }
}

impl Database {
    fn add_column(&mut self, now: i64, ti: usize, c: &ColumnSpec) -> (r: Result<(), DbError>)
        requires
            db_wf(old(self)@),
            ti < old(self)@.tables.len(),
        ensures
            match r {
                Ok(()) => spec_add_column(old(self)@, now, ti as int, old(self)@.tables[ti as int], c@)
                    == Ok::<DatabaseModel, DbErrorModel>(final(self)@),
                Err(e) => spec_add_column(old(self)@, now, ti as int, old(self)@.tables[ti as int], c@)
                    == Err::<DatabaseModel, DbErrorModel>(e@) && final(self)@ == old(self)@,
            },
            db_wf(final(self)@),
    {
        let ghost tm = self@.tables[ti as int];
        assert(tm == self.tables@[ti as int]@);
        assert(table_ok(tm));
        let t = &self.tables[ti];
        if find_column(&t.columns, &c.name).is_some() {
            return Err(
                DbError::Execution(
                    msg5(
                        "Column names in each table must be unique. Column name '",
                        &c.name,
                        "' in table '",
                        &t.name,
                        "' is specified more than once.",
                    ),
                ),
            );
        }
        if t.columns.len() >= MAX_COLUMNS {
            return Err(DbError::Execution(String::from_str("A table can have at most 1024 columns.")));
        }
        if c.primary_key && pk_column(&t.columns).is_some() {
            return Err(
                DbError::Execution(
                    msg3("Cannot add multiple PRIMARY KEY constraints to table '", &t.name, "'."),
                ),
            );
        }
        if let Some(e) = &c.default {
            if let Err(err) = bind_expr(None, e) {
                return Err(err);
            }
        }
        let fill: Value = if (c.nullable && !c.primary_key) || t.rows.len() == 0 {
            Value::Null
        } else {
            match &c.default {
                None => {
                    return Err(
                        DbError::Execution(
                            msg5(
                                "ALTER TABLE only allows columns to be added that can contain nulls, or have a DEFAULT definition specified. Column '",
                                &c.name,
                                "' cannot be added to non-empty table '",
                                &t.name,
                                "' because it does not satisfy these conditions.",
                            ),
                        ),
                    );
                },
                Some(e) => {
                    let d = eval_default(e, self, now);
                    match convert(&d, &c.data_type) {
                        Err(err) => {
                            return Err(err);
                        },
                        Ok(v) => {
                            if let Value::Null = v {
                                return Err(
                                    DbError::Execution(
                                        msg5(
                                            "ALTER TABLE only allows columns to be added that can contain nulls, or have a DEFAULT definition specified. Column '",
                                            &c.name,
                                            "' cannot be added to non-empty table '",
                                            &t.name,
                                            "' because it does not satisfy these conditions.",
                                        ),
                                    ),
                                );
                            }
                            v
                        },
                    }
                },
            }
        };
        assert(spec_add_fill(self@, now, tm, c@) == Ok::<ValueModel, DbErrorModel>(fill@));
        let n = t.rows.len();
        let mut rows: Vec<Vec<Value>> = Vec::new();
        let mut r: usize = 0;
        while r < n
            invariant
                n == t.rows@.len(),
                r <= n,
                tm == t@,
                table_ok(tm),
                rows@.len() == r,
                forall|i: int| 0 <= i < r ==> (#[trigger] rows@[i])@.len() == t.columns@.len() + 1,
                forall|i: int| 0 <= i < r ==> row_view(#[trigger] rows@[i]) == tm.rows[i].push(fill@),
            decreases n - r,
        {
            assert(tm.rows[r as int] == row_view(t.rows@[r as int]));
            let mut row = copy_row(&t.rows[r]);
            let ghost rv = row_view(row);
            row.push(copy_value(&fill));
            assert(row_view(row) =~= rv.push(fill@));
            rows.push(row);
            r = r + 1;
        }
        let ghost rows2 = Seq::new(tm.rows.len(), |x: int| tm.rows[x].push(fill@));
        assert(rows_view(rows@) =~= rows2);
        let width = t.columns.len();
        if c.primary_key {
            if key_conflict(&rows, width) {
                return Err(
                    DbError::Execution(
                        msg5(
                            "Violation of PRIMARY KEY constraint 'PK_",
                            &t.name,
                            "'. Cannot insert duplicate key in object 'dbo.",
                            &t.name,
                            "'.",
                        ),
                    ),
                );
            }
        }
        let sc = stored_column_exec(c);
        let ghost scv = sc@;
        let ghost before = self@;
        let ghost rowsc = rows;
        let ghost old_cols = self.tables@[ti as int].columns@;
        self.tables[ti].columns.push(sc);
        self.tables[ti].rows = rows;
        assert(self.tables@[ti as int].rows@ == rowsc@);
        assert(self.tables@[ti as int].columns@ == old_cols.push(sc));
        assert(column_specs_view(self.tables@[ti as int].columns@) =~= tm.columns.push(scv));
        let ghost nt = TableModel { columns: tm.columns.push(stored_column(c@)), rows: rows2, ..tm };
        assert(self@.tables[ti as int] == nt);
        assert(self@.tables =~= before.tables.update(ti as int, nt));
        proof {
            lemma_pk_push(tm.columns, stored_column(c@), 0);
            if let Some(k) = pk_column_from(tm.columns, 0) {
                lemma_pk_column_from_range(tm.columns, 0);
                assert forall|x: int| 0 <= x < tm.rows.len() implies #[trigger] rows2[x][k] == tm.rows[x][k] by {
                    assert(rows2[x] == tm.rows[x].push(fill@));
                }
                lemma_same_keys(tm.rows, rows2, k);
            }
        }
        proof {
            assert forall|x: int| 0 <= x < nt.rows.len() implies (#[trigger] nt.rows[x]).len() == nt.columns.len() by {
                assert(nt.rows[x] == tm.rows[x].push(fill@));
            }
            lemma_table_ok_update(before, ti as int, nt);
        }
        Ok(())
    }

    fn drop_column(&mut self, ti: usize, name: &Vec<char>) -> (r: Result<(), DbError>)
        requires
            db_wf(old(self)@),
            ti < old(self)@.tables.len(),
        ensures
            match r {
                Ok(()) => spec_drop_column(old(self)@, ti as int, old(self)@.tables[ti as int], name@)
                    == Ok::<DatabaseModel, DbErrorModel>(final(self)@),
                Err(e) => spec_drop_column(old(self)@, ti as int, old(self)@.tables[ti as int], name@)
                    == Err::<DatabaseModel, DbErrorModel>(e@) && final(self)@ == old(self)@,
            },
            db_wf(final(self)@),
    {
        let ghost tm = self@.tables[ti as int];
        assert(tm == self.tables@[ti as int]@);
        assert(table_ok(tm));
        let t = &self.tables[ti];
        let k = match find_column(&t.columns, name) {
            None => {
                return Err(
                    DbError::Execution(
                        msg5(
                            "ALTER TABLE DROP COLUMN failed because column '",
                            name,
                            "' does not exist in table '",
                            &t.name,
                            "'.",
                        ),
                    ),
                );
            },
            Some(k) => k,
        };
        assert(tm.columns[k as int] == t.columns@[k as int]@);
        if t.columns[k].primary_key {
            return Err(
                DbError::Execution(
                    msg5("The object 'PK_", &t.name, "' is dependent on column '", &t.columns[k].name, "'."),
                ),
            );
        }
        if t.columns.len() == 1 {
            return Err(
                DbError::Execution(
                    msg5(
                        "ALTER TABLE DROP COLUMN failed because '",
                        name,
                        "' is the only data column in table '",
                        &t.name,
                        "'. A table must have at least one data column.",
                    ),
                ),
            );
        }
        let n = t.rows.len();
        let mut rows: Vec<Vec<Value>> = Vec::new();
        let mut r: usize = 0;
        while r < n
            invariant
                n == t.rows@.len(),
                r <= n,
                tm == t@,
                table_ok(tm),
                k < t.columns@.len(),
                rows@.len() == r,
                forall|i: int| 0 <= i < r ==> (#[trigger] rows@[i])@.len() == t.columns@.len() - 1,
                forall|i: int| 0 <= i < r ==> row_view(#[trigger] rows@[i]) == tm.rows[i].remove(k as int),
            decreases n - r,
        {
            assert(tm.rows[r as int] == row_view(t.rows@[r as int]));
            let src = &t.rows[r];
            let mut row: Vec<Value> = Vec::new();
            let mut j: usize = 0;
            while j < src.len()
                invariant
                    j <= src@.len(),
                    src@.len() == t.columns@.len(),
                    k < src@.len(),
                    row@.len() == if j <= k { j as int } else { j - 1 },
                    forall|i: int| 0 <= i < row@.len() ==> (#[trigger] row@[i])@ == row_view(*src).remove(k as int)[i],
                decreases src@.len() - j,
            {
                if j != k {
                    row.push(copy_value(&src[j]));
                }
                j = j + 1;
            }
            assert(row_view(row) =~= row_view(*src).remove(k as int));
            rows.push(row);
            r = r + 1;
        }
        let ghost rows2 = Seq::new(tm.rows.len(), |x: int| tm.rows[x].remove(k as int));
        assert(rows_view(rows@) =~= rows2);
        let ghost before = self@;
        let ghost rowsc = rows;
        let ghost old_cols = self.tables@[ti as int].columns@;
        let _gone = self.tables[ti].columns.remove(k);
        self.tables[ti].rows = rows;
        assert(self.tables@[ti as int].rows@ == rowsc@);
        assert(self.tables@[ti as int].columns@ == old_cols.remove(k as int));
        assert(column_specs_view(self.tables@[ti as int].columns@) =~= tm.columns.remove(k as int));
        let ghost nt = TableModel { columns: tm.columns.remove(k as int), rows: rows2, ..tm };
        assert(self@.tables[ti as int] == nt);
        assert(self@.tables =~= before.tables.update(ti as int, nt));
        proof {
            lemma_pk_remove(tm.columns, k as int, 0);
            if let Some(p) = pk_column_from(tm.columns, 0) {
                lemma_pk_column_from_range(tm.columns, 0);
                let q = if p < k { p } else { p - 1 };
                assert forall|x: int| 0 <= x < tm.rows.len() implies #[trigger] rows2[x][q] == tm.rows[x][p] by {
                    assert(rows2[x] == tm.rows[x].remove(k as int));
                }
                assert forall|a: int, b: int| 0 <= a < b < rows2.len() && sql_equal(#[trigger] rows2[a][q], #[trigger] rows2[b][q]) implies false by {
                    assert(sql_equal(tm.rows[a][p], tm.rows[b][p]));
                }
            }
        }
        proof {
            assert forall|x: int| 0 <= x < nt.rows.len() implies (#[trigger] nt.rows[x]).len() == nt.columns.len() by {
                assert(nt.rows[x] == tm.rows[x].remove(k as int));
            }
            lemma_table_ok_update(before, ti as int, nt);
        }
        Ok(())
    }

    fn alter_column(&mut self, ti: usize, c: &ColumnSpec) -> (r: Result<(), DbError>)
        requires
            db_wf(old(self)@),
            ti < old(self)@.tables.len(),
        ensures
            match r {
                Ok(()) => spec_alter_column(old(self)@, ti as int, old(self)@.tables[ti as int], c@)
                    == Ok::<DatabaseModel, DbErrorModel>(final(self)@),
                Err(e) => spec_alter_column(old(self)@, ti as int, old(self)@.tables[ti as int], c@)
                    == Err::<DatabaseModel, DbErrorModel>(e@) && final(self)@ == old(self)@,
            },
            db_wf(final(self)@),
    {
        let ghost tm = self@.tables[ti as int];
        assert(tm == self.tables@[ti as int]@);
        assert(table_ok(tm));
        let t = &self.tables[ti];
        let k = match find_column(&t.columns, &c.name) {
            None => {
                return Err(
                    DbError::Execution(
                        msg5(
                            "ALTER TABLE ALTER COLUMN failed because column '",
                            &c.name,
                            "' does not exist in table '",
                            &t.name,
                            "'.",
                        ),
                    ),
                );
            },
            Some(k) => k,
        };
        assert(tm.columns[k as int] == t.columns@[k as int]@);
        if t.columns[k].primary_key {
            return Err(
                DbError::Execution(
                    msg5("The object 'PK_", &t.name, "' is dependent on column '", &t.columns[k].name, "'."),
                ),
            );
        }
        let n = t.rows.len();
        let mut vals: Vec<Value> = Vec::new();
        let mut r: usize = 0;
        assert(tm.rows.take(0) =~= Seq::<Seq<ValueModel>>::empty());
        assert(row_view(vals) =~= Seq::<ValueModel>::empty());
        while r < n
            invariant
                self@ == old(self)@,
                db_wf(self@),
                ti < self@.tables.len(),
                tm == self@.tables[ti as int],
                find_column_from(tm.columns, c@.name, 0) == Some(k as int),
                !tm.columns[k as int].primary_key,
                n == t.rows@.len(),
                r <= n,
                tm == t@,
                table_ok(tm),
                k < t.columns@.len(),
                vals@.len() == r,
                spec_convert_column(tm.rows.take(r as int), k as int, c.data_type) == Ok::<
                    Seq<ValueModel>,
                    DbErrorModel,
                >(row_view(vals)),
            decreases n - r,
        {
            assert(tm.rows[r as int] == row_view(t.rows@[r as int]));
            assert(tm.rows.take(r + 1).drop_last() =~= tm.rows.take(r as int));
            assert(tm.rows.take(r + 1).last() == tm.rows[r as int]);
            match convert(&t.rows[r][k], &c.data_type) {
                Err(e) => {
                    proof {
                        lemma_convert_column_error_extends(tm.rows, k as int, c.data_type, r + 1);
                    }
                    return Err(e);
                },
                Ok(v) => {
                    let ghost before = row_view(vals);
                    let ghost vv = v@;
                    vals.push(v);
                    assert(row_view(vals) =~= before.push(vv));
                },
            }
            r = r + 1;
        }
        assert(tm.rows.take(n as int) =~= tm.rows);
        let ghost vv = row_view(vals);
        if !c.nullable {
            let mut r: usize = 0;
            while r < n
                invariant
                    self@ == old(self)@,
                    db_wf(self@),
                    ti < self@.tables.len(),
                    tm == self@.tables[ti as int],
                    tm == t@,
                    find_column_from(tm.columns, c@.name, 0) == Some(k as int),
                    !tm.columns[k as int].primary_key,
                    !c.nullable,
                    k < t.columns@.len(),
                    spec_convert_column(tm.rows, k as int, c.data_type) == Ok::<
                        Seq<ValueModel>,
                        DbErrorModel,
                    >(vv),
                    r <= n,
                    vals@.len() == n,
                    vv == row_view(vals),
                    forall|i: int| 0 <= i < r ==> !(#[trigger] vv[i] is Null),
                decreases n - r,
            {
                if let Value::Null = &vals[r] {
                    assert(vv[r as int] is Null);
                    assert(tm.columns[k as int] == t.columns@[k as int]@);
                    return Err(
                        DbError::Execution(
                            msg5(
                                "Cannot insert the value NULL into column '",
                                &t.columns[k].name,
                                "', table '",
                                &t.name,
                                "'; column does not allow nulls. UPDATE fails.",
                            ),
                        ),
                    );
                }
                r = r + 1;
            }
        }
        let mut rows: Vec<Vec<Value>> = Vec::new();
        let mut r: usize = 0;
        while r < n
            invariant
                n == t.rows@.len(),
                r <= n,
                tm == t@,
                table_ok(tm),
                k < t.columns@.len(),
                vals@.len() == n,
                vv == row_view(vals),
                rows@.len() == r,
                forall|i: int| 0 <= i < r ==> (#[trigger] rows@[i])@.len() == t.columns@.len(),
                forall|i: int| 0 <= i < r ==> row_view(#[trigger] rows@[i]) == tm.rows[i].update(k as int, vv[i]),
            decreases n - r,
        {
            assert(tm.rows[r as int] == row_view(t.rows@[r as int]));
            let mut row = copy_row(&t.rows[r]);
            let ghost rv = row_view(row);
            row.set(k, copy_value(&vals[r]));
            assert(row_view(row) =~= rv.update(k as int, vv[r as int]));
            rows.push(row);
            r = r + 1;
        }
        let ghost rows2 = Seq::new(tm.rows.len(), |x: int| tm.rows[x].update(k as int, vv[x]));
        assert(rows_view(rows@) =~= rows2);
        let mut col = copy_column_spec(&t.columns[k]);
        col.data_type = c.data_type;
        col.nullable = c.nullable;
        let ghost colv = col@;
        let ghost before = self@;
        let ghost rowsc = rows;
        let ghost old_cols = self.tables@[ti as int].columns@;
        self.tables[ti].columns.set(k, col);
        self.tables[ti].rows = rows;
        assert(self.tables@[ti as int].rows@ == rowsc@);
        assert(column_specs_view(self.tables@[ti as int].columns@) =~= tm.columns.update(k as int, colv));
        let ghost nt = TableModel {
            columns: tm.columns.update(
                k as int,
                ColumnSpecModel { data_type: c.data_type, nullable: c.nullable, ..tm.columns[k as int] },
            ),
            rows: rows2,
            ..tm
        };
        assert(self@.tables[ti as int] == nt);
        assert(self@.tables =~= before.tables.update(ti as int, nt));
        proof {
            lemma_pk_update(
                tm.columns,
                k as int,
                ColumnSpecModel { data_type: c.data_type, nullable: c.nullable, ..tm.columns[k as int] },
                0,
            );
            if let Some(p) = pk_column_from(tm.columns, 0) {
                lemma_pk_column_from_range(tm.columns, 0);
                assert forall|x: int| 0 <= x < tm.rows.len() implies #[trigger] rows2[x][p] == tm.rows[x][p] by {
                    assert(rows2[x] == tm.rows[x].update(k as int, vv[x]));
                }
                lemma_same_keys(tm.rows, rows2, p);
            }
            assert forall|x: int| 0 <= x < nt.rows.len() implies (#[trigger] nt.rows[x]).len() == nt.columns.len() by {
                assert(nt.rows[x] == tm.rows[x].update(k as int, vv[x]));
            }
            lemma_table_ok_update(before, ti as int, nt);
        }
        Ok(())
    }

    /// `ALTER TABLE table action`.
    pub fn alter_table(&mut self, now: i64, table: &ObjectName, action: &AlterAction) -> (r: Result<
        (),
        DbError,
    >)
        requires
            db_wf(old(self)@),
        ensures
            match r {
                Ok(()) => spec_alter_table(old(self)@, now, table@, action@) == Ok::<
                    DatabaseModel,
                    DbErrorModel,
                >(final(self)@),
                Err(e) => spec_alter_table(old(self)@, now, table@, action@) == Err::<
                    DatabaseModel,
                    DbErrorModel,
                >(e@) && final(self)@ == old(self)@,
            },
            db_wf(final(self)@),
    {
        let ti = match lookup_table_exec(self, table) {
            None => {
                return Err(DbError::Execution(msg3("Invalid object name '", &table.name, "'.")));
            },
            Some(ti) => ti,
        };
        match action {
            AlterAction::AddColumn(c) => self.add_column(now, ti, c),
            AlterAction::DropColumn(name) => self.drop_column(ti, name),
            AlterAction::AlterColumn(c) => self.alter_column(ti, c),
        }
    }
}


// ---------------------------------------------------------------------------
// Primary keys stay unique
// ---------------------------------------------------------------------------

/// Rows with the same keys have the same conflicts.
proof fn lemma_same_keys(rows1: Seq<Seq<ValueModel>>, rows2: Seq<Seq<ValueModel>>, k: int)
    requires
        rows1.len() == rows2.len(),
        forall|r: int| 0 <= r < rows1.len() ==> #[trigger] rows2[r][k] == rows1[r][k],
    ensures
        has_key_conflict(rows2, k) == has_key_conflict(rows1, k),
{
    if has_key_conflict(rows2, k) {
        let (i, j) = choose|i: int, j: int|
            0 <= i < j < rows2.len() && sql_equal(#[trigger] rows2[i][k], #[trigger] rows2[j][k]);
        assert(rows2[i][k] == rows1[i][k]);
        assert(rows2[j][k] == rows1[j][k]);
        assert(sql_equal(rows1[i][k], rows1[j][k]));
    }
    if has_key_conflict(rows1, k) {
        let (i, j) = choose|i: int, j: int|
            0 <= i < j < rows1.len() && sql_equal(#[trigger] rows1[i][k], #[trigger] rows1[j][k]);
        assert(rows2[i][k] == rows1[i][k]);
        assert(rows2[j][k] == rows1[j][k]);
        assert(sql_equal(rows2[i][k], rows2[j][k]));
    }
}

/// A row whose key no row holds can be added without a conflict.
proof fn lemma_push_keeps_unique(rows: Seq<Seq<ValueModel>>, k: int, row: Seq<ValueModel>)
    requires
        !has_key_conflict(rows, k),
        !key_taken(rows, k, row[k]),
    ensures
        !has_key_conflict(rows.push(row), k),
{
    let n = rows.push(row);
    if has_key_conflict(n, k) {
        let (i, j) = choose|i: int, j: int|
            0 <= i < j < n.len() && sql_equal(#[trigger] n[i][k], #[trigger] n[j][k]);
        assert(n[i] == rows[i]);
        if j < rows.len() {
            assert(n[j] == rows[j]);
            assert(sql_equal(rows[i][k], rows[j][k]));
        } else {
            assert(n[j] == row);
            assert(sql_equal(rows[i][k], row[k]));
        }
    }
}

proof fn lemma_prefix_keeps_unique(rows: Seq<Seq<ValueModel>>, k: int)
    requires
        !has_key_conflict(rows, k),
        rows.len() > 0,
    ensures
        !has_key_conflict(rows.drop_last(), k),
{
    let d = rows.drop_last();
    if has_key_conflict(d, k) {
        let (i, j) = choose|i: int, j: int|
            0 <= i < j < d.len() && sql_equal(#[trigger] d[i][k], #[trigger] d[j][k]);
        assert(d[i] == rows[i] && d[j] == rows[j]);
        assert(sql_equal(rows[i][k], rows[j][k]));
    }
}

/// Every row that a condition keeps is a row of the input.
proof fn lemma_keep_rows_members(
    rows: Seq<Seq<ValueModel>>,
    f: Seq<BoundComparisonModel>,
    db: DatabaseModel,
    now: i64,
    keep: bool,
)
    ensures
        forall|x: int|
            0 <= x < spec_keep_rows(rows, f, db, now, keep).len() ==> exists|m: int|
                0 <= m < rows.len() && #[trigger] spec_keep_rows(rows, f, db, now, keep)[x] == rows[m],
    decreases rows.len(),
{
    if rows.len() > 0 {
        let d = rows.drop_last();
        lemma_keep_rows_members(d, f, db, now, keep);
        let kd = spec_keep_rows(d, f, db, now, keep);
        let kr = spec_keep_rows(rows, f, db, now, keep);
        assert forall|x: int| 0 <= x < kr.len() implies exists|m: int| 0 <= m < rows.len() && #[trigger] kr[x] == rows[m] by {
            if x < kd.len() {
                assert(kr[x] == kd[x]);
                let m = choose|m: int| 0 <= m < d.len() && #[trigger] kd[x] == d[m];
                assert(d[m] == rows[m]);
            } else {
                assert(kr[x] == rows[rows.len() - 1]);
            }
        }
    }
}

/// Keeping some of the rows keeps their keys unique.
proof fn lemma_keep_rows_unique(
    rows: Seq<Seq<ValueModel>>,
    f: Seq<BoundComparisonModel>,
    db: DatabaseModel,
    now: i64,
    keep: bool,
    k: int,
)
    requires
        !has_key_conflict(rows, k),
    ensures
        !has_key_conflict(spec_keep_rows(rows, f, db, now, keep), k),
    decreases rows.len(),
{
    if rows.len() > 0 {
        let d = rows.drop_last();
        lemma_prefix_keeps_unique(rows, k);
        lemma_keep_rows_unique(d, f, db, now, keep, k);
        let kd = spec_keep_rows(d, f, db, now, keep);
        if spec_row_matches(f, rows.last(), db, now) == keep {
            lemma_keep_rows_members(d, f, db, now, keep);
            let last = rows.last();
            if key_taken(kd, k, last[k]) {
                let x = choose|x: int| 0 <= x < kd.len() && sql_equal(#[trigger] kd[x][k], last[k]);
                let m = choose|m: int| 0 <= m < d.len() && #[trigger] kd[x] == d[m];
                assert(d[m] == rows[m]);
                assert(last == rows[rows.len() - 1]);
                assert(sql_equal(rows[m][k], rows[rows.len() - 1][k]));
            }
            lemma_push_keeps_unique(kd, k, last);
        }
    }
}

/// Adding a column at the end leaves the primary key where it was, or makes
/// the new column the key when there was none and it is one.
proof fn lemma_pk_push(cols: Seq<ColumnSpecModel>, c: ColumnSpecModel, j: int)
    requires
        0 <= j <= cols.len(),
    ensures
        pk_column_from(cols.push(c), j) == match pk_column_from(cols, j) {
            Some(i) => Some(i),
            None => if c.primary_key {
                Some(cols.len() as int)
            } else {
                None
            },
        },
    decreases cols.len() + 1 - j,
{
    let n = cols.push(c);
    if j < cols.len() {
        assert(n[j] == cols[j]);
        if !cols[j].primary_key {
            lemma_pk_push(cols, c, j + 1);
        }
    } else {
        assert(n[j] == c);
        if !c.primary_key {
            assert(pk_column_from(n, j + 1) is None);
        }
    }
}

/// Changing a column without changing whether it is the key leaves the key
/// where it was.
proof fn lemma_pk_update(cols: Seq<ColumnSpecModel>, k: int, c2: ColumnSpecModel, j: int)
    requires
        0 <= k < cols.len(),
        cols[k].primary_key == c2.primary_key,
        0 <= j,
    ensures
        pk_column_from(cols.update(k, c2), j) == pk_column_from(cols, j),
    decreases cols.len() - j,
{
    if j < cols.len() {
        assert(cols.update(k, c2)[j].primary_key == cols[j].primary_key);
        lemma_pk_update(cols, k, c2, j + 1);
    }
}

/// Dropping a column that is not the key moves the key one place left when
/// it came after the dropped column.
proof fn lemma_pk_remove(cols: Seq<ColumnSpecModel>, k2: int, j: int)
    requires
        0 <= k2 < cols.len(),
        !cols[k2].primary_key,
        0 <= j <= cols.len(),
    ensures
        pk_column_from(
            cols.remove(k2),
            if j <= k2 {
                j
            } else {
                j - 1
            },
        ) == match pk_column_from(cols, j) {
            Some(i) => Some(
                if i < k2 {
                    i
                } else {
                    i - 1
                },
            ),
            None => None,
        },
    decreases cols.len() - j,
{
    let r = cols.remove(k2);
    if j < cols.len() {
        if j == k2 {
            lemma_pk_remove(cols, k2, j + 1);
        } else {
            let jj = if j < k2 {
                j
            } else {
                j - 1
            };
            assert(r[jj] == cols[j]);
            if !cols[j].primary_key {
                lemma_pk_remove(cols, k2, j + 1);
            }
        }
    }
}

// ---------------------------------------------------------------------------
// Laws
// ---------------------------------------------------------------------------

/// The row an `INSERT` adds: its value for each column of the table.
pub open spec fn inserted_row(
    db: DatabaseModel,
    now: i64,
    table: ObjectNameModel,
    names: Seq<Seq<char>>,
    values: Seq<LiteralModel>,
) -> Seq<ValueModel> {
    match lookup_table(db, table) {
        None => seq![],
        Some(ti) => {
            let t = db.tables[ti];
            match spec_insert_targets(t, names) {
                Err(_) => seq![],
                Ok(ts) => match spec_insert_cells(db, now, t, ts, values, t.columns.len()) {
                    Ok(row) => row,
                    Err(_) => seq![],
                },
            }
        },
    }
}

/// Replacing a table by one of the same name leaves every lookup by name as it was.
pub proof fn lemma_find_table_after_update(
    tables: Seq<TableModel>,
    ti: int,
    t2: TableModel,
    name: Seq<char>,
    k: int,
)
    requires
        0 <= ti < tables.len(),
        t2.name == tables[ti].name,
    ensures
        find_table_from(tables.update(ti, t2), name, k) == find_table_from(tables, name, k),
    decreases tables.len() - k,
{
    if 0 <= k < tables.len() {
        assert(tables.update(ti, t2)[k].name == tables[k].name);
        lemma_find_table_after_update(tables, ti, t2, name, k + 1);
    }
}

/// A successful `INSERT` adds exactly one row, [`inserted_row`], at the end
/// of its table, and changes nothing else: the other tables, the table's
/// name, object id and columns stay as they were.
pub proof fn law_insert_appends_row(
    db: DatabaseModel,
    now: i64,
    table: ObjectNameModel,
    names: Seq<Seq<char>>,
    values: Seq<LiteralModel>,
)
    requires
        spec_insert(db, now, table, names, values) is Ok,
    ensures
        lookup_table(db, table) is Some,
        spec_insert(db, now, table, names, values)->Ok_0 == with_table(
            db,
            lookup_table(db, table)->0,
            TableModel {
                rows: db.tables[lookup_table(db, table)->0].rows.push(
                    inserted_row(db, now, table, names, values),
                ),
                ..db.tables[lookup_table(db, table)->0]
            },
        ),
{
}

proof fn lemma_resolve_targets_shape(cols: Seq<ColumnSpecModel>, names: Seq<Seq<char>>)
    requires
        spec_resolve_targets(cols, names) is Ok,
    ensures
        spec_resolve_targets(cols, names)->Ok_0.len() == names.len(),
        forall|p: int|
            0 <= p < names.len() ==> find_column_from(cols, names[p], 0) == Some(
                #[trigger] spec_resolve_targets(cols, names)->Ok_0[p],
            ),
        forall|p: int, q: int|
            0 <= p < q < names.len() ==> #[trigger] spec_resolve_targets(cols, names)->Ok_0[p]
                != #[trigger] spec_resolve_targets(cols, names)->Ok_0[q],
    decreases names.len(),
{
    if names.len() > 0 {
        let init = names.drop_last();
        lemma_resolve_targets_shape(cols, init);
        let ts0 = spec_resolve_targets(cols, init)->Ok_0;
        let k = find_column_from(cols, names.last(), 0)->0;
        let ts = spec_resolve_targets(cols, names)->Ok_0;
        assert(ts == ts0.push(k));
        assert(!ts0.contains(k));
        assert forall|p: int|
            0 <= p < names.len() implies find_column_from(cols, names[p], 0) == Some(#[trigger] ts[p]) by {
            if p < names.len() - 1 {
                assert(init[p] == names[p]);
            }
        }
        assert forall|p: int, q: int| 0 <= p < q < names.len() implies #[trigger] ts[p] != #[trigger] ts[q] by {
            if q == names.len() - 1 {
                assert(ts0[p] == ts[p]);
                if ts[p] == ts[q] {
                    assert(ts0.contains(k));
                }
            }
        }
    }
}

proof fn lemma_position_of_distinct(ts: Seq<int>, p: int, q: int)
    requires
        0 <= q <= p < ts.len(),
        forall|a: int, b: int| 0 <= a < b < ts.len() ==> #[trigger] ts[a] != #[trigger] ts[b],
    ensures
        position_from(ts, ts[p], q) == Some(p),
    decreases p - q,
{
    if q < p {
        assert(ts[q] != ts[p]);
        lemma_position_of_distinct(ts, p, q + 1);
    }
}

proof fn lemma_insert_cells_shape(
    db: DatabaseModel,
    now: i64,
    t: TableModel,
    ts: Seq<int>,
    values: Seq<LiteralModel>,
    n: nat,
)
    requires
        spec_insert_cells(db, now, t, ts, values, n) is Ok,
    ensures
        spec_insert_cells(db, now, t, ts, values, n)->Ok_0.len() == n,
        forall|j: int|
            0 <= j < n ==> spec_insert_cell(db, now, t, ts, values, j) == Ok::<
                ValueModel,
                DbErrorModel,
            >(#[trigger] spec_insert_cells(db, now, t, ts, values, n)->Ok_0[j]),
    decreases n,
{
    if n > 0 {
        lemma_insert_cells_shape(db, now, t, ts, values, (n - 1) as nat);
    }
}

/// The column of the table that receives the `p`-th value of an `INSERT`:
/// the `p`-th named column, or the `p`-th column without a column list.
pub open spec fn insert_column(db: DatabaseModel, table: ObjectNameModel, names: Seq<Seq<char>>, p: int) -> int {
    if names.len() == 0 {
        p
    } else {
        find_column_from(db.tables[lookup_table(db, table)->0].columns, names[p], 0)->0
    }
}

/// An `INSERT` stores the values it is given. The `p`-th value goes to the
/// column of that name (the `p`-th column without a column list), and the
/// new row holds it there converted to the column's type, whatever the
/// column's default; in particular an explicit `NULL` is stored as `NULL`.
pub proof fn law_insert_stores_given_values(
    db: DatabaseModel,
    now: i64,
    table: ObjectNameModel,
    names: Seq<Seq<char>>,
    values: Seq<LiteralModel>,
    p: int,
)
    requires
        spec_insert(db, now, table, names, values) is Ok,
        0 <= p < values.len(),
    ensures
        lookup_table(db, table) is Some,
        0 <= insert_column(db, table, names, p) < db.tables[lookup_table(db, table)->0].columns.len(),
        names.len() > 0 ==> same_name(
            db.tables[lookup_table(db, table)->0].columns[insert_column(db, table, names, p)].name,
            names[p],
        ),
        spec_convert(
            spec_eval_literal(values[p]).0,
            db.tables[lookup_table(db, table)->0].columns[insert_column(
                db,
                table,
                names,
                p,
            )].data_type,
        ) == Ok::<ValueModel, DbErrorModel>(
            inserted_row(db, now, table, names, values)[insert_column(db, table, names, p)],
        ),
        values[p] is Null ==> inserted_row(db, now, table, names, values)[insert_column(
            db,
            table,
            names,
            p,
        )] is Null,
{
    let ti = lookup_table(db, table)->0;
    let t = db.tables[ti];
    let ts = spec_insert_targets(t, names)->Ok_0;
    let j = insert_column(db, table, names, p);
    if names.len() == 0 {
        assert(ts[p] == p);
        assert forall|a: int, b: int| 0 <= a < b < ts.len() implies #[trigger] ts[a] != #[trigger] ts[b] by {
            assert(ts[a] == a && ts[b] == b);
        }
    } else {
        lemma_resolve_targets_shape(t.columns, names);
        lemma_find_column_from_range(t.columns, names[p], 0);
    }
    assert(ts[p] == j);
    lemma_position_of_distinct(ts, p, 0);
    lemma_insert_cells_shape(db, now, t, ts, values, t.columns.len());
}

} // verus!
