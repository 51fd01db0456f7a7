//! Table sources a `SELECT` may read: the user tables, the table-valued
//! function `fn_my_permissions()`, the security catalog views
//! `sys.server_principals`, `sys.database_principals`,
//! `sys.database_permissions` and `sys.database_role_members`, and the
//! catalog views of the user tables `sys.tables`, `sys.columns` and
//! `sys.indexes`.

use vstd::prelude::*;

use crate::ast::{TableRef, TableRefModel};
use crate::builtins::{
    is_granted, nvarchar, permission_name, server_permissions, spec_apply, Builtin,
};
use crate::database::{
    db_wf, lookup_table, lookup_table_exec, msg3, msg_invalid_object, pk_column, pk_column_from,
    rows_view, table_ok, Database, DatabaseModel, Table, TableModel,
};
use crate::metadata::{
    spec_system_type_id, spec_type_max_length, spec_type_precision, spec_type_scale,
    system_type_id, type_max_length, type_precision_scale,
};
use crate::text::{string_from_chars, word_is, word_matches};
use crate::types::{
    row_view, table_wf, DataType, DbError, DbErrorModel, QueryResult, QueryResultModel, Value,
    ValueModel,
};

verus! {

// ---------------------------------------------------------------------------
// Specification
// ---------------------------------------------------------------------------

pub open spec fn nv(s: Seq<char>) -> ValueModel {
    ValueModel::NVarChar(s)
}

/// `fn_my_permissions()`: one row per server permission the session holds.
pub open spec fn my_permissions_table() -> QueryResultModel {
    QueryResultModel {
        columns: seq!["subentity_name"@, "permission_name"@],
        column_types: seq![DataType::NVarChar { max_len: 128 }, DataType::NVarChar { max_len: 128 }],
        column_nullabilities: seq![false, false],
        rows: Seq::new(21, |k: int| seq![nv(""@), nv(server_permissions()[k])]),
    }
}

/// The columns `name, principal_id, type_desc` shared by the principal views.
pub open spec fn principal_columns() -> Seq<Seq<char>> {
    seq!["name"@, "principal_id"@, "type_desc"@]
}

pub open spec fn principal_types() -> Seq<DataType> {
    seq![DataType::NVarChar { max_len: 128 }, DataType::Int, DataType::NVarChar { max_len: 60 }]
}

pub open spec fn principal_row(name: Seq<char>, id: i32, desc: Seq<char>) -> Seq<ValueModel> {
    seq![nv(name), ValueModel::Int(id), nv(desc)]
}

/// `sys.server_principals`: the login `sa` and the server roles it uses.
pub open spec fn server_principals_table() -> QueryResultModel {
    QueryResultModel {
        columns: principal_columns(),
        column_types: principal_types(),
        column_nullabilities: seq![false, false, false],
        rows: seq![
            principal_row("sa"@, 1, "SQL_LOGIN"@),
            principal_row("public"@, 2, "SERVER_ROLE"@),
            principal_row("sysadmin"@, 3, "SERVER_ROLE"@),
        ],
    }
}

/// `sys.database_principals`: the built-in users and the roles of the database.
pub open spec fn database_principals_table() -> QueryResultModel {
    QueryResultModel {
        columns: principal_columns(),
        column_types: principal_types(),
        column_nullabilities: seq![false, false, false],
        rows: seq![
            principal_row("public"@, 0, "DATABASE_ROLE"@),
            principal_row("dbo"@, 1, "SQL_USER"@),
            principal_row("guest"@, 2, "SQL_USER"@),
            principal_row("INFORMATION_SCHEMA"@, 3, "SQL_USER"@),
            principal_row("sys"@, 4, "SQL_USER"@),
            principal_row("db_owner"@, 16384, "DATABASE_ROLE"@),
        ],
    }
}

/// `sys.database_permissions`: `dbo` is granted `CONNECT` on the database.
pub open spec fn database_permissions_table() -> QueryResultModel {
    QueryResultModel {
        columns: seq!["class_desc"@, "grantee_principal_id"@, "permission_name"@, "state_desc"@],
        column_types: seq![
            DataType::NVarChar { max_len: 60 },
            DataType::Int,
            DataType::NVarChar { max_len: 128 },
            DataType::NVarChar { max_len: 60 },
        ],
        column_nullabilities: seq![false, false, false, false],
        rows: seq![seq![nv("DATABASE"@), ValueModel::Int(1), nv("CONNECT"@), nv("GRANT"@)]],
    }
}

/// `sys.database_role_members`: `dbo` (1) is a member of `db_owner` (16384).
pub open spec fn database_role_members_table() -> QueryResultModel {
    QueryResultModel {
        columns: seq!["role_principal_id"@, "member_principal_id"@],
        column_types: seq![DataType::Int, DataType::Int],
        column_nullabilities: seq![false, false],
        rows: seq![seq![ValueModel::Int(16384), ValueModel::Int(1)]],
    }
}

/// The columns, types, nullabilities and rows of a user table.
pub open spec fn table_result(t: TableModel) -> QueryResultModel {
    QueryResultModel {
        columns: Seq::new(t.columns.len(), |j: int| t.columns[j].name),
        column_types: Seq::new(t.columns.len(), |j: int| t.columns[j].data_type),
        column_nullabilities: Seq::new(t.columns.len(), |j: int| t.columns[j].nullable),
        rows: t.rows,
    }
}

/// The row of `sys.tables` for a table: every user table is an ordinary
/// disk-based table of schema `dbo` (schema id 1), neither memory-optimized,
/// temporal, nor a graph edge or node.
pub open spec fn tables_row(t: TableModel) -> Seq<ValueModel> {
    seq![
        ValueModel::VarChar(t.name),
        ValueModel::Int(t.object_id),
        ValueModel::Int(1),
        ValueModel::Bit(false),
        ValueModel::TinyInt(0),
        ValueModel::Bit(false),
        ValueModel::Bit(false),
    ]
}

/// `sys.tables`: one row per user table, in order of creation.
pub open spec fn sys_tables(db: DatabaseModel) -> QueryResultModel {
    QueryResultModel {
        columns: seq![
            "name"@,
            "object_id"@,
            "schema_id"@,
            "is_memory_optimized"@,
            "temporal_type"@,
            "is_edge"@,
            "is_node"@,
        ],
        column_types: seq![
            DataType::VarChar { max_len: 128 },
            DataType::Int,
            DataType::Int,
            DataType::Bit,
            DataType::TinyInt,
            DataType::Bit,
            DataType::Bit,
        ],
        column_nullabilities: seq![false, false, false, false, false, false, false],
        rows: Seq::new(db.tables.len(), |i: int| tables_row(db.tables[i])),
    }
}

/// The row of `sys.columns` for column `j` of a table; column ids count from 1.
pub open spec fn column_row(t: TableModel, j: int) -> Seq<ValueModel> {
    let c = t.columns[j];
    seq![
        ValueModel::Int(t.object_id),
        ValueModel::VarChar(c.name),
        ValueModel::Int((j + 1) as i32),
        ValueModel::TinyInt(spec_system_type_id(c.data_type)),
        ValueModel::SmallInt(spec_type_max_length(c.data_type) as i16),
        ValueModel::TinyInt(spec_type_precision(c.data_type)),
        ValueModel::TinyInt(spec_type_scale(c.data_type)),
        ValueModel::Bit(c.nullable),
        ValueModel::Bit(false),
        ValueModel::Bit(false),
    ]
}

pub open spec fn table_column_rows(t: TableModel) -> Seq<Seq<ValueModel>> {
    Seq::new(t.columns.len(), |j: int| column_row(t, j))
}

/// The rows of `sys.columns` for a list of tables: table by table, column by column.
pub open spec fn columns_rows(ts: Seq<TableModel>) -> Seq<Seq<ValueModel>>
    decreases ts.len(),
{
    if ts.len() == 0 {
        seq![]
    } else {
        columns_rows(ts.drop_last()) + table_column_rows(ts.last())
    }
}

/// `sys.columns`: one row per column of each user table.
pub open spec fn sys_columns(db: DatabaseModel) -> QueryResultModel {
    QueryResultModel {
        columns: seq![
            "object_id"@,
            "name"@,
            "column_id"@,
            "system_type_id"@,
            "max_length"@,
            "precision"@,
            "scale"@,
            "is_nullable"@,
            "is_identity"@,
            "is_computed"@,
        ],
        column_types: seq![
            DataType::Int,
            DataType::VarChar { max_len: 128 },
            DataType::Int,
            DataType::TinyInt,
            DataType::SmallInt,
            DataType::TinyInt,
            DataType::TinyInt,
            DataType::Bit,
            DataType::Bit,
            DataType::Bit,
        ],
        column_nullabilities: seq![false, false, false, false, false, false, false, false, false, false],
        rows: columns_rows(db.tables),
    }
}

/// The row of `sys.indexes` for a table: its primary key `PK_<name>` (a
/// clustered unique index), or the heap of a table without one.
pub open spec fn index_row(t: TableModel) -> Seq<ValueModel> {
    if pk_column_from(t.columns, 0) is Some {
        seq![
            ValueModel::Int(t.object_id),
            ValueModel::VarChar("PK_"@ + t.name),
            ValueModel::Int(1),
            ValueModel::TinyInt(1),
            ValueModel::Bit(true),
            ValueModel::Bit(true),
        ]
    } else {
        seq![
            ValueModel::Int(t.object_id),
            ValueModel::Null,
            ValueModel::Int(0),
            ValueModel::TinyInt(0),
            ValueModel::Bit(false),
            ValueModel::Bit(false),
        ]
    }
}

/// `sys.indexes`: one row per user table.
pub open spec fn sys_indexes(db: DatabaseModel) -> QueryResultModel {
    QueryResultModel {
        columns: seq![
            "object_id"@,
            "name"@,
            "index_id"@,
            "type"@,
            "is_primary_key"@,
            "is_unique"@,
        ],
        column_types: seq![
            DataType::Int,
            DataType::VarChar { max_len: 128 },
            DataType::Int,
            DataType::TinyInt,
            DataType::Bit,
            DataType::Bit,
        ],
        column_nullabilities: seq![false, true, false, false, false, false],
        rows: Seq::new(db.tables.len(), |i: int| index_row(db.tables[i])),
    }
}

/// The schema name is `sys`.
pub open spec fn is_sys(schema: Option<Seq<char>>) -> bool {
    match schema {
        None => false,
        Some(s) => word_is(s, "SYS"@),
    }
}

/// The rows a table source reads.
pub open spec fn spec_source(db: DatabaseModel, r: TableRefModel) -> Result<QueryResultModel, DbErrorModel> {
    let name = r.object.name;
    if r.call {
        if (r.object.schema is None || is_sys(r.object.schema)) && word_is(name, "FN_MY_PERMISSIONS"@) {
            Ok(my_permissions_table())
        } else {
            Err(DbErrorModel::Execution(msg_invalid_object(name)))
        }
    } else if is_sys(r.object.schema) {
        if word_is(name, "SERVER_PRINCIPALS"@) {
            Ok(server_principals_table())
        } else if word_is(name, "DATABASE_PRINCIPALS"@) {
            Ok(database_principals_table())
        } else if word_is(name, "DATABASE_PERMISSIONS"@) {
            Ok(database_permissions_table())
        } else if word_is(name, "DATABASE_ROLE_MEMBERS"@) {
            Ok(database_role_members_table())
        } else if word_is(name, "TABLES"@) {
            Ok(sys_tables(db))
        } else if word_is(name, "COLUMNS"@) {
            Ok(sys_columns(db))
        } else if word_is(name, "INDEXES"@) {
            Ok(sys_indexes(db))
        } else {
            Err(DbErrorModel::Execution(msg_invalid_object(name)))
        }
    } else {
        match lookup_table(db, r.object) {
            Some(ti) => Ok(table_result(db.tables[ti])),
            None => Err(DbErrorModel::Execution(msg_invalid_object(name))),
        }
    }
}

// ---------------------------------------------------------------------------
// Implementation
// ---------------------------------------------------------------------------

fn my_permissions() -> (t: QueryResult)
    ensures
        t@ == my_permissions_table(),
{
    let mut rows: Vec<Vec<Value>> = Vec::new();
    let mut k: usize = 0;
    while k < 21
        invariant
            k <= 21,
            rows@.len() == k,
            forall|j: int|
                0 <= j < k ==> row_view(#[trigger] rows@[j]) == seq![
                    nv(""@),
                    nv(server_permissions()[j]),
                ],
        decreases 21 - k,
    {
        let row = vec![nvarchar(""), nvarchar(permission_name(k))];
        assert(row_view(row) =~= seq![nv(""@), nv(server_permissions()[k as int])]);
        rows.push(row);
        k = k + 1;
    }
    let t = QueryResult {
        columns: vec![String::from_str("subentity_name"), String::from_str("permission_name")],
        column_types: vec![DataType::NVarChar { max_len: 128 }, DataType::NVarChar { max_len: 128 }],
        column_nullabilities: vec![false, false],
        rows,
    };
    assert(t@.columns =~= my_permissions_table().columns);
    assert(t@.column_types =~= my_permissions_table().column_types);
    assert(t@.column_nullabilities =~= my_permissions_table().column_nullabilities);
    assert(t@.rows =~= my_permissions_table().rows);
    t
}

fn principal_row_exec(name: &str, id: i32, desc: &str) -> (r: Vec<Value>)
    ensures
        row_view(r) == principal_row(name@, id, desc@),
{
    let r = vec![nvarchar(name), Value::Int(id), nvarchar(desc)];
    assert(row_view(r) =~= principal_row(name@, id, desc@));
    r
}

fn principal_table(rows: Vec<Vec<Value>>) -> (t: QueryResult)
    ensures
        t@.columns == principal_columns(),
        t@.column_types == principal_types(),
        t@.column_nullabilities == seq![false, false, false],
        t@.rows == rows@.map_values(|r: Vec<Value>| row_view(r)),
{
    let t = QueryResult {
        columns: vec![
            String::from_str("name"),
            String::from_str("principal_id"),
            String::from_str("type_desc"),
        ],
        column_types: vec![
            DataType::NVarChar { max_len: 128 },
            DataType::Int,
            DataType::NVarChar { max_len: 60 },
        ],
        column_nullabilities: vec![false, false, false],
        rows,
    };
    assert(t@.columns =~= principal_columns());
    assert(t@.column_types =~= principal_types());
    assert(t@.column_nullabilities =~= seq![false, false, false]);
    t
}

fn server_principals() -> (t: QueryResult)
    ensures
        t@ == server_principals_table(),
{
    let rows = vec![
        principal_row_exec("sa", 1, "SQL_LOGIN"),
        principal_row_exec("public", 2, "SERVER_ROLE"),
        principal_row_exec("sysadmin", 3, "SERVER_ROLE"),
    ];
    let t = principal_table(rows);
    assert(t@.rows =~= server_principals_table().rows);
    t
}

fn database_principals() -> (t: QueryResult)
    ensures
        t@ == database_principals_table(),
{
    let rows = vec![
        principal_row_exec("public", 0, "DATABASE_ROLE"),
        principal_row_exec("dbo", 1, "SQL_USER"),
        principal_row_exec("guest", 2, "SQL_USER"),
        principal_row_exec("INFORMATION_SCHEMA", 3, "SQL_USER"),
        principal_row_exec("sys", 4, "SQL_USER"),
        principal_row_exec("db_owner", 16384, "DATABASE_ROLE"),
    ];
    let t = principal_table(rows);
    assert(t@.rows =~= database_principals_table().rows);
    t
}

fn database_permissions() -> (t: QueryResult)
    ensures
        t@ == database_permissions_table(),
{
    let row = vec![nvarchar("DATABASE"), Value::Int(1), nvarchar("CONNECT"), nvarchar("GRANT")];
    assert(row_view(row) =~= seq![nv("DATABASE"@), ValueModel::Int(1), nv("CONNECT"@), nv("GRANT"@)]);
    let t = QueryResult {
        columns: vec![
            String::from_str("class_desc"),
            String::from_str("grantee_principal_id"),
            String::from_str("permission_name"),
            String::from_str("state_desc"),
        ],
        column_types: vec![
            DataType::NVarChar { max_len: 60 },
            DataType::Int,
            DataType::NVarChar { max_len: 128 },
            DataType::NVarChar { max_len: 60 },
        ],
        column_nullabilities: vec![false, false, false, false],
        rows: vec![row],
    };
    assert(t@.columns =~= database_permissions_table().columns);
    assert(t@.column_types =~= database_permissions_table().column_types);
    assert(t@.column_nullabilities =~= database_permissions_table().column_nullabilities);
    assert(t@.rows =~= database_permissions_table().rows);
    t
}

fn database_role_members() -> (t: QueryResult)
    ensures
        t@ == database_role_members_table(),
{
    let row = vec![Value::Int(16384), Value::Int(1)];
    assert(row_view(row) =~= seq![ValueModel::Int(16384), ValueModel::Int(1)]);
    let t = QueryResult {
        columns: vec![String::from_str("role_principal_id"), String::from_str("member_principal_id")],
        column_types: vec![DataType::Int, DataType::Int],
        column_nullabilities: vec![false, false],
        rows: vec![row],
    };
    assert(t@.columns =~= database_role_members_table().columns);
    assert(t@.column_types =~= database_role_members_table().column_types);
    assert(t@.column_nullabilities =~= database_role_members_table().column_nullabilities);
    assert(t@.rows =~= database_role_members_table().rows);
    t
}

fn is_sys_exec(schema: &Option<Vec<char>>) -> (b: bool)
    ensures
        b == is_sys(crate::ast::opt_chars_view(*schema)),
{
    match schema {
        None => false,
        Some(s) => word_matches(s, "SYS"),
    }
}

fn table_result_exec(t: &Table) -> (r: QueryResult)
    requires
        table_ok(t@),
    ensures
        r@ == table_result(t@),
        table_wf(r@),
{
    let mut columns: Vec<String> = Vec::new();
    let mut types: Vec<DataType> = Vec::new();
    let mut nulls: Vec<bool> = Vec::new();
    let mut j: usize = 0;
    while j < t.columns.len()
        invariant
            j <= t.columns@.len(),
            columns@.len() == j,
            types@.len() == j,
            nulls@.len() == j,
            forall|i: int| 0 <= i < j ==> (#[trigger] columns@[i])@ == t.columns@[i].name@,
            forall|i: int| 0 <= i < j ==> #[trigger] types@[i] == t.columns@[i].data_type,
            forall|i: int| 0 <= i < j ==> #[trigger] nulls@[i] == t.columns@[i].nullable,
        decreases t.columns@.len() - j,
    {
        columns.push(string_from_chars(t.columns[j].name.as_slice()));
        types.push(t.columns[j].data_type);
        nulls.push(t.columns[j].nullable);
        j = j + 1;
    }
    let r = QueryResult {
        columns,
        column_types: types,
        column_nullabilities: nulls,
        rows: crate::database::copy_rows(&t.rows),
    };
    assert(r@.columns =~= table_result(t@).columns);
    assert(r@.column_types =~= table_result(t@).column_types);
    assert(r@.column_nullabilities =~= table_result(t@).column_nullabilities);
    assert(r@.rows =~= table_result(t@).rows);
    r
}

fn varchar_of(name: &Vec<char>) -> (v: Value)
    ensures
        v@ == ValueModel::VarChar(name@),
{
    Value::VarChar(string_from_chars(name.as_slice()))
}

fn strings(names: &[&str]) -> (r: Vec<String>)
    ensures
        r@.len() == names@.len(),
        forall|i: int| 0 <= i < names@.len() ==> (#[trigger] r@[i])@ == names@[i]@,
{
    let mut r: Vec<String> = Vec::new();
    let mut k: usize = 0;
    while k < names.len()
        invariant
            k <= names@.len(),
            r@.len() == k,
            forall|i: int| 0 <= i < k ==> (#[trigger] r@[i])@ == names@[i]@,
        decreases names@.len() - k,
    {
        r.push(String::from_str(names[k]));
        k = k + 1;
    }
    r
}

fn sys_tables_exec(db: &Database) -> (r: QueryResult)
    ensures
        r@ == sys_tables(db@),
        table_wf(r@),
{
    let mut rows: Vec<Vec<Value>> = Vec::new();
    let mut i: usize = 0;
    while i < db.tables.len()
        invariant
            i <= db@.tables.len(),
            rows@.len() == i,
            forall|j: int| 0 <= j < i ==> row_view(#[trigger] rows@[j]) == tables_row(db@.tables[j]),
        decreases db@.tables.len() - i,
    {
        let t = &db.tables[i];
        let row = vec![
            varchar_of(&t.name),
            Value::Int(t.object_id),
            Value::Int(1),
            Value::Bit(false),
            Value::TinyInt(0),
            Value::Bit(false),
            Value::Bit(false),
        ];
        assert(db@.tables[i as int] == t@);
        assert(row_view(row) =~= tables_row(t@));
        rows.push(row);
        i = i + 1;
    }
    let names = [
        "name",
        "object_id",
        "schema_id",
        "is_memory_optimized",
        "temporal_type",
        "is_edge",
        "is_node",
    ];
    let r = QueryResult {
        columns: strings(&names),
        column_types: vec![
            DataType::VarChar { max_len: 128 },
            DataType::Int,
            DataType::Int,
            DataType::Bit,
            DataType::TinyInt,
            DataType::Bit,
            DataType::Bit,
        ],
        column_nullabilities: vec![false, false, false, false, false, false, false],
        rows,
    };
    let ghost spec = sys_tables(db@);
    assert(r@.columns =~= spec.columns);
    assert(r@.column_types =~= spec.column_types);
    assert(r@.column_nullabilities =~= spec.column_nullabilities);
    assert(r@.rows =~= spec.rows);
    r
}

fn column_row_exec(t: &Table, j: usize) -> (row: Vec<Value>)
    requires
        j < t.columns@.len() <= crate::database::MAX_COLUMNS,
    ensures
        row_view(row) == column_row(t@, j as int),
{
    let c = &t.columns[j];
    let dt = &c.data_type;
    let (precision, scale) = type_precision_scale(dt);
    let row = vec![
        Value::Int(t.object_id),
        varchar_of(&c.name),
        Value::Int((j + 1) as i32),
        Value::TinyInt(system_type_id(dt)),
        Value::SmallInt(type_max_length(dt) as i16),
        Value::TinyInt(precision),
        Value::TinyInt(scale),
        Value::Bit(c.nullable),
        Value::Bit(false),
        Value::Bit(false),
    ];
    assert(t@.columns[j as int] == c@);
    assert(row_view(row) =~= column_row(t@, j as int));
    row
}

fn sys_columns_exec(db: &Database) -> (r: QueryResult)
    requires
        db_wf(db@),
    ensures
        r@ == sys_columns(db@),
        table_wf(r@),
{
    let ghost tv = db@.tables;
    let mut rows: Vec<Vec<Value>> = Vec::new();
    let mut i: usize = 0;
    assert(tv.take(0) =~= Seq::<TableModel>::empty());
    assert(rows_view(rows@) =~= Seq::<Seq<ValueModel>>::empty());
    while i < db.tables.len()
        invariant
            i <= db@.tables.len(),
            tv == db@.tables,
            db_wf(db@),
            rows_view(rows@) == columns_rows(tv.take(i as int)),
            forall|x: int| 0 <= x < rows@.len() ==> (#[trigger] rows@[x])@.len() == 10,
        decreases db@.tables.len() - i,
    {
        let t = &db.tables[i];
        assert(tv[i as int] == t@);
        assert(table_ok(tv[i as int]));
        let ghost base = rows_view(rows@);
        let mut j: usize = 0;
        while j < t.columns.len()
            invariant
                j <= t.columns@.len() <= crate::database::MAX_COLUMNS,
                rows_view(rows@) == base + table_column_rows(t@).take(j as int),
                forall|x: int| 0 <= x < rows@.len() ==> (#[trigger] rows@[x])@.len() == 10,
            decreases t.columns@.len() - j,
        {
            let row = column_row_exec(t, j);
            assert(row@.len() == row_view(row).len());
            let ghost before = rows_view(rows@);
            let ghost rv = row_view(row);
            rows.push(row);
            assert(rows_view(rows@) =~= before.push(rv));
            assert(table_column_rows(t@).take(j + 1) =~= table_column_rows(t@).take(j as int).push(rv));
            assert(rows_view(rows@) =~= base + table_column_rows(t@).take(j + 1));
            j = j + 1;
        }
        assert(table_column_rows(t@).take(t.columns@.len() as int) =~= table_column_rows(t@));
        assert(tv.take(i + 1).drop_last() =~= tv.take(i as int));
        assert(tv.take(i + 1).last() == t@);
        i = i + 1;
    }
    assert(tv.take(db@.tables.len() as int) =~= tv);
    let names = [
        "object_id",
        "name",
        "column_id",
        "system_type_id",
        "max_length",
        "precision",
        "scale",
        "is_nullable",
        "is_identity",
        "is_computed",
    ];
    let r = QueryResult {
        columns: strings(&names),
        column_types: vec![
            DataType::Int,
            DataType::VarChar { max_len: 128 },
            DataType::Int,
            DataType::TinyInt,
            DataType::SmallInt,
            DataType::TinyInt,
            DataType::TinyInt,
            DataType::Bit,
            DataType::Bit,
            DataType::Bit,
        ],
        column_nullabilities: vec![false, false, false, false, false, false, false, false, false, false],
        rows,
    };
    let ghost spec = sys_columns(db@);
    assert(r@.columns =~= spec.columns);
    assert(r@.column_types =~= spec.column_types);
    assert(r@.column_nullabilities =~= spec.column_nullabilities);
    assert(r@.rows =~= spec.rows);
    r
}

fn sys_indexes_exec(db: &Database) -> (r: QueryResult)
    ensures
        r@ == sys_indexes(db@),
        table_wf(r@),
{
    let mut rows: Vec<Vec<Value>> = Vec::new();
    let mut i: usize = 0;
    while i < db.tables.len()
        invariant
            i <= db@.tables.len(),
            rows@.len() == i,
            forall|j: int| 0 <= j < i ==> row_view(#[trigger] rows@[j]) == index_row(db@.tables[j]),
        decreases db@.tables.len() - i,
    {
        let t = &db.tables[i];
        assert(db@.tables[i as int] == t@);
        let row = if pk_column(&t.columns).is_some() {
            let name = msg3("PK_", &t.name, "");
            vec![
                Value::Int(t.object_id),
                Value::VarChar(name),
                Value::Int(1),
                Value::TinyInt(1),
                Value::Bit(true),
                Value::Bit(true),
            ]
        } else {
            vec![
                Value::Int(t.object_id),
                Value::Null,
                Value::Int(0),
                Value::TinyInt(0),
                Value::Bit(false),
                Value::Bit(false),
            ]
        };
        proof {
            reveal_strlit("");
        }
        assert(row_view(row) =~= index_row(t@));
        rows.push(row);
        i = i + 1;
    }
    let names = ["object_id", "name", "index_id", "type", "is_primary_key", "is_unique"];
    let r = QueryResult {
        columns: strings(&names),
        column_types: vec![
            DataType::Int,
            DataType::VarChar { max_len: 128 },
            DataType::Int,
            DataType::TinyInt,
            DataType::Bit,
            DataType::Bit,
        ],
        column_nullabilities: vec![false, true, false, false, false, false],
        rows,
    };
    let ghost spec = sys_indexes(db@);
    assert(r@.columns =~= spec.columns);
    assert(r@.column_types =~= spec.column_types);
    assert(r@.column_nullabilities =~= spec.column_nullabilities);
    assert(r@.rows =~= spec.rows);
    r
}

/// The rows a table source reads.
pub fn read_source(db: &Database, r: &TableRef) -> (res: Result<QueryResult, DbError>)
    requires
        db_wf(db@),
    ensures
        match res {
            Ok(t) => spec_source(db@, r@) == Ok::<QueryResultModel, DbErrorModel>(t@) && table_wf(t@),
            Err(e) => spec_source(db@, r@) == Err::<QueryResultModel, DbErrorModel>(e@),
        },
{
    let name = &r.object.name;
    let invalid = || -> (e: DbError)
        ensures
            e@ == DbErrorModel::Execution(msg_invalid_object(name@)),
        { DbError::Execution(msg3("Invalid object name '", name, "'.")) };
    if r.call {
        if (r.object.schema.is_none() || is_sys_exec(&r.object.schema)) && word_matches(
            name,
            "FN_MY_PERMISSIONS",
        ) {
            Ok(my_permissions())
        } else {
            Err(invalid())
        }
    } else if is_sys_exec(&r.object.schema) {
        if word_matches(name, "SERVER_PRINCIPALS") {
            Ok(server_principals())
        } else if word_matches(name, "DATABASE_PRINCIPALS") {
            Ok(database_principals())
        } else if word_matches(name, "DATABASE_PERMISSIONS") {
            Ok(database_permissions())
        } else if word_matches(name, "DATABASE_ROLE_MEMBERS") {
            Ok(database_role_members())
        } else if word_matches(name, "TABLES") {
            Ok(sys_tables_exec(db))
        } else if word_matches(name, "COLUMNS") {
            Ok(sys_columns_exec(db))
        } else if word_matches(name, "INDEXES") {
            Ok(sys_indexes_exec(db))
        } else {
            Err(invalid())
        }
    } else {
        match lookup_table_exec(db, &r.object) {
            Some(ti) => {
                assert(db@.tables[ti as int] == db.tables@[ti as int]@);
                assert(table_ok(db@.tables[ti as int]));
                Ok(table_result_exec(&db.tables[ti]))
            },
            None => Err(invalid()),
        }
    }
}

// ---------------------------------------------------------------------------
// Laws
// ---------------------------------------------------------------------------

/// `HAS_PERMS_BY_NAME(NULL, NULL, p)` answers 1 exactly when `p` names
/// (in any case) a permission that `fn_my_permissions()` lists, and 0
/// otherwise.
pub proof fn law_has_perms_agrees_with_my_permissions(p: Seq<char>, db: DatabaseModel, now: i64)
    ensures
        spec_apply(
            Builtin::HasPermsByName,
            seq![ValueModel::Null, ValueModel::Null, ValueModel::VarChar(p)],
            db,
            now,
        ) == if exists|r: int|
            0 <= r < my_permissions_table().rows.len() && word_is(
                p,
                (#[trigger] my_permissions_table().rows[r])[1]->NVarChar_0,
            ) {
            ValueModel::Int(1)
        } else {
            ValueModel::Int(0)
        },
{
    let rows = my_permissions_table().rows;
    if is_granted(p) {
        let k = choose|k: int| 0 <= k < server_permissions().len() && word_is(p, #[trigger] server_permissions()[k]);
        assert(rows[k][1]->NVarChar_0 == server_permissions()[k]);
    }
    if exists|r: int| 0 <= r < rows.len() && word_is(p, (#[trigger] rows[r])[1]->NVarChar_0) {
        let r = choose|r: int| 0 <= r < rows.len() && word_is(p, (#[trigger] rows[r])[1]->NVarChar_0);
        assert(rows[r][1]->NVarChar_0 == server_permissions()[r]);
        assert(word_is(p, server_permissions()[r]));
    }
}

/// Every user table is editable: `sys.tables` reports each one as neither
/// memory-optimized, temporal, nor a graph edge or node.
pub proof fn law_every_table_editable(db: DatabaseModel, i: int)
    requires
        0 <= i < db.tables.len(),
    ensures
        sys_tables(db).rows[i][3] == ValueModel::Bit(false),
        sys_tables(db).rows[i][4] == ValueModel::TinyInt(0),
        sys_tables(db).rows[i][5] == ValueModel::Bit(false),
        sys_tables(db).rows[i][6] == ValueModel::Bit(false),
{
}

/// `sys.indexes` reports a primary key index exactly for the tables that
/// have a primary key, and every primary key index is unique: in each row,
/// `is_primary_key` set implies `is_unique` set.
pub proof fn law_primary_key_index_is_unique(db: DatabaseModel, i: int)
    requires
        0 <= i < sys_indexes(db).rows.len(),
    ensures
        sys_indexes(db).columns[4] == "is_primary_key"@,
        sys_indexes(db).columns[5] == "is_unique"@,
        sys_indexes(db).rows[i][4] == ValueModel::Bit(true) ==> sys_indexes(db).rows[i][5]
            == ValueModel::Bit(true),
        sys_indexes(db).rows[i][4] == ValueModel::Bit(pk_column_from(db.tables[i].columns, 0) is Some),
        sys_indexes(db).rows[i][0] == ValueModel::Int(db.tables[i].object_id),
{
}

} // verus!
