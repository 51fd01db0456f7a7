//! Built-in scalar functions: the capability probes that client tools send
//! when they connect (`SERVERPROPERTY`, `HAS_PERMS_BY_NAME`,
//! `IS_SRVROLEMEMBER`, `IS_MEMBER`, `HAS_DBACCESS`), the catalog functions
//! `OBJECT_ID`, `OBJECT_NAME` and `SCHEMA_NAME`, and `GETDATE`; and the values
//! of literals. The session runs as `sa`, a member of `sysadmin` and of
//! `db_owner`, holding every server permission.

use vstd::prelude::*;

use crate::ast::{Literal, LiteralModel};
use crate::database::{
    db_wf, find_table, find_table_by_id, find_table_by_id_from, find_table_from, Database,
    DatabaseModel, TableModel,
};
use crate::metadata::default_collation;
use crate::text::{same_name, string_chars, string_from_chars, word_is, word_matches};
use crate::types::{DataType, DbError, DbErrorModel, Value, ValueModel, MAX_LEN};
use crate::values::{int_value, text_value, value_int, value_text};

verus! {

// ---------------------------------------------------------------------------
// Specification
// ---------------------------------------------------------------------------

/// The text of a string literal (`'..'` or `N'..'`).
pub open spec fn text_of(l: LiteralModel) -> Option<Seq<char>> {
    match l {
        LiteralModel::Str(s) => Some(s),
        LiteralModel::NStr(s) => Some(s),
        _ => None,
    }
}

/// The declared length of a string literal of `n` characters: at least 1,
/// `(max)` beyond `limit`.
pub open spec fn literal_len(n: nat, limit: nat) -> u16 {
    if n == 0 {
        1
    } else if n <= limit {
        n as u16
    } else {
        MAX_LEN
    }
}

/// The value and type of a literal.
pub open spec fn spec_eval_literal(l: LiteralModel) -> (ValueModel, DataType) {
    match l {
        LiteralModel::Null => (ValueModel::Null, DataType::Int),
        LiteralModel::Int(n) => if i32::MIN <= n <= i32::MAX {
            (ValueModel::Int(n as i32), DataType::Int)
        } else {
            (ValueModel::BigInt(n), DataType::BigInt)
        },
        LiteralModel::Str(s) => (
            ValueModel::VarChar(s),
            DataType::VarChar { max_len: literal_len(s.len(), 8000) },
        ),
        LiteralModel::NStr(s) => (
            ValueModel::NVarChar(s),
            DataType::NVarChar { max_len: literal_len(s.len(), 4000) },
        ),
    }
}

/// `SERVERPROPERTY(name)`: the server reports itself as a Developer edition
/// (engine edition 3) of version 17.0; unknown properties are `NULL`.
pub open spec fn spec_server_property(name: Seq<char>) -> ValueModel {
    if word_is(name, "EDITION"@) {
        ValueModel::NVarChar("Developer Edition (64-bit)"@)
    } else if word_is(name, "ENGINEEDITION"@) {
        ValueModel::Int(3)
    } else if word_is(name, "PRODUCTVERSION"@) {
        ValueModel::NVarChar("17.0.1000.7"@)
    } else if word_is(name, "PRODUCTLEVEL"@) {
        ValueModel::NVarChar("RTM"@)
    } else if word_is(name, "PRODUCTMAJORVERSION"@) {
        ValueModel::NVarChar("17"@)
    } else if word_is(name, "PRODUCTMINORVERSION"@) {
        ValueModel::NVarChar("0"@)
    } else if word_is(name, "COLLATION"@) {
        ValueModel::NVarChar(default_collation())
    } else if word_is(name, "ISCLUSTERED"@) || word_is(name, "ISFULLTEXTINSTALLED"@) || word_is(
        name,
        "ISHADRENABLED"@,
    ) || word_is(name, "ISINTEGRATEDSECURITYONLY"@) || word_is(name, "ISSINGLEUSER"@) {
        ValueModel::Int(0)
    } else {
        ValueModel::Null
    }
}

/// The server permissions the session holds, as `fn_my_permissions` lists them.
pub open spec fn server_permissions() -> Seq<Seq<char>> {
    seq![
        "CONNECT SQL"@,
        "SHUTDOWN"@,
        "CREATE ENDPOINT"@,
        "CREATE ANY DATABASE"@,
        "ALTER ANY LOGIN"@,
        "ALTER ANY CREDENTIAL"@,
        "ALTER ANY ENDPOINT"@,
        "ALTER ANY LINKED SERVER"@,
        "ALTER ANY CONNECTION"@,
        "ALTER ANY DATABASE"@,
        "ALTER RESOURCES"@,
        "ALTER SETTINGS"@,
        "ALTER TRACE"@,
        "ADMINISTER BULK OPERATIONS"@,
        "AUTHENTICATE SERVER"@,
        "EXTERNAL ACCESS ASSEMBLY"@,
        "VIEW ANY DATABASE"@,
        "VIEW ANY DEFINITION"@,
        "VIEW SERVER STATE"@,
        "CONTROL SERVER"@,
        "ALTER SERVER STATE"@,
    ]
}

/// The session holds permission `p` (named in any case).
pub open spec fn is_granted(p: Seq<char>) -> bool {
    exists|k: int| 0 <= k < server_permissions().len() && word_is(p, #[trigger] server_permissions()[k])
}

/// `IS_SRVROLEMEMBER(role)`: 1 for `sysadmin` and `public`, 0 for the other
/// fixed server roles, `NULL` for anything else.
pub open spec fn spec_is_srvrolemember(role: Seq<char>) -> ValueModel {
    if word_is(role, "SYSADMIN"@) || word_is(role, "PUBLIC"@) {
        ValueModel::Int(1)
    } else if word_is(role, "SERVERADMIN"@) || word_is(role, "SECURITYADMIN"@) || word_is(
        role,
        "PROCESSADMIN"@,
    ) || word_is(role, "SETUPADMIN"@) || word_is(role, "BULKADMIN"@) || word_is(
        role,
        "DISKADMIN"@,
    ) || word_is(role, "DBCREATOR"@) {
        ValueModel::Int(0)
    } else {
        ValueModel::Null
    }
}

/// `IS_MEMBER(role)`: 1 for `db_owner` and `public`, 0 for the other fixed
/// database roles, `NULL` for anything else.
pub open spec fn spec_is_member(role: Seq<char>) -> ValueModel {
    if word_is(role, "DB_OWNER"@) || word_is(role, "PUBLIC"@) {
        ValueModel::Int(1)
    } else if word_is(role, "DB_ACCESSADMIN"@) || word_is(role, "DB_SECURITYADMIN"@) || word_is(
        role,
        "DB_DDLADMIN"@,
    ) || word_is(role, "DB_BACKUPOPERATOR"@) || word_is(role, "DB_DATAREADER"@) || word_is(
        role,
        "DB_DATAWRITER"@,
    ) || word_is(role, "DB_DENYDATAREADER"@) || word_is(role, "DB_DENYDATAWRITER"@) {
        ValueModel::Int(0)
    } else {
        ValueModel::Null
    }
}

/// `HAS_DBACCESS(db)`: 1 for the system databases, `NULL` for unknown names.
pub open spec fn spec_has_dbaccess(db: Seq<char>) -> ValueModel {
    if word_is(db, "MASTER"@) || word_is(db, "TEMPDB"@) || word_is(db, "MODEL"@) || word_is(
        db,
        "MSDB"@,
    ) {
        ValueModel::Int(1)
    } else {
        ValueModel::Null
    }
}

/// The built-in scalar functions.
#[derive(Clone, Copy, Debug, PartialEq, Eq, Structural)]
pub enum Builtin {
    ServerProperty,
    HasPermsByName,
    IsSrvRoleMember,
    IsMember,
    HasDbAccess,
    ObjectId,
    ObjectName,
    SchemaName,
    GetDate,
}

/// The built-in function a name calls (in any case).
pub open spec fn spec_builtin(f: Seq<char>) -> Option<Builtin> {
    if word_is(f, "SERVERPROPERTY"@) {
        Some(Builtin::ServerProperty)
    } else if word_is(f, "HAS_PERMS_BY_NAME"@) {
        Some(Builtin::HasPermsByName)
    } else if word_is(f, "IS_SRVROLEMEMBER"@) {
        Some(Builtin::IsSrvRoleMember)
    } else if word_is(f, "IS_MEMBER"@) {
        Some(Builtin::IsMember)
    } else if word_is(f, "HAS_DBACCESS"@) {
        Some(Builtin::HasDbAccess)
    } else if word_is(f, "OBJECT_ID"@) {
        Some(Builtin::ObjectId)
    } else if word_is(f, "OBJECT_NAME"@) {
        Some(Builtin::ObjectName)
    } else if word_is(f, "SCHEMA_NAME"@) {
        Some(Builtin::SchemaName)
    } else if word_is(f, "GETDATE"@) {
        Some(Builtin::GetDate)
    } else {
        None
    }
}

/// The numbers of arguments a built-in takes.
pub open spec fn arity_ok(b: Builtin, n: nat) -> bool {
    match b {
        Builtin::ServerProperty => n == 1,
        Builtin::HasPermsByName => 3 <= n <= 5,
        Builtin::IsSrvRoleMember => 1 <= n <= 2,
        Builtin::IsMember => n == 1,
        Builtin::HasDbAccess => n == 1,
        Builtin::ObjectId => 1 <= n <= 2,
        Builtin::ObjectName => 1 <= n <= 2,
        Builtin::SchemaName => n <= 1,
        Builtin::GetDate => n == 0,
    }
}

/// The type of a built-in's result.
pub open spec fn builtin_type(b: Builtin) -> DataType {
    match b {
        Builtin::ServerProperty => DataType::SqlVariant,
        Builtin::ObjectName => DataType::NVarChar { max_len: 128 },
        Builtin::SchemaName => DataType::NVarChar { max_len: 128 },
        Builtin::GetDate => DataType::DateTime,
        _ => DataType::Int,
    }
}

pub open spec fn msg_arg_count(f: Seq<char>) -> Seq<char> {
    "The "@ + f + " function was given a wrong number of arguments."@
}

pub open spec fn msg_unknown_function(f: Seq<char>) -> Seq<char> {
    "'"@ + f + "' is not a recognized built-in function name."@
}

/// The built-in a call of `f` with `n` arguments runs, or why there is none.
pub open spec fn spec_resolve_call(f: Seq<char>, n: nat) -> Result<Builtin, DbErrorModel> {
    match spec_builtin(f) {
        None => Err(DbErrorModel::Execution(msg_unknown_function(f))),
        Some(b) => if arity_ok(b, n) {
            Ok(b)
        } else {
            Err(DbErrorModel::Execution(msg_arg_count(f)))
        },
    }
}

/// Applies `v` to the text argument `k`; `NULL` when it is missing or holds
/// no text.
pub open spec fn on_text(args: Seq<ValueModel>, k: int, v: spec_fn(Seq<char>) -> ValueModel) -> ValueModel {
    if 0 <= k < args.len() && text_value(args[k]) is Some {
        v(text_value(args[k])->0)
    } else {
        ValueModel::Null
    }
}

/// The first `.` at or after `k`.
pub open spec fn dot_index_from(s: Seq<char>, k: int) -> Option<int>
    decreases s.len() - k,
{
    if k < 0 || k >= s.len() {
        None
    } else if s[k] == '.' {
        Some(k)
    } else {
        dot_index_from(s, k + 1)
    }
}

/// The object id of the table a name `[schema.]name` denotes.
pub open spec fn spec_object_id(db: DatabaseModel, s: Seq<char>) -> ValueModel {
    let (schema_ok, name) = match dot_index_from(s, 0) {
        None => (true, s),
        Some(d) => (word_is(s.subrange(0, d), "DBO"@), s.subrange(d + 1, s.len() as int)),
    };
    if !schema_ok {
        ValueModel::Null
    } else {
        match find_table_from(db.tables, name, 0) {
            Some(i) => ValueModel::Int(db.tables[i].object_id),
            None => ValueModel::Null,
        }
    }
}

/// The name of the table with object id `id`.
pub open spec fn spec_object_name(db: DatabaseModel, id: int) -> ValueModel {
    match find_table_by_id_from(db.tables, id, 0) {
        Some(i) => ValueModel::NVarChar(db.tables[i].name),
        None => ValueModel::Null,
    }
}

/// The name of the schema with id `id`.
pub open spec fn spec_schema_name(id: int) -> ValueModel {
    if id == 1 {
        ValueModel::NVarChar("dbo"@)
    } else if id == 2 {
        ValueModel::NVarChar("guest"@)
    } else if id == 3 {
        ValueModel::NVarChar("INFORMATION_SCHEMA"@)
    } else if id == 4 {
        ValueModel::NVarChar("sys"@)
    } else {
        ValueModel::Null
    }
}

/// The value of a built-in on argument values, over the database, at the
/// instant `now` (milliseconds since 1970).
pub open spec fn spec_apply(b: Builtin, args: Seq<ValueModel>, db: DatabaseModel, now: i64) -> ValueModel {
    match b {
        Builtin::ServerProperty => on_text(args, 0, |s| spec_server_property(s)),
        Builtin::HasPermsByName => on_text(
            args,
            2,
            |s|
                if is_granted(s) {
                    ValueModel::Int(1)
                } else {
                    ValueModel::Int(0)
                },
        ),
        Builtin::IsSrvRoleMember => on_text(args, 0, |s| spec_is_srvrolemember(s)),
        Builtin::IsMember => on_text(args, 0, |s| spec_is_member(s)),
        Builtin::HasDbAccess => on_text(args, 0, |s| spec_has_dbaccess(s)),
        Builtin::ObjectId => on_text(args, 0, |s| spec_object_id(db, s)),
        Builtin::ObjectName => if args.len() > 0 && int_value(args[0]) is Some {
            spec_object_name(db, int_value(args[0])->0)
        } else {
            ValueModel::Null
        },
        Builtin::SchemaName => if args.len() == 0 {
            ValueModel::NVarChar("dbo"@)
        } else if int_value(args[0]) is Some {
            spec_schema_name(int_value(args[0])->0)
        } else {
            ValueModel::Null
        },
        Builtin::GetDate => ValueModel::DateTime(now),
    }
}

// ---------------------------------------------------------------------------
// Implementation
// ---------------------------------------------------------------------------

pub(crate) fn nvarchar(s: &str) -> (v: Value)
    ensures
        v@ == ValueModel::NVarChar(s@),
{
    Value::NVarChar(String::from_str(s))
}

fn literal_len_exec(n: usize, limit: usize) -> (r: u16)
    requires
        limit <= 8000,
    ensures
        r == literal_len(n as nat, limit as nat),
{
    if n == 0 {
        1
    } else if n <= limit {
        n as u16
    } else {
        MAX_LEN
    }
}

/// The value and type of a literal.
pub fn eval_literal(l: &Literal) -> (r: (Value, DataType))
    ensures
        (r.0@, r.1) == spec_eval_literal(l@),
{
    match l {
        Literal::Null => (Value::Null, DataType::Int),
        Literal::Int(n) => {
            if -2147483648 <= *n && *n <= 2147483647 {
                (Value::Int(*n as i32), DataType::Int)
            } else {
                (Value::BigInt(*n), DataType::BigInt)
            }
        },
        Literal::Str(s) => (
            Value::VarChar(string_from_chars(s.as_slice())),
            DataType::VarChar { max_len: literal_len_exec(s.len(), 8000) },
        ),
        Literal::NStr(s) => (
            Value::NVarChar(string_from_chars(s.as_slice())),
            DataType::NVarChar { max_len: literal_len_exec(s.len(), 4000) },
        ),
    }
}

/// `SERVERPROPERTY(name)`.
pub fn server_property(name: &Vec<char>) -> (v: Value)
    ensures
        v@ == spec_server_property(name@),
{
    if word_matches(name, "EDITION") {
        nvarchar("Developer Edition (64-bit)")
    } else if word_matches(name, "ENGINEEDITION") {
        Value::Int(3)
    } else if word_matches(name, "PRODUCTVERSION") {
        nvarchar("17.0.1000.7")
    } else if word_matches(name, "PRODUCTLEVEL") {
        nvarchar("RTM")
    } else if word_matches(name, "PRODUCTMAJORVERSION") {
        nvarchar("17")
    } else if word_matches(name, "PRODUCTMINORVERSION") {
        nvarchar("0")
    } else if word_matches(name, "COLLATION") {
        nvarchar("SQL_Latin1_General_CP1_CI_AS")
    } else if word_matches(name, "ISCLUSTERED") || word_matches(name, "ISFULLTEXTINSTALLED")
        || word_matches(name, "ISHADRENABLED") || word_matches(name, "ISINTEGRATEDSECURITYONLY")
        || word_matches(name, "ISSINGLEUSER") {
        Value::Int(0)
    } else {
        Value::Null
    }
}

/// The `k`-th server permission.
pub fn permission_name(k: usize) -> (r: &'static str)
    requires
        k < 21,
    ensures
        r@ == server_permissions()[k as int],
{
    match k {
        0 => "CONNECT SQL",
        1 => "SHUTDOWN",
        2 => "CREATE ENDPOINT",
        3 => "CREATE ANY DATABASE",
        4 => "ALTER ANY LOGIN",
        5 => "ALTER ANY CREDENTIAL",
        6 => "ALTER ANY ENDPOINT",
        7 => "ALTER ANY LINKED SERVER",
        8 => "ALTER ANY CONNECTION",
        9 => "ALTER ANY DATABASE",
        10 => "ALTER RESOURCES",
        11 => "ALTER SETTINGS",
        12 => "ALTER TRACE",
        13 => "ADMINISTER BULK OPERATIONS",
        14 => "AUTHENTICATE SERVER",
        15 => "EXTERNAL ACCESS ASSEMBLY",
        16 => "VIEW ANY DATABASE",
        17 => "VIEW ANY DEFINITION",
        18 => "VIEW SERVER STATE",
        19 => "CONTROL SERVER",
        _ => "ALTER SERVER STATE",
    }
}

/// Whether the session holds permission `p`.
pub fn granted(p: &Vec<char>) -> (b: bool)
    ensures
        b == is_granted(p@),
{
    let mut k: usize = 0;
    while k < 21
        invariant
            k <= 21,
            server_permissions().len() == 21,
            forall|j: int| 0 <= j < k ==> !word_is(p@, #[trigger] server_permissions()[j]),
        decreases 21 - k,
    {
        if word_matches(p, permission_name(k)) {
            return true;
        }
        k = k + 1;
    }
    false
}

/// `IS_SRVROLEMEMBER(role)`.
pub fn is_srvrolemember(role: &Vec<char>) -> (v: Value)
    ensures
        v@ == spec_is_srvrolemember(role@),
{
    if word_matches(role, "SYSADMIN") || word_matches(role, "PUBLIC") {
        Value::Int(1)
    } else if word_matches(role, "SERVERADMIN") || word_matches(role, "SECURITYADMIN")
        || word_matches(role, "PROCESSADMIN") || word_matches(role, "SETUPADMIN")
        || word_matches(role, "BULKADMIN") || word_matches(role, "DISKADMIN") || word_matches(
        role,
        "DBCREATOR",
    ) {
        Value::Int(0)
    } else {
        Value::Null
    }
}

/// `IS_MEMBER(role)`.
pub fn is_member(role: &Vec<char>) -> (v: Value)
    ensures
        v@ == spec_is_member(role@),
{
    if word_matches(role, "DB_OWNER") || word_matches(role, "PUBLIC") {
        Value::Int(1)
    } else if word_matches(role, "DB_ACCESSADMIN") || word_matches(role, "DB_SECURITYADMIN")
        || word_matches(role, "DB_DDLADMIN") || word_matches(role, "DB_BACKUPOPERATOR")
        || word_matches(role, "DB_DATAREADER") || word_matches(role, "DB_DATAWRITER")
        || word_matches(role, "DB_DENYDATAREADER") || word_matches(role, "DB_DENYDATAWRITER") {
        Value::Int(0)
    } else {
        Value::Null
    }
}

/// `HAS_DBACCESS(db)`.
pub fn has_dbaccess(db: &Vec<char>) -> (v: Value)
    ensures
        v@ == spec_has_dbaccess(db@),
{
    if word_matches(db, "MASTER") || word_matches(db, "TEMPDB") || word_matches(db, "MODEL")
        || word_matches(db, "MSDB") {
        Value::Int(1)
    } else {
        Value::Null
    }
}

fn text_arg(args: &Vec<Value>, k: usize) -> (r: Option<&String>)
    ensures
        match r {
            None => !(k < args@.len() && text_value(args@[k as int]@) is Some),
            Some(s) => k < args@.len() && text_value(args@[k as int]@) == Some(s@),
        },
{
    if k < args.len() {
        value_text(&args[k])
    } else {
        None
    }
}

fn wrap_message(before: &str, f: &Vec<char>, after: &str) -> (s: String)
    ensures
        s@ == before@ + f@ + after@,
{
    let mut s = String::from_str(before);
    let name = string_from_chars(f.as_slice());
    s.append(name.as_str());
    s.append(after);
    s
}

/// The built-in a call of `f` with `n` arguments runs.
pub fn resolve_call(f: &Vec<char>, n: usize) -> (r: Result<Builtin, DbError>)
    ensures
        match r {
            Ok(b) => spec_resolve_call(f@, n as nat) == Ok::<Builtin, DbErrorModel>(b),
            Err(e) => spec_resolve_call(f@, n as nat) == Err::<Builtin, DbErrorModel>(e@),
        },
{
    let b = if word_matches(f, "SERVERPROPERTY") {
        Builtin::ServerProperty
    } else if word_matches(f, "HAS_PERMS_BY_NAME") {
        Builtin::HasPermsByName
    } else if word_matches(f, "IS_SRVROLEMEMBER") {
        Builtin::IsSrvRoleMember
    } else if word_matches(f, "IS_MEMBER") {
        Builtin::IsMember
    } else if word_matches(f, "HAS_DBACCESS") {
        Builtin::HasDbAccess
    } else if word_matches(f, "OBJECT_ID") {
        Builtin::ObjectId
    } else if word_matches(f, "OBJECT_NAME") {
        Builtin::ObjectName
    } else if word_matches(f, "SCHEMA_NAME") {
        Builtin::SchemaName
    } else if word_matches(f, "GETDATE") {
        Builtin::GetDate
    } else {
        return Err(
            DbError::Execution(
                wrap_message("'", f, "' is not a recognized built-in function name."),
            ),
        );
    };
    let ok = match b {
        Builtin::ServerProperty => n == 1,
        Builtin::HasPermsByName => 3 <= n && n <= 5,
        Builtin::IsSrvRoleMember => 1 <= n && n <= 2,
        Builtin::IsMember => n == 1,
        Builtin::HasDbAccess => n == 1,
        Builtin::ObjectId => 1 <= n && n <= 2,
        Builtin::ObjectName => 1 <= n && n <= 2,
        Builtin::SchemaName => n <= 1,
        Builtin::GetDate => n == 0,
    };
    if ok {
        Ok(b)
    } else {
        Err(DbError::Execution(wrap_message("The ", f, " function was given a wrong number of arguments.")))
    }
}

/// The type of a built-in's result.
pub fn builtin_type_exec(b: Builtin) -> (t: DataType)
    ensures
        t == builtin_type(b),
{
    match b {
        Builtin::ServerProperty => DataType::SqlVariant,
        Builtin::ObjectName => DataType::NVarChar { max_len: 128 },
        Builtin::SchemaName => DataType::NVarChar { max_len: 128 },
        Builtin::GetDate => DataType::DateTime,
        _ => DataType::Int,
    }
}

fn sub_chars(s: &Vec<char>, from: usize, to: usize) -> (r: Vec<char>)
    requires
        from <= to <= s@.len(),
    ensures
        r@ == s@.subrange(from as int, to as int),
{
    let mut r: Vec<char> = Vec::new();
    let mut k: usize = from;
    while k < to
        invariant
            from <= k <= to <= s@.len(),
            r@ == s@.subrange(from as int, k as int),
        decreases to - k,
    {
        r.push(s[k]);
        k = k + 1;
        assert(r@ =~= s@.subrange(from as int, k as int));
    }
    r
}

/// `OBJECT_ID(name)`.
pub fn object_id(db: &Database, s: &String) -> (v: Value)
    ensures
        v@ == spec_object_id(db@, s@),
{
    let cs = string_chars(s);
    let n = cs.len();
    let mut d: usize = 0;
    while d < n && cs[d] != '.'
        invariant
            n == cs@.len(),
            d <= n,
            dot_index_from(cs@, 0) == dot_index_from(cs@, d as int),
        decreases n - d,
    {
        d = d + 1;
    }
    let name = if d < n {
        assert(dot_index_from(cs@, 0) == Some(d as int));
        let schema = sub_chars(&cs, 0, d);
        if !word_matches(&schema, "DBO") {
            return Value::Null;
        }
        sub_chars(&cs, d + 1, n)
    } else {
        assert(dot_index_from(cs@, 0) is None);
        cs
    };
    match find_table(db, &name) {
        Some(i) => Value::Int(db.tables[i].object_id),
        None => Value::Null,
    }
}

/// `OBJECT_NAME(id)`.
pub fn object_name(db: &Database, id: i64) -> (v: Value)
    ensures
        v@ == spec_object_name(db@, id as int),
{
    match find_table_by_id(db, id) {
        Some(i) => Value::NVarChar(string_from_chars(db.tables[i].name.as_slice())),
        None => Value::Null,
    }
}

/// `SCHEMA_NAME(id)`.
pub fn schema_name(id: i64) -> (v: Value)
    ensures
        v@ == spec_schema_name(id as int),
{
    if id == 1 {
        nvarchar("dbo")
    } else if id == 2 {
        nvarchar("guest")
    } else if id == 3 {
        nvarchar("INFORMATION_SCHEMA")
    } else if id == 4 {
        nvarchar("sys")
    } else {
        Value::Null
    }
}

/// The value of a built-in on argument values.
pub fn apply(b: Builtin, args: &Vec<Value>, db: &Database, now: i64) -> (v: Value)
    ensures
        v@ == spec_apply(b, args@.map_values(|x: Value| x@), db@, now),
{
    let ghost av = args@.map_values(|x: Value| x@);
    match b {
        Builtin::ServerProperty => match text_arg(args, 0) {
            Some(s) => server_property(&string_chars(s)),
            None => Value::Null,
        },
        Builtin::HasPermsByName => match text_arg(args, 2) {
            Some(s) => if granted(&string_chars(s)) {
                Value::Int(1)
            } else {
                Value::Int(0)
            },
            None => Value::Null,
        },
        Builtin::IsSrvRoleMember => match text_arg(args, 0) {
            Some(s) => is_srvrolemember(&string_chars(s)),
            None => Value::Null,
        },
        Builtin::IsMember => match text_arg(args, 0) {
            Some(s) => is_member(&string_chars(s)),
            None => Value::Null,
        },
        Builtin::HasDbAccess => match text_arg(args, 0) {
            Some(s) => has_dbaccess(&string_chars(s)),
            None => Value::Null,
        },
        Builtin::ObjectId => match text_arg(args, 0) {
            Some(s) => object_id(db, s),
            None => Value::Null,
        },
        Builtin::ObjectName => {
            if args.len() > 0 {
                match value_int(&args[0]) {
                    Some(n) => object_name(db, n),
                    None => Value::Null,
                }
            } else {
                Value::Null
            }
        },
        Builtin::SchemaName => {
            if args.len() == 0 {
                nvarchar("dbo")
            } else {
                match value_int(&args[0]) {
                    Some(n) => schema_name(n),
                    None => Value::Null,
                }
            }
        },
        Builtin::GetDate => Value::DateTime(now),
    }
}

// ---------------------------------------------------------------------------
// Laws
// ---------------------------------------------------------------------------

proof fn lemma_find_by_id(tables: Seq<TableModel>, i: int, k: int)
    requires
        0 <= k <= i < tables.len(),
        forall|a: int, b: int|
            0 <= a < b < tables.len() ==> (#[trigger] tables[a]).object_id
                < (#[trigger] tables[b]).object_id,
    ensures
        find_table_by_id_from(tables, tables[i].object_id as int, k) == Some(i),
    decreases i - k,
{
    if k < i {
        assert(tables[k].object_id < tables[i].object_id);
        lemma_find_by_id(tables, i, k + 1);
    }
}

proof fn lemma_find_by_name(tables: Seq<TableModel>, i: int, k: int)
    requires
        0 <= k <= i < tables.len(),
        forall|a: int, b: int|
            0 <= a < b < tables.len() ==> !same_name(
                #[trigger] tables[a].name,
                #[trigger] tables[b].name,
            ),
    ensures
        find_table_from(tables, tables[i].name, k) == Some(i),
    decreases i - k,
{
    if k < i {
        assert(!same_name(tables[k].name, tables[i].name));
        lemma_find_by_name(tables, i, k + 1);
    }
}

/// `OBJECT_ID` and `OBJECT_NAME` agree: for every table,
/// `OBJECT_NAME(OBJECT_ID('dbo.<name>'))` is its name, since names and object
/// ids are unique in a well-formed database.
pub proof fn law_object_id_and_name_agree(db: DatabaseModel, i: int)
    requires
        db_wf(db),
        0 <= i < db.tables.len(),
    ensures
        spec_object_id(db, "dbo."@ + db.tables[i].name) == ValueModel::Int(db.tables[i].object_id),
        spec_object_name(db, db.tables[i].object_id as int) == ValueModel::NVarChar(
            db.tables[i].name,
        ),
{
    reveal_strlit("dbo.");
    reveal_strlit("DBO");
    let name = db.tables[i].name;
    let s = "dbo."@ + name;
    assert(s[0] == 'd' && s[1] == 'b' && s[2] == 'o' && s[3] == '.');
    assert(dot_index_from(s, 3) == Some(3int));
    assert(dot_index_from(s, 2) == Some(3int));
    assert(dot_index_from(s, 1) == Some(3int));
    assert(dot_index_from(s, 0) == Some(3int));
    assert(s.subrange(0, 3) =~= seq!['d', 'b', 'o']);
    assert(word_is(s.subrange(0, 3), "DBO"@));
    assert(s.subrange(4, s.len() as int) =~= name);
    lemma_find_by_name(db.tables, i, 0);
    lemma_find_by_id(db.tables, i, 0);
}

/// The session is a member of `sysadmin` and holds each of the server
/// permissions that role grants (`CONTROL SERVER` and `VIEW ANY DEFINITION`
/// among them): `HAS_PERMS_BY_NAME(NULL, NULL, p)` answers 1 for each.
pub proof fn law_sysadmin_holds_server_permissions(p: Seq<char>, db: DatabaseModel, now: i64)
    requires
        seq![
            "CONNECT SQL"@,
            "SHUTDOWN"@,
            "CREATE ENDPOINT"@,
            "CREATE ANY DATABASE"@,
            "ALTER ANY LOGIN"@,
            "ALTER ANY CREDENTIAL"@,
            "ALTER ANY ENDPOINT"@,
            "ALTER ANY LINKED SERVER"@,
            "ALTER ANY CONNECTION"@,
            "ALTER ANY DATABASE"@,
            "ALTER RESOURCES"@,
            "ALTER SETTINGS"@,
            "ALTER TRACE"@,
            "ADMINISTER BULK OPERATIONS"@,
            "AUTHENTICATE SERVER"@,
            "EXTERNAL ACCESS ASSEMBLY"@,
            "VIEW ANY DATABASE"@,
            "VIEW ANY DEFINITION"@,
            "VIEW SERVER STATE"@,
            "CONTROL SERVER"@,
            "ALTER SERVER STATE"@,
        ].contains(p),
    ensures
        spec_is_srvrolemember("sysadmin"@) == ValueModel::Int(1),
        is_granted(p),
        spec_apply(
            Builtin::HasPermsByName,
            seq![ValueModel::Null, ValueModel::Null, ValueModel::VarChar(p)],
            db,
            now,
        ) == ValueModel::Int(1),
{
    reveal_strlit("sysadmin");
    reveal_strlit("SYSADMIN");
    let k = choose|k: int| 0 <= k < 21 && seq![
            "CONNECT SQL"@,
            "SHUTDOWN"@,
            "CREATE ENDPOINT"@,
            "CREATE ANY DATABASE"@,
            "ALTER ANY LOGIN"@,
            "ALTER ANY CREDENTIAL"@,
            "ALTER ANY ENDPOINT"@,
            "ALTER ANY LINKED SERVER"@,
            "ALTER ANY CONNECTION"@,
            "ALTER ANY DATABASE"@,
            "ALTER RESOURCES"@,
            "ALTER SETTINGS"@,
            "ALTER TRACE"@,
            "ADMINISTER BULK OPERATIONS"@,
            "AUTHENTICATE SERVER"@,
            "EXTERNAL ACCESS ASSEMBLY"@,
            "VIEW ANY DATABASE"@,
            "VIEW ANY DEFINITION"@,
            "VIEW SERVER STATE"@,
            "CONTROL SERVER"@,
            "ALTER SERVER STATE"@,
        ][k] == p;
    assert(server_permissions()[k] == p);
    assert(word_is(p, server_permissions()[k]));
}

} // verus!
