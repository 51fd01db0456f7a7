//! The system procedures `sp_describe_first_result_set` and
//! `sp_describe_undeclared_parameters`.
//!
//! `sp_describe_first_result_set @tsql` runs `@tsql` and reports one row per
//! column of the first result set it produces: nullability, system type id,
//! system type name, maximum length, precision, scale and collation.
//! Parsing and running the batch is the engine's work; the procedure takes it
//! as a function from the batch text to the batch's outcome.

use vstd::prelude::*;

use crate::metadata::{
    default_collation, is_character_type, spec_system_type_id, spec_system_type_name,
    spec_type_max_length, spec_type_precision, spec_type_scale, system_type_id,
    system_type_name, type_collation, type_max_length, type_precision_scale,
};
use crate::text::{is_blank, is_blank_str};
use crate::types::{
    result_view, row_view, DataType, DbError, DbErrorModel, QueryResult, QueryResultModel,
    StmtOutcome, StmtOutcomeModel, Value, ValueModel,
};

verus! {

// ---------------------------------------------------------------------------
// Specification
// ---------------------------------------------------------------------------

/// Message when `sp_describe_first_result_set` is called without `@tsql`.
pub open spec fn msg_first_missing_arg() -> Seq<char> {
    "sp_describe_first_result_set requires 1 argument: @tsql"@
}

/// Message when `@tsql` is empty or white space only.
pub open spec fn msg_first_empty_sql() -> Seq<char> {
    "sp_describe_first_result_set: @tsql cannot be empty"@
}

/// Message when the batch ends without finishing normally.
pub open spec fn msg_first_no_result_set() -> Seq<char> {
    "sp_describe_first_result_set: query must produce a result set"@
}

/// Message when `sp_describe_undeclared_parameters` is called without `@tsql`.
pub open spec fn msg_undeclared_missing_arg() -> Seq<char> {
    "sp_describe_undeclared_parameters requires 1 argument: @tsql"@
}

/// Why `sp_describe_first_result_set` refuses its arguments before running
/// anything: no `@tsql`, or a `@tsql` that is empty or white space only.
pub open spec fn spec_describe_args_error(args: Seq<Seq<char>>) -> Option<DbErrorModel> {
    if args.len() == 0 {
        Some(DbErrorModel::Execution(msg_first_missing_arg()))
    } else if is_blank(args[0]) {
        Some(DbErrorModel::Execution(msg_first_empty_sql()))
    } else {
        None
    }
}

/// The model of an argument list.
pub open spec fn args_view(args: Seq<String>) -> Seq<Seq<char>> {
    args.map_values(|s: String| s@)
}

/// The declared type of column `i` of a result set; a column without a
/// declared type is described as `int`.
pub open spec fn column_type_at(r: QueryResultModel, i: int) -> DataType {
    if 0 <= i < r.column_types.len() {
        r.column_types[i]
    } else {
        DataType::Int
    }
}

/// The nullability of column `i`; a column without a recorded nullability is
/// described as nullable.
pub open spec fn column_nullable_at(r: QueryResultModel, i: int) -> bool {
    if 0 <= i < r.column_nullabilities.len() {
        r.column_nullabilities[i]
    } else {
        true
    }
}

/// The description row of a column of type `dt`:
/// `IsNullable, SystemTypeId, SystemTypeName, MaxLength, Precision, Scale, CollationName`.
pub open spec fn spec_describe_column(dt: DataType, nullable: bool) -> Seq<ValueModel> {
    seq![
        ValueModel::Bit(nullable),
        ValueModel::TinyInt(spec_system_type_id(dt)),
        ValueModel::NVarChar(spec_system_type_name(dt)),
        ValueModel::SmallInt(spec_type_max_length(dt) as i16),
        ValueModel::TinyInt(spec_type_precision(dt)),
        ValueModel::TinyInt(spec_type_scale(dt)),
        if is_character_type(dt) {
            ValueModel::NVarChar(default_collation())
        } else {
            ValueModel::Null
        },
    ]
}

/// One description row per column of `r`, in column order.
pub open spec fn describe_rows(r: QueryResultModel) -> Seq<Seq<ValueModel>> {
    Seq::new(
        r.columns.len(),
        |i: int| spec_describe_column(column_type_at(r, i), column_nullable_at(r, i)),
    )
}

/// Column names of the result of `sp_describe_first_result_set`.
pub open spec fn first_schema_columns() -> Seq<Seq<char>> {
    seq![
        "IsNullable"@,
        "SystemTypeId"@,
        "SystemTypeName"@,
        "MaxLength"@,
        "Precision"@,
        "Scale"@,
        "CollationName"@,
    ]
}

/// Column types of the result of `sp_describe_first_result_set`.
pub open spec fn first_schema_types() -> Seq<DataType> {
    seq![
        DataType::Bit,
        DataType::TinyInt,
        DataType::NVarChar { max_len: 128 },
        DataType::SmallInt,
        DataType::TinyInt,
        DataType::TinyInt,
        DataType::NVarChar { max_len: 128 },
    ]
}

/// Column nullabilities of the result of `sp_describe_first_result_set`:
/// only `CollationName` may be null.
pub open spec fn first_schema_nullabilities() -> Seq<bool> {
    seq![false, false, false, false, false, false, true]
}

/// The result of `sp_describe_first_result_set` with the given rows.
pub open spec fn first_schema_with(rows: Seq<Seq<ValueModel>>) -> QueryResultModel {
    QueryResultModel {
        columns: first_schema_columns(),
        column_types: first_schema_types(),
        column_nullabilities: first_schema_nullabilities(),
        rows,
    }
}

/// What `sp_describe_first_result_set` answers once the batch has run:
/// the engine's error unchanged; the description of the first result set;
/// an empty description when the batch produced no result set; an error when
/// the batch ended through a control-flow exit.
pub open spec fn spec_describe_first_result_set(
    batch: Result<StmtOutcomeModel, DbErrorModel>,
) -> Result<QueryResultModel, DbErrorModel> {
    match batch {
        Err(e) => Err(e),
        Ok(StmtOutcomeModel::Completed(Some(r))) => Ok(first_schema_with(describe_rows(r))),
        Ok(StmtOutcomeModel::Completed(None)) => Ok(first_schema_with(seq![])),
        Ok(_) => Err(DbErrorModel::Execution(msg_first_no_result_set())),
    }
}

/// The model of a batch's outcome.
pub open spec fn batch_view(b: Result<StmtOutcome, DbError>) -> Result<
    StmtOutcomeModel,
    DbErrorModel,
> {
    match b {
        Ok(o) => Ok(o@),
        Err(e) => Err(e@),
    }
}

/// Column names of the result of `sp_describe_undeclared_parameters`.
pub open spec fn undeclared_schema_columns() -> Seq<Seq<char>> {
    seq![
        "ParameterName"@,
        "SuggestedSystemType"@,
        "SuggestedMaxLength"@,
        "SuggestedPrecision"@,
        "SuggestedScale"@,
        "ParameterOrderNumber"@,
        "IsOutput"@,
        "HasDefault"@,
        "DefaultInfo"@,
        "ParameterDeclaredDataTypeText"@,
    ]
}

/// Column types of the result of `sp_describe_undeclared_parameters`.
pub open spec fn undeclared_schema_types() -> Seq<DataType> {
    seq![
        DataType::NVarChar { max_len: 128 },
        DataType::NVarChar { max_len: 128 },
        DataType::SmallInt,
        DataType::TinyInt,
        DataType::TinyInt,
        DataType::Int,
        DataType::Bit,
        DataType::Bit,
        DataType::NVarChar { max_len: 256 },
        DataType::NVarChar { max_len: 256 },
    ]
}

/// Column nullabilities of the result of `sp_describe_undeclared_parameters`.
pub open spec fn undeclared_schema_nullabilities() -> Seq<bool> {
    seq![false, false, false, false, false, false, false, false, true, true]
}

/// The (row-less) result of `sp_describe_undeclared_parameters`.
pub open spec fn undeclared_result() -> QueryResultModel {
    QueryResultModel {
        columns: undeclared_schema_columns(),
        column_types: undeclared_schema_types(),
        column_nullabilities: undeclared_schema_nullabilities(),
        rows: seq![],
    }
}

// ---------------------------------------------------------------------------
// Implementation
// ---------------------------------------------------------------------------

/// The description row of one column.
pub fn describe_column(dt: &DataType, nullable: bool) -> (row: Vec<Value>)
    ensures
        row_view(row) == spec_describe_column(*dt, nullable),
{
    let id = system_type_id(dt);
    let name = system_type_name(dt);
    let max_length = type_max_length(dt);
    let (precision, scale) = type_precision_scale(dt);
    let collation = type_collation(dt);
    let row = vec![
        Value::Bit(nullable),
        Value::TinyInt(id),
        Value::NVarChar(name),
        Value::SmallInt(max_length as i16),
        Value::TinyInt(precision),
        Value::TinyInt(scale),
        match collation {
            Some(c) => Value::NVarChar(c),
            None => Value::Null,
        },
    ];
    assert(row_view(row) =~= spec_describe_column(*dt, nullable));
    row
}

fn first_schema(rows: Vec<Vec<Value>>) -> (res: QueryResult)
    ensures
        res@ == first_schema_with(rows@.map_values(|r: Vec<Value>| row_view(r))),
{
    let res = QueryResult {
        columns: vec![
            String::from_str("IsNullable"),
            String::from_str("SystemTypeId"),
            String::from_str("SystemTypeName"),
            String::from_str("MaxLength"),
            String::from_str("Precision"),
            String::from_str("Scale"),
            String::from_str("CollationName"),
        ],
        column_types: vec![
            DataType::Bit,
            DataType::TinyInt,
            DataType::NVarChar { max_len: 128 },
            DataType::SmallInt,
            DataType::TinyInt,
            DataType::TinyInt,
            DataType::NVarChar { max_len: 128 },
        ],
        column_nullabilities: vec![false, false, false, false, false, false, true],
        rows,
    };
    assert(res@.columns =~= first_schema_columns());
    assert(res@.column_types =~= first_schema_types());
    assert(res@.column_nullabilities =~= first_schema_nullabilities());
    res
}

/// One description row per column of `result`.
pub fn describe_columns(result: &QueryResult) -> (rows: Vec<Vec<Value>>)
    ensures
        rows@.map_values(|r: Vec<Value>| row_view(r)) == describe_rows(result@),
{
    let n = result.columns.len();
    let mut rows: Vec<Vec<Value>> = Vec::new();
    let mut i: usize = 0;
    while i < n
        invariant
            n == result.columns@.len(),
            i <= n,
            rows@.len() == i,
            forall|j: int|
                0 <= j < i ==> row_view(#[trigger] rows@[j]) == spec_describe_column(
                    column_type_at(result@, j),
                    column_nullable_at(result@, j),
                ),
        decreases n - i,
    {
        let dt = if i < result.column_types.len() {
            result.column_types[i]
        } else {
            DataType::Int
        };
        let nullable = if i < result.column_nullabilities.len() {
            result.column_nullabilities[i]
        } else {
            true
        };
        let row = describe_column(&dt, nullable);
        rows.push(row);
        i = i + 1;
    }
    assert(rows@.map_values(|r: Vec<Value>| row_view(r)) =~= describe_rows(result@));
    rows
}

/// The answer of `sp_describe_first_result_set` once the batch has run:
/// `batch` is what parsing and running `@tsql` gave.
pub fn describe_first_result_set(batch: Result<StmtOutcome, DbError>) -> (res: Result<
    QueryResult,
    DbError,
>)
    ensures
        result_view(res) == spec_describe_first_result_set(batch_view(batch)),
{
    match batch {
        Err(e) => Err(e),
        Ok(StmtOutcome::Completed(Some(result))) => {
            let rows = describe_columns(&result);
            Ok(first_schema(rows))
        },
        Ok(StmtOutcome::Completed(None)) => {
            let rows: Vec<Vec<Value>> = Vec::new();
            let res = first_schema(rows);
            assert(res@.rows =~= Seq::<Seq<ValueModel>>::empty());
            Ok(res)
        },
        Ok(_) => Err(
            DbError::Execution(
                String::from_str("sp_describe_first_result_set: query must produce a result set"),
            ),
        ),
    }
}

/// Checks the arguments of `sp_describe_first_result_set`: `Ok` when
/// `args[0]` is a batch to run.
pub fn check_describe_args(args: &[String]) -> (r: Result<(), DbError>)
    ensures
        match r {
            Ok(()) => spec_describe_args_error(args_view(args@)) is None,
            Err(e) => spec_describe_args_error(args_view(args@)) == Some(e@),
        },
{
    if args.len() == 0 {
        return Err(
            DbError::Execution(
                String::from_str("sp_describe_first_result_set requires 1 argument: @tsql"),
            ),
        );
    }
    if is_blank_str(args[0].as_str()) {
        return Err(
            DbError::Execution(
                String::from_str("sp_describe_first_result_set: @tsql cannot be empty"),
            ),
        );
    }
    Ok(())
}

/// `sp_describe_first_result_set @tsql`: checks the argument, runs the batch
/// `args[0]` through `run_batch`, and describes the first result set.
///
/// With no argument, or with a `@tsql` that is empty or white space only, the
/// batch is not run and the procedure fails.
pub fn execute_sp_describe_first_result_set<F>(args: &[String], run_batch: F) -> (res: Result<
    QueryResult,
    DbError,
>) where F: FnOnce(&String) -> Result<StmtOutcome, DbError>
    requires
        args@.len() > 0 ==> call_requires(run_batch, (&args@[0],)),
    ensures
        args@.len() == 0 ==> result_view(res) == Err::<QueryResultModel, DbErrorModel>(
            DbErrorModel::Execution(msg_first_missing_arg()),
        ),
        args@.len() > 0 && is_blank(args@[0]@) ==> result_view(res) == Err::<
            QueryResultModel,
            DbErrorModel,
        >(DbErrorModel::Execution(msg_first_empty_sql())),
        args@.len() > 0 && !is_blank(args@[0]@) ==> exists|batch: Result<StmtOutcome, DbError>|
            call_ensures(run_batch, (&args@[0],), batch) && result_view(res)
                == spec_describe_first_result_set(batch_view(batch)),
{
    match check_describe_args(args) {
        Err(e) => Err(e),
        Ok(()) => {
            let batch = run_batch(&args[0]);
            describe_first_result_set(batch)
        },
    }
}

/// `sp_describe_undeclared_parameters @tsql`: the engine binds no parameter
/// placeholders, so for any `@tsql` the answer is the parameter schema with
/// no rows; without an argument the procedure fails.
pub fn execute_sp_describe_undeclared_parameters(args: &[String]) -> (res: Result<
    QueryResult,
    DbError,
>)
    ensures
        args@.len() == 0 ==> result_view(res) == Err::<QueryResultModel, DbErrorModel>(
            DbErrorModel::Execution(msg_undeclared_missing_arg()),
        ),
        args@.len() > 0 ==> result_view(res) == Ok::<QueryResultModel, DbErrorModel>(
            undeclared_result(),
        ),
{
    if args.len() == 0 {
        return Err(
            DbError::Execution(
                String::from_str("sp_describe_undeclared_parameters requires 1 argument: @tsql"),
            ),
        );
    }
    let res = QueryResult {
        columns: vec![
            String::from_str("ParameterName"),
            String::from_str("SuggestedSystemType"),
            String::from_str("SuggestedMaxLength"),
            String::from_str("SuggestedPrecision"),
            String::from_str("SuggestedScale"),
            String::from_str("ParameterOrderNumber"),
            String::from_str("IsOutput"),
            String::from_str("HasDefault"),
            String::from_str("DefaultInfo"),
            String::from_str("ParameterDeclaredDataTypeText"),
        ],
        column_types: vec![
            DataType::NVarChar { max_len: 128 },
            DataType::NVarChar { max_len: 128 },
            DataType::SmallInt,
            DataType::TinyInt,
            DataType::TinyInt,
            DataType::Int,
            DataType::Bit,
            DataType::Bit,
            DataType::NVarChar { max_len: 256 },
            DataType::NVarChar { max_len: 256 },
        ],
        column_nullabilities: vec![false, false, false, false, false, false, false, false, true, true],
        rows: Vec::new(),
    };
    assert(res@.columns =~= undeclared_schema_columns());
    assert(res@.column_types =~= undeclared_schema_types());
    assert(res@.column_nullabilities =~= undeclared_schema_nullabilities());
    assert(res@.rows =~= Seq::<Seq<ValueModel>>::empty());
    Ok(res)
}

// ---------------------------------------------------------------------------
// Laws
// ---------------------------------------------------------------------------

/// The description of a first result set depends on its columns' names,
/// types and nullabilities only, never on its rows: a query that returns no
/// rows is described exactly as one that does.
pub proof fn law_description_ignores_rows(r1: QueryResultModel, r2: QueryResultModel)
    requires
        r1.columns.len() == r2.columns.len(),
        r1.column_types == r2.column_types,
        r1.column_nullabilities == r2.column_nullabilities,
    ensures
        spec_describe_first_result_set(Ok(StmtOutcomeModel::Completed(Some(r1))))
            == spec_describe_first_result_set(Ok(StmtOutcomeModel::Completed(Some(r2)))),
{
    assert(describe_rows(r1) =~= describe_rows(r2));
}

/// Whenever `sp_describe_first_result_set` answers, it answers the same
/// seven-column schema, with one row per column of the described result set
/// (none when the batch produced no result set), and every row holds one
/// value per column of that schema.
pub proof fn law_description_shape(batch: Result<StmtOutcomeModel, DbErrorModel>)
    ensures
        match spec_describe_first_result_set(batch) {
            Ok(d) => {
                &&& d.columns == first_schema_columns()
                &&& d.column_types == first_schema_types()
                &&& d.column_nullabilities == first_schema_nullabilities()
                &&& d.rows.len() == match batch {
                    Ok(StmtOutcomeModel::Completed(Some(r))) => r.columns.len(),
                    _ => 0,
                }
                &&& forall|i: int| 0 <= i < d.rows.len() ==> (#[trigger] d.rows[i]).len()
                    == d.columns.len()
            },
            Err(_) => true,
        },
{
}

/// Row `i` of a description describes column `i` of the result set: a
/// collation is reported exactly for character columns, a precision or scale
/// only for `decimal` columns.
pub proof fn law_description_row_describes_column(r: QueryResultModel, i: int)
    requires
        0 <= i < r.columns.len(),
    ensures
        ({
            let row = describe_rows(r)[i];
            let dt = column_type_at(r, i);
            &&& row[0] == ValueModel::Bit(column_nullable_at(r, i))
            &&& row[1] == ValueModel::TinyInt(spec_system_type_id(dt))
            &&& (row[6] is Null <==> !is_character_type(dt))
            &&& (!(dt is Decimal) ==> row[4] == ValueModel::TinyInt(0) && row[5]
                == ValueModel::TinyInt(0))
        }),
{
}

} // verus!
