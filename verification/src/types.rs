//! The engine's data types, cell values, query results and statement outcomes,
//! each with a mathematical model that the contracts speak of.

use vstd::prelude::*;

verus! {

/// Length value that stands for `(max)` in `VARCHAR(max)` / `NVARCHAR(max)`.
pub const MAX_LEN: u16 = 65535;

/// A SQL Server column type as the engine tracks it.
#[derive(Clone, Copy, Debug, PartialEq, Eq, Structural)]
pub enum DataType {
    Bit,
    TinyInt,
    SmallInt,
    Int,
    BigInt,
    Decimal { precision: u8, scale: u8 },
    Char { len: u16 },
    VarChar { max_len: u16 },
    NChar { len: u16 },
    NVarChar { max_len: u16 },
    Date,
    DateTime,
    UniqueIdentifier,
    SqlVariant,
}

/// A cell value.
#[derive(Clone, Debug, PartialEq, Eq)]
pub enum Value {
    Null,
    Bit(bool),
    TinyInt(u8),
    SmallInt(i16),
    Int(i32),
    BigInt(i64),
    VarChar(String),
    NVarChar(String),
    /// A `datetime`, as milliseconds since 1970-01-01 00:00:00 UTC.
    DateTime(i64),
}

/// The model of a [`Value`]: strings are taken by their characters.
pub enum ValueModel {
    Null,
    Bit(bool),
    TinyInt(u8),
    SmallInt(i16),
    Int(i32),
    BigInt(i64),
    VarChar(Seq<char>),
    NVarChar(Seq<char>),
    DateTime(i64),
}

impl View for Value {
    type V = ValueModel;

    open spec fn view(&self) -> ValueModel {
        match self {
            Value::Null => ValueModel::Null,
            Value::Bit(b) => ValueModel::Bit(*b),
            Value::TinyInt(v) => ValueModel::TinyInt(*v),
            Value::SmallInt(v) => ValueModel::SmallInt(*v),
            Value::Int(v) => ValueModel::Int(*v),
            Value::BigInt(v) => ValueModel::BigInt(*v),
            Value::VarChar(s) => ValueModel::VarChar(s@),
            Value::NVarChar(s) => ValueModel::NVarChar(s@),
            Value::DateTime(t) => ValueModel::DateTime(*t),
        }
    }
}

/// A copy of a value.
pub fn copy_value(v: &Value) -> (r: Value)
    ensures
        r@ == v@,
{
    match v {
        Value::Null => Value::Null,
        Value::Bit(b) => Value::Bit(*b),
        Value::TinyInt(x) => Value::TinyInt(*x),
        Value::SmallInt(x) => Value::SmallInt(*x),
        Value::Int(x) => Value::Int(*x),
        Value::BigInt(x) => Value::BigInt(*x),
        Value::VarChar(s) => Value::VarChar(s.clone()),
        Value::NVarChar(s) => Value::NVarChar(s.clone()),
        Value::DateTime(t) => Value::DateTime(*t),
    }
}

/// A result set: column names, declared column types, nullabilities, and rows.
#[derive(Clone, Debug)]
pub struct QueryResult {
    pub columns: Vec<String>,
    pub column_types: Vec<DataType>,
    pub column_nullabilities: Vec<bool>,
    pub rows: Vec<Vec<Value>>,
}

/// A copy of a row.
pub fn copy_row(row: &Vec<Value>) -> (r: Vec<Value>)
    ensures
        row_view(r) == row_view(*row),
{
    let mut out: Vec<Value> = Vec::new();
    let mut k: usize = 0;
    while k < row.len()
        invariant
            k <= row@.len(),
            out@.len() == k,
            forall|j: int| 0 <= j < k ==> (#[trigger] out@[j])@ == row@[j]@,
        decreases row@.len() - k,
    {
        out.push(copy_value(&row[k]));
        k = k + 1;
    }
    assert(row_view(out) =~= row_view(*row));
    out
}

/// The model of a [`QueryResult`].
pub struct QueryResultModel {
    pub columns: Seq<Seq<char>>,
    pub column_types: Seq<DataType>,
    pub column_nullabilities: Seq<bool>,
    pub rows: Seq<Seq<ValueModel>>,
}

/// The model of one row.
pub open spec fn row_view(row: Vec<Value>) -> Seq<ValueModel> {
    row@.map_values(|v: Value| v@)
}

impl View for QueryResult {
    type V = QueryResultModel;

    open spec fn view(&self) -> QueryResultModel {
        QueryResultModel {
            columns: self.columns@.map_values(|s: String| s@),
            column_types: self.column_types@,
            column_nullabilities: self.column_nullabilities@,
            rows: self.rows@.map_values(|r: Vec<Value>| row_view(r)),
        }
    }
}

/// A table is well formed when it declares a type for each column and
/// every row holds one value per column.
pub open spec fn table_wf(t: QueryResultModel) -> bool {
    &&& t.column_types.len() == t.columns.len()
    &&& forall|r: int| 0 <= r < t.rows.len() ==> (#[trigger] t.rows[r]).len() == t.columns.len()
}

/// An error raised while running a batch or a system procedure.
#[derive(Clone, Debug)]
pub enum DbError {
    Parse(String),
    Execution(String),
}

/// The model of a [`DbError`].
pub enum DbErrorModel {
    Parse(Seq<char>),
    Execution(Seq<char>),
}

impl View for DbError {
    type V = DbErrorModel;

    open spec fn view(&self) -> DbErrorModel {
        match self {
            DbError::Parse(s) => DbErrorModel::Parse(s@),
            DbError::Execution(s) => DbErrorModel::Execution(s@),
        }
    }
}

/// How a statement (or batch) finished: normally, with or without a result
/// set, or through a control-flow exit.
#[derive(Clone, Debug)]
pub enum StmtOutcome {
    Completed(Option<QueryResult>),
    Break,
    Continue,
    Return,
}

/// The model of a [`StmtOutcome`].
pub enum StmtOutcomeModel {
    Completed(Option<QueryResultModel>),
    Break,
    Continue,
    Return,
}

impl View for StmtOutcome {
    type V = StmtOutcomeModel;

    open spec fn view(&self) -> StmtOutcomeModel {
        match self {
            StmtOutcome::Completed(Some(r)) => StmtOutcomeModel::Completed(Some(r@)),
            StmtOutcome::Completed(None) => StmtOutcomeModel::Completed(None),
            StmtOutcome::Break => StmtOutcomeModel::Break,
            StmtOutcome::Continue => StmtOutcomeModel::Continue,
            StmtOutcome::Return => StmtOutcomeModel::Return,
        }
    }
}

/// The model of a procedure's result.
pub open spec fn result_view(r: Result<QueryResult, DbError>) -> Result<QueryResultModel, DbErrorModel> {
    match r {
        Ok(q) => Ok(q@),
        Err(e) => Err(e@),
    }
}

} // verus!
