//! A T-SQL engine core after SQL Server: a session that parses and runs
//! batches over user tables (`CREATE TABLE`, `ALTER TABLE`, `INSERT`,
//! `UPDATE`, `DELETE`, `SELECT` with `WHERE`, `ORDER BY` and `TOP`, and
//! transactions), the catalog views that client tools probe (`sys.tables`,
//! `sys.columns`, `sys.indexes`, the principal views, `fn_my_permissions()`),
//! the capability functions (`SERVERPROPERTY`, `HAS_PERMS_BY_NAME`, ...), the
//! `SHOWPLAN_XML` and `STATISTICS XML` session options, and the system
//! procedures `sp_describe_first_result_set` and
//! `sp_describe_undeclared_parameters` with the column metadata they report.

pub mod ast;
pub mod builtins;
pub mod catalog;
pub mod clock;
pub mod database;
pub mod describe;
pub mod engine;
pub mod eval;
pub mod lexer;
pub mod metadata;
pub mod parser;
pub mod select;
pub mod text;
pub mod types;
pub mod values;

pub use engine::Engine;
pub use parser::{parse_batch, parse_sql};
pub use types::{DataType, DbError, QueryResult, StmtOutcome, Value};
