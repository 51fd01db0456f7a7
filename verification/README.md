# iridium_core

The core of a T-SQL engine that behaves like SQL Server towards client tools,
written in Verus. The functions of the library under `src/` carry contracts
that the verifier proves, except four small wrappers around the standard
library (reading the system clock and building a `String` from characters),
whose contracts are taken on trust; three of them promise nothing of their
result.

A session (`Engine`) parses and runs batches:

- `CREATE TABLE`, `ALTER TABLE ... ADD | DROP COLUMN | ALTER COLUMN`,
  `INSERT`, `UPDATE`, `DELETE`, and `BEGIN TRANSACTION` / `COMMIT` /
  `ROLLBACK` over user tables of schema `dbo`;
- `SELECT [TOP (n)] ... [FROM ...] [WHERE ...] [ORDER BY ...]` over user
  tables, the catalog views `sys.tables`, `sys.columns`, `sys.indexes`, the
  principal views and `fn_my_permissions()`;
- the capability functions `SERVERPROPERTY`, `HAS_PERMS_BY_NAME`,
  `IS_SRVROLEMEMBER`, `IS_MEMBER`, `HAS_DBACCESS`, and `OBJECT_ID`,
  `OBJECT_NAME`, `SCHEMA_NAME`, `GETDATE`;
- the session options `SHOWPLAN_XML` and `STATISTICS XML`, under which a
  `SELECT` answers an XML plan;
- the system procedures `sp_describe_first_result_set` and
  `sp_describe_undeclared_parameters`.

Layout:

- `src/` the verified library: `lexer` and `parser` (text to statements),
  `ast`, `types` and `values` (cell values under SQL rules), `database`
  (tables and the statements that change them), `eval` and `select`
  (expressions and queries), `catalog` and `builtins`, `metadata` and
  `describe`, `engine` (sessions), `clock` (the wall clock `GETDATE` reads);
- `tests/` the tests;
- `app/` the container health check, a program that only opens a TCP
  connection.
