use iridium_core::builtins::permission_name;
use iridium_core::engine::SessionOptions;
use iridium_core::{parse_batch, parse_sql, DataType, DbError, Engine, QueryResult, Value};

fn run(engine: &mut Engine, sql: &str) -> Result<Option<QueryResult>, DbError> {
    engine.execute_sql(sql)
}

fn query(engine: &mut Engine, sql: &str) -> QueryResult {
    run(engine, sql).expect("execute failed").expect("expected result set")
}

fn scalar(sql: &str) -> Value {
    let mut engine = Engine::new();
    let r = query(&mut engine, sql);
    assert_eq!(r.rows.len(), 1);
    r.rows[0][0].clone()
}

fn execution_message(r: Result<Option<QueryResult>, DbError>) -> String {
    match r {
        Err(DbError::Execution(m)) => m,
        other => panic!("expected an execution error, got {other:?}"),
    }
}

fn nv(s: &str) -> Value {
    Value::NVarChar(s.to_string())
}

#[test]
fn parse_errors() {
    match parse_batch("SELECT 'unclosed") {
        Err(DbError::Parse(m)) => assert_eq!(m, "Unclosed quotation mark or unexpected character"),
        other => panic!("expected a parse error, got {other:?}"),
    }
    match parse_batch("SELECT 1 SELECT 2") {
        Err(DbError::Parse(m)) => assert_eq!(m, "Incorrect syntax"),
        other => panic!("expected a parse error, got {other:?}"),
    }
    assert!(parse_batch("SELECT 99999999999999999999").is_err());
    assert!(parse_batch("MERGE t USING s ON 1 = 1").is_err());
    assert!(parse_batch("UPDATE t SET a = 1").is_ok());
    match parse_sql("SELECT 1; SELECT 2") {
        Err(DbError::Parse(m)) => assert_eq!(m, "Expected exactly one statement"),
        other => panic!("expected a parse error, got {other:?}"),
    }
    assert_eq!(parse_batch(";;").unwrap().len(), 0);
    assert_eq!(parse_batch("SELECT 1;; SELECT 2;").unwrap().len(), 2);
}

#[test]
fn keywords_ignore_case() {
    assert_eq!(scalar("select serverproperty('engineedition') as v"), Value::Int(3));
    assert_eq!(scalar("SeLeCt Is_SrvRoleMember(N'SysAdmin')"), Value::Int(1));
}

#[test]
fn literal_values_and_types() {
    let mut engine = Engine::new();
    let r = query(&mut engine, "SELECT 'it''s' AS s, N'x' AS n, '' AS e, 3000000000 AS b, NULL AS z");
    assert_eq!(r.columns, vec!["s", "n", "e", "b", "z"]);
    assert_eq!(r.rows[0][0], Value::VarChar("it's".to_string()));
    assert_eq!(r.rows[0][1], nv("x"));
    assert_eq!(r.rows[0][2], Value::VarChar(String::new()));
    assert_eq!(r.rows[0][3], Value::BigInt(3000000000));
    assert_eq!(r.rows[0][4], Value::Null);
    assert_eq!(
        r.column_types,
        vec![
            DataType::VarChar { max_len: 4 },
            DataType::NVarChar { max_len: 1 },
            DataType::VarChar { max_len: 1 },
            DataType::BigInt,
            DataType::Int,
        ]
    );
    assert_eq!(r.column_nullabilities, vec![true; 5]);
}

#[test]
fn unnamed_columns_have_empty_names() {
    let mut engine = Engine::new();
    let r = query(&mut engine, "SELECT HAS_DBACCESS('master'), 1");
    assert_eq!(r.columns, vec!["", ""]);
}

#[test]
fn server_properties() {
    assert_eq!(scalar("SELECT SERVERPROPERTY('Edition')"), nv("Developer Edition (64-bit)"));
    assert_eq!(scalar("SELECT SERVERPROPERTY('ProductVersion')"), nv("17.0.1000.7"));
    assert_eq!(scalar("SELECT SERVERPROPERTY('ProductMajorVersion')"), nv("17"));
    assert_eq!(scalar("SELECT SERVERPROPERTY('Collation')"), nv("SQL_Latin1_General_CP1_CI_AS"));
    assert_eq!(scalar("SELECT SERVERPROPERTY('IsHadrEnabled')"), Value::Int(0));
    assert_eq!(scalar("SELECT SERVERPROPERTY('NoSuchProperty')"), Value::Null);
    assert_eq!(scalar("SELECT SERVERPROPERTY(NULL)"), Value::Null);
    let mut engine = Engine::new();
    let r = query(&mut engine, "SELECT SERVERPROPERTY('Edition') AS v");
    assert_eq!(r.column_types, vec![DataType::SqlVariant]);
}

#[test]
fn permission_probes() {
    assert_eq!(scalar("SELECT HAS_PERMS_BY_NAME(NULL, NULL, 'view server state')"), Value::Int(1));
    assert_eq!(scalar("SELECT HAS_PERMS_BY_NAME(NULL, NULL, 'UNSAFE ASSEMBLY')"), Value::Int(0));
    assert_eq!(scalar("SELECT HAS_PERMS_BY_NAME(NULL, NULL, NULL)"), Value::Null);
    let mut engine = Engine::new();
    assert_eq!(
        execution_message(run(&mut engine, "SELECT HAS_PERMS_BY_NAME(NULL, 'SERVER')")),
        "The HAS_PERMS_BY_NAME function was given a wrong number of arguments."
    );
}

#[test]
fn every_listed_permission_is_granted() {
    let mut engine = Engine::new();
    let r = query(&mut engine, "SELECT * FROM fn_my_permissions()");
    assert_eq!(r.rows.len(), 21);
    for (k, row) in r.rows.iter().enumerate() {
        assert_eq!(row[0], nv(""));
        assert_eq!(row[1], nv(permission_name(k)));
        let sql = format!("SELECT HAS_PERMS_BY_NAME(NULL, NULL, '{}')", permission_name(k));
        assert_eq!(scalar(&sql), Value::Int(1));
    }
}

#[test]
fn role_probes() {
    assert_eq!(scalar("SELECT IS_SRVROLEMEMBER('serveradmin')"), Value::Int(0));
    assert_eq!(scalar("SELECT IS_SRVROLEMEMBER('nosuchrole')"), Value::Null);
    assert_eq!(scalar("SELECT IS_SRVROLEMEMBER('sysadmin', 'sa')"), Value::Int(1));
    assert_eq!(scalar("SELECT IS_MEMBER('public')"), Value::Int(1));
    assert_eq!(scalar("SELECT IS_MEMBER('db_datareader')"), Value::Int(0));
    assert_eq!(scalar("SELECT IS_MEMBER('nosuchrole')"), Value::Null);
    assert_eq!(scalar("SELECT HAS_DBACCESS('tempdb')"), Value::Int(1));
    assert_eq!(scalar("SELECT HAS_DBACCESS('nosuchdb')"), Value::Null);
}

#[test]
fn unknown_function_is_refused() {
    let mut engine = Engine::new();
    assert_eq!(
        execution_message(run(&mut engine, "SELECT NEWID()")),
        "'NEWID' is not a recognized built-in function name."
    );
}

#[test]
fn select_errors() {
    let mut engine = Engine::new();
    assert_eq!(execution_message(run(&mut engine, "SELECT *")), "Must specify table to select from.");
    assert_eq!(execution_message(run(&mut engine, "SELECT x")), "Invalid column name 'x'.");
    assert_eq!(
        execution_message(run(&mut engine, "SELECT * FROM sys.objects")),
        "Invalid object name 'objects'."
    );
    assert_eq!(
        execution_message(run(&mut engine, "SELECT nope FROM sys.server_principals")),
        "Invalid column name 'nope'."
    );
    assert_eq!(
        execution_message(run(&mut engine, "SELECT * FROM server_principals")),
        "Invalid object name 'server_principals'."
    );
}

#[test]
fn catalog_views() {
    let mut engine = Engine::new();
    let r = query(&mut engine, "SELECT NAME, principal_id FROM SYS.DATABASE_PRINCIPALS p");
    assert_eq!(r.columns, vec!["NAME", "principal_id"]);
    assert_eq!(r.column_types, vec![DataType::NVarChar { max_len: 128 }, DataType::Int]);
    assert_eq!(r.rows.len(), 6);
    assert_eq!(r.rows[1], vec![nv("dbo"), Value::Int(1)]);
    assert_eq!(r.rows[5], vec![nv("db_owner"), Value::Int(16384)]);
    let m = query(&mut engine, "SELECT * FROM sys.database_role_members");
    assert_eq!(m.columns, vec!["role_principal_id", "member_principal_id"]);
    assert_eq!(m.rows, vec![vec![Value::Int(16384), Value::Int(1)]]);
    let p = query(&mut engine, "SELECT permission_name, state_desc FROM sys.database_permissions");
    assert_eq!(p.rows, vec![vec![nv("CONNECT"), nv("GRANT")]]);
    let s = query(&mut engine, "SELECT type_desc, 7 AS k FROM sys.server_principals");
    assert_eq!(s.rows.len(), 3);
    assert_eq!(s.rows[0], vec![nv("SQL_LOGIN"), Value::Int(7)]);
}

#[test]
fn set_options_and_session_state() {
    let mut engine = Engine::new();
    assert_eq!(engine.options(), SessionOptions { showplan_xml: false, statistics_xml: false });
    assert!(run(&mut engine, "SET NOCOUNT ON").unwrap().is_none());
    assert!(run(&mut engine, "SET STATISTICS IO ON").unwrap().is_none());
    assert_eq!(
        execution_message(run(&mut engine, "SET IMPLICIT_TRANSACTIONS ON")),
        "SET option is not supported"
    );
    run(&mut engine, "SET SHOWPLAN_XML ON").unwrap();
    run(&mut engine, "SET STATISTICS XML ON").unwrap();
    assert_eq!(engine.options(), SessionOptions { showplan_xml: true, statistics_xml: true });
    // SHOWPLAN_XML comes first.
    let r = query(&mut engine, "SELECT 1");
    assert_eq!(r.columns, vec!["Microsoft SQL Server 2005 XML Showplan"]);
    assert_eq!(r.column_types, vec![DataType::NVarChar { max_len: 65535 }]);
    run(&mut engine, "SET SHOWPLAN XML OFF").unwrap();
    let r = query(&mut engine, "SELECT 1");
    assert_eq!(r.columns, vec!["Microsoft SQL Server 2005 XML Statistics"]);
    // the last SET wins
    run(&mut engine, "SET STATISTICS_XML OFF; SET STATISTICS_XML ON; SET STATISTICS_XML OFF").unwrap();
    assert_eq!(query(&mut engine, "SELECT 1 AS x").rows[0][0], Value::Int(1));
}

#[test]
fn plan_interception_ignores_what_the_select_reads() {
    let mut engine = Engine::new();
    run(&mut engine, "SET SHOWPLAN_XML ON").unwrap();
    // Even a SELECT that would fail answers the plan.
    let r = query(&mut engine, "SELECT nosuch FROM sys.nosuch");
    assert_eq!(r.rows.len(), 1);
    match &r.rows[0][0] {
        Value::NVarChar(x) => assert!(x.starts_with("<ShowPlanXML")),
        other => panic!("expected the plan, got {other:?}"),
    }
}

#[test]
fn batch_answers_last_result_and_stops_at_first_error() {
    let mut engine = Engine::new();
    let r = query(&mut engine, "SELECT 1 AS a; SET NOCOUNT ON; SELECT 2 AS b; SET NOCOUNT OFF");
    assert_eq!(r.columns, vec!["b"]);
    assert_eq!(r.rows[0][0], Value::Int(2));
    assert!(run(&mut engine, "SELECT nosuch(); SET SHOWPLAN_XML ON").is_err());
    assert_eq!(engine.options(), SessionOptions { showplan_xml: false, statistics_xml: false });
    assert!(run(&mut engine, "SET SHOWPLAN_XML ON; SELECT nosuch()").is_ok());
    assert_eq!(engine.options().showplan_xml, true);
    assert!(run(&mut engine, "SET NOCOUNT ON").unwrap().is_none());
}

#[test]
fn unparsable_batch_changes_nothing() {
    let mut engine = Engine::new();
    match run(&mut engine, "SET SHOWPLAN_XML ON; BACKUP DATABASE x TO DISK = 'x.bak'") {
        Err(DbError::Parse(_)) => {}
        other => panic!("expected a parse error, got {other:?}"),
    }
    assert_eq!(engine.options().showplan_xml, false);
}

#[test]
fn describe_through_exec() {
    let mut engine = Engine::new();
    let r = query(
        &mut engine,
        "EXEC sp_describe_first_result_set N'SELECT SERVERPROPERTY(''Edition'') AS v, 5 AS n'",
    );
    assert_eq!(r.rows.len(), 2);
    assert_eq!(
        r.rows[0],
        vec![
            Value::Bit(true),
            Value::TinyInt(98),
            nv("sql_variant"),
            Value::SmallInt(8016),
            Value::TinyInt(0),
            Value::TinyInt(0),
            Value::Null,
        ]
    );
    assert_eq!(r.rows[1][2], nv("int"));
    // named parameter, EXECUTE spelling
    let r = query(&mut engine, "EXECUTE sp_describe_first_result_set @tsql = N'SET NOCOUNT ON'");
    assert_eq!(r.columns.len(), 7);
    assert!(r.rows.is_empty());
}

#[test]
fn describe_of_a_describe_lists_the_description_schema() {
    let mut engine = Engine::new();
    let r = query(
        &mut engine,
        "EXEC sp_describe_first_result_set N'EXEC sp_describe_first_result_set N''SELECT 1 AS x'''",
    );
    assert_eq!(r.rows.len(), 7);
    assert_eq!(r.rows[0][2], nv("bit"));
    assert_eq!(r.rows[2][2], nv("nvarchar(128)"));
    assert_eq!(r.rows[2][3], Value::SmallInt(256));
    assert_eq!(r.rows[6][0], Value::Bit(true));
}

#[test]
fn describe_errors_through_exec() {
    let mut engine = Engine::new();
    assert_eq!(
        execution_message(run(&mut engine, "EXEC sp_describe_first_result_set")),
        "sp_describe_first_result_set requires 1 argument: @tsql"
    );
    assert_eq!(
        execution_message(run(&mut engine, "EXEC sp_describe_first_result_set 5")),
        "Procedure expects parameter '@tsql' of type 'nvarchar(max)'."
    );
    assert_eq!(
        execution_message(run(&mut engine, "EXEC sp_describe_first_result_set N'SELECT x'")),
        "Invalid column name 'x'."
    );
    assert_eq!(
        execution_message(run(&mut engine, "EXEC sp_describe_undeclared_parameters")),
        "sp_describe_undeclared_parameters requires 1 argument: @tsql"
    );
    assert_eq!(
        execution_message(run(&mut engine, "EXEC sp_who")),
        "Could not find stored procedure 'sp_who'."
    );
    match run(&mut engine, "EXEC sp_describe_first_result_set N'SELECT ''oops'") {
        Err(DbError::Parse(_)) => {}
        other => panic!("expected the nested parse error, got {other:?}"),
    }
}

#[test]
fn describe_reads_the_first_result_set_of_its_batch() {
    let mut engine = Engine::new();
    let r = query(
        &mut engine,
        "EXEC sp_describe_first_result_set N'SET NOCOUNT ON; SELECT 1 AS a; SELECT ''x'' AS b, 2 AS c'",
    );
    assert_eq!(r.rows.len(), 1);
    assert_eq!(r.rows[0][2], nv("int"));
    // a batch on its own answers its last result set
    let r = query(&mut engine, "SELECT 1 AS a; SELECT 'x' AS b, 2 AS c");
    assert_eq!(r.columns, vec!["b".to_string(), "c".to_string()]);
}

#[test]
fn describe_ignores_arguments_after_the_first() {
    let mut engine = Engine::new();
    let all = query(
        &mut engine,
        "EXEC sp_describe_first_result_set N'SELECT 1 AS a', N'@p int', N'ignored'",
    );
    let first = query(&mut engine, "EXEC sp_describe_first_result_set N'SELECT 1 AS a'");
    assert_eq!(all.columns, first.columns);
    assert_eq!(all.rows, first.rows);
}
