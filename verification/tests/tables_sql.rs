use iridium_core::clock::millis_reading;
use iridium_core::{DataType, DbError, Engine, QueryResult, Value};

fn run(engine: &mut Engine, sql: &str) -> Result<Option<QueryResult>, DbError> {
    engine.execute_sql_at(sql, 1_700_000_000_000)
}

fn ok(engine: &mut Engine, sql: &str) {
    if let Err(e) = run(engine, sql) {
        panic!("{sql}: {e:?}");
    }
}

fn query(engine: &mut Engine, sql: &str) -> QueryResult {
    run(engine, sql).expect("execute failed").expect("expected result set")
}

fn message(r: Result<Option<QueryResult>, DbError>) -> String {
    match r {
        Err(DbError::Execution(m)) => m,
        other => panic!("expected an execution error, got {other:?}"),
    }
}

fn vc(s: &str) -> Value {
    Value::VarChar(s.to_string())
}

fn people() -> Engine {
    let mut e = Engine::new();
    ok(&mut e, "CREATE TABLE people (id INT PRIMARY KEY, name VARCHAR(10) NOT NULL, age TINYINT NULL, tag VARCHAR(5) DEFAULT 'x')");
    ok(&mut e, "INSERT INTO people (id, name, age) VALUES (3, 'cy', 30)");
    ok(&mut e, "INSERT INTO people (id, name) VALUES (1, 'al')");
    ok(&mut e, "INSERT people VALUES (2, 'bo', 30, 'y')");
    e
}

#[test]
fn insert_then_select_all_keeps_insertion_order() {
    let mut e = people();
    let r = query(&mut e, "SELECT * FROM people");
    assert_eq!(r.columns, vec!["id", "name", "age", "tag"]);
    assert_eq!(
        r.column_types,
        vec![DataType::Int, DataType::VarChar { max_len: 10 }, DataType::TinyInt, DataType::VarChar { max_len: 5 }]
    );
    assert_eq!(r.column_nullabilities, vec![false, false, true, true]);
    assert_eq!(
        r.rows,
        vec![
            vec![Value::Int(3), vc("cy"), Value::TinyInt(30), vc("x")],
            vec![Value::Int(1), vc("al"), Value::Null, vc("x")],
            vec![Value::Int(2), vc("bo"), Value::TinyInt(30), vc("y")],
        ]
    );
}

#[test]
fn order_by_is_stable_and_puts_null_first() {
    let mut e = people();
    let r = query(&mut e, "SELECT id FROM people ORDER BY age");
    assert_eq!(r.rows, vec![vec![Value::Int(1)], vec![Value::Int(3)], vec![Value::Int(2)]]);
    let r = query(&mut e, "SELECT name FROM people ORDER BY NAME ASC");
    assert_eq!(r.rows, vec![vec![vc("al")], vec![vc("bo")], vec![vc("cy")]]);
    let r = query(&mut e, "SELECT TOP 2 id FROM people ORDER BY id");
    assert_eq!(r.rows, vec![vec![Value::Int(1)], vec![Value::Int(2)]]);
    assert_eq!(query(&mut e, "SELECT TOP (0) * FROM people").rows.len(), 0);
}

#[test]
fn where_compares_numbers_by_value_and_text_up_to_case() {
    let mut e = people();
    let r = query(&mut e, "SELECT id FROM people WHERE name = 'BO'");
    assert_eq!(r.rows, vec![vec![Value::Int(2)]]);
    let r = query(&mut e, "SELECT id FROM people p WHERE p.age = 30 AND p.tag = 'x'");
    assert_eq!(r.rows, vec![vec![Value::Int(3)]]);
    assert_eq!(query(&mut e, "SELECT id FROM people WHERE age = NULL").rows.len(), 0);
    assert_eq!(query(&mut e, "SELECT 1 AS one WHERE 1 = 0").rows.len(), 0);
    assert_eq!(
        message(run(&mut e, "SELECT q.id FROM people p")),
        "The multi-part identifier \"q.id\" could not be bound."
    );
}

#[test]
fn insert_errors() {
    let mut e = people();
    assert_eq!(message(run(&mut e, "INSERT INTO nobody VALUES (1)")), "Invalid object name 'nobody'.");
    assert_eq!(message(run(&mut e, "INSERT INTO sys.people VALUES (1)")), "Invalid object name 'people'.");
    assert_eq!(message(run(&mut e, "INSERT INTO people (id, nope) VALUES (9, 1)")), "Invalid column name 'nope'.");
    assert_eq!(
        message(run(&mut e, "INSERT INTO people (id, ID) VALUES (9, 9)")),
        "The column name 'ID' is specified more than once in the SET clause or column list of an INSERT."
    );
    assert_eq!(
        message(run(&mut e, "INSERT INTO people (id, name) VALUES (9)")),
        "Column name or number of supplied values does not match table definition."
    );
    assert_eq!(
        message(run(&mut e, "INSERT INTO people (id) VALUES (9)")),
        "Cannot insert the value NULL into column 'name', table 'people'; column does not allow nulls. INSERT fails."
    );
    assert_eq!(
        message(run(&mut e, "INSERT INTO people (id, name) VALUES (1, 'dup')")),
        "Violation of PRIMARY KEY constraint 'PK_people'. Cannot insert duplicate key in object 'dbo.people'."
    );
    assert_eq!(message(run(&mut e, "INSERT INTO people (id, name) VALUES ('a', 'z')")), "Operand type clash: varchar is incompatible with int");
    assert_eq!(message(run(&mut e, "INSERT INTO people (id, name) VALUES (9, 'much too long')")), "String or binary data would be truncated.");
    assert_eq!(
        message(run(&mut e, "INSERT INTO people (id, name, age) VALUES (9, 'z', 300)")),
        "Arithmetic overflow error converting expression to data type tinyint."
    );
    assert_eq!(query(&mut e, "SELECT * FROM people").rows.len(), 3);
}

#[test]
fn update_and_delete() {
    let mut e = people();
    ok(&mut e, "UPDATE people SET age = 31, tag = 'z' WHERE age = 30");
    let r = query(&mut e, "SELECT id, age, tag FROM people ORDER BY id");
    assert_eq!(
        r.rows,
        vec![
            vec![Value::Int(1), Value::Null, vc("x")],
            vec![Value::Int(2), Value::TinyInt(31), vc("z")],
            vec![Value::Int(3), Value::TinyInt(31), vc("z")],
        ]
    );
    assert_eq!(
        message(run(&mut e, "UPDATE people SET id = 7")),
        "Violation of PRIMARY KEY constraint 'PK_people'. Cannot insert duplicate key in object 'dbo.people'."
    );
    assert_eq!(
        message(run(&mut e, "UPDATE people SET name = NULL WHERE id = 1")),
        "Cannot insert the value NULL into column 'name', table 'people'; column does not allow nulls. UPDATE fails."
    );
    ok(&mut e, "UPDATE people SET id = 7 WHERE id = 1");
    ok(&mut e, "DELETE people WHERE age = 31");
    assert_eq!(query(&mut e, "SELECT id FROM people").rows, vec![vec![Value::Int(7)]]);
    ok(&mut e, "DELETE FROM people");
    assert_eq!(query(&mut e, "SELECT * FROM people").rows.len(), 0);
}

#[test]
fn create_table_errors() {
    let mut e = people();
    assert_eq!(message(run(&mut e, "CREATE TABLE PEOPLE (x INT)")), "There is already an object named 'PEOPLE' in the database.");
    assert_eq!(
        message(run(&mut e, "CREATE TABLE t (a INT, A INT)")),
        "Column names in each table must be unique. Column name 'A' in table 't' is specified more than once."
    );
    assert_eq!(
        message(run(&mut e, "CREATE TABLE t (a INT PRIMARY KEY, b INT PRIMARY KEY)")),
        "Cannot add multiple PRIMARY KEY constraints to table 't'."
    );
    assert_eq!(
        message(run(&mut e, "CREATE TABLE hr.t (a INT)")),
        "The specified schema name \"hr\" either does not exist or you do not have permission to use it."
    );
    assert_eq!(message(run(&mut e, "CREATE TABLE t (a INT DEFAULT b)")), "Invalid column name 'b'.");
    assert!(run(&mut e, "CREATE TABLE t (a VARCHAR(9000))").is_err());
}

#[test]
fn alter_table() {
    let mut e = people();
    ok(&mut e, "ALTER TABLE people ADD score INT NOT NULL DEFAULT 5");
    let r = query(&mut e, "SELECT score FROM people");
    assert_eq!(r.rows, vec![vec![Value::Int(5)]; 3]);
    assert_eq!(
        message(run(&mut e, "ALTER TABLE people ADD rank INT NOT NULL")),
        "ALTER TABLE only allows columns to be added that can contain nulls, or have a DEFAULT definition specified. Column 'rank' cannot be added to non-empty table 'people' because it does not satisfy these conditions."
    );
    assert_eq!(message(run(&mut e, "ALTER TABLE people DROP COLUMN id")), "The object 'PK_people' is dependent on column 'id'.");
    assert_eq!(
        message(run(&mut e, "ALTER TABLE people DROP COLUMN nope")),
        "ALTER TABLE DROP COLUMN failed because column 'nope' does not exist in table 'people'."
    );
    assert_eq!(
        message(run(&mut e, "ALTER TABLE people ALTER COLUMN age TINYINT NOT NULL")),
        "Cannot insert the value NULL into column 'age', table 'people'; column does not allow nulls. UPDATE fails."
    );
    assert_eq!(
        message(run(&mut e, "ALTER TABLE people ALTER COLUMN name INT")),
        "Operand type clash: varchar is incompatible with int"
    );
    ok(&mut e, "ALTER TABLE people ALTER COLUMN age INT");
    ok(&mut e, "ALTER TABLE people DROP COLUMN tag");
    let r = query(&mut e, "SELECT * FROM people WHERE id = 3");
    assert_eq!(r.columns, vec!["id", "name", "age", "score"]);
    assert_eq!(r.rows, vec![vec![Value::Int(3), vc("cy"), Value::Int(30), Value::Int(5)]]);
    let mut one = Engine::new();
    ok(&mut one, "CREATE TABLE solo (a INT)");
    assert_eq!(
        message(run(&mut one, "ALTER TABLE solo DROP COLUMN a")),
        "ALTER TABLE DROP COLUMN failed because 'a' is the only data column in table 'solo'. A table must have at least one data column."
    );
}

#[test]
fn transactions() {
    let mut e = people();
    assert_eq!(
        message(run(&mut e, "COMMIT")),
        "The COMMIT TRANSACTION request has no corresponding BEGIN TRANSACTION."
    );
    assert_eq!(
        message(run(&mut e, "ROLLBACK TRAN")),
        "The ROLLBACK TRANSACTION request has no corresponding BEGIN TRANSACTION."
    );
    ok(&mut e, "BEGIN TRAN; DELETE FROM people; BEGIN TRANSACTION; COMMIT TRANSACTION");
    assert_eq!(e.tran_count(), 1);
    assert_eq!(query(&mut e, "SELECT * FROM people").rows.len(), 0);
    ok(&mut e, "ROLLBACK");
    assert_eq!(e.tran_count(), 0);
    assert_eq!(query(&mut e, "SELECT * FROM people").rows.len(), 3);
    ok(&mut e, "BEGIN TRANSACTION; DELETE FROM people WHERE id = 1; COMMIT");
    ok(&mut e, "BEGIN TRANSACTION; ROLLBACK");
    assert_eq!(query(&mut e, "SELECT * FROM people").rows.len(), 2);
}

#[test]
fn catalog_of_user_tables() {
    let mut e = people();
    ok(&mut e, "CREATE TABLE heap (v NVARCHAR(MAX), d DECIMAL(10,2), w CHAR)");
    let r = query(&mut e, "SELECT name, object_id, schema_id FROM sys.tables ORDER BY name");
    assert_eq!(r.rows, vec![vec![vc("heap"), Value::Int(1000002), Value::Int(1)], vec![vc("people"), Value::Int(1000001), Value::Int(1)]]);
    let r = query(&mut e, "SELECT name, index_id, is_primary_key FROM sys.indexes ORDER BY object_id");
    assert_eq!(
        r.rows,
        vec![vec![vc("PK_people"), Value::Int(1), Value::Bit(true)], vec![Value::Null, Value::Int(0), Value::Bit(false)]]
    );
    let r = query(
        &mut e,
        "SELECT column_id, system_type_id, max_length, precision, scale, is_nullable FROM sys.columns WHERE object_id = OBJECT_ID('heap')",
    );
    assert_eq!(
        r.rows,
        vec![
            vec![Value::Int(1), Value::TinyInt(231), Value::SmallInt(-1), Value::TinyInt(0), Value::TinyInt(0), Value::Bit(true)],
            vec![Value::Int(2), Value::TinyInt(106), Value::SmallInt(9), Value::TinyInt(10), Value::TinyInt(2), Value::Bit(true)],
            vec![Value::Int(3), Value::TinyInt(175), Value::SmallInt(1), Value::TinyInt(0), Value::TinyInt(0), Value::Bit(true)],
        ]
    );
}

#[test]
fn catalog_functions() {
    let mut e = people();
    let r = query(
        &mut e,
        "SELECT OBJECT_ID('people') AS a, OBJECT_ID('dbo.PEOPLE') AS b, OBJECT_ID('sys.people') AS c, OBJECT_ID('nobody') AS d, OBJECT_NAME(1000001) AS n, SCHEMA_NAME() AS s, SCHEMA_NAME(4) AS t, SCHEMA_NAME(99) AS u",
    );
    assert_eq!(
        r.rows[0],
        vec![
            Value::Int(1000001),
            Value::Int(1000001),
            Value::Null,
            Value::Null,
            Value::NVarChar("people".to_string()),
            Value::NVarChar("dbo".to_string()),
            Value::NVarChar("sys".to_string()),
            Value::Null,
        ]
    );
    assert_eq!(r.column_types[4], DataType::NVarChar { max_len: 128 });
}

#[test]
fn getdate_reads_the_instant_of_the_batch() {
    let mut e = Engine::new();
    let r = query(&mut e, "SELECT GETDATE() AS now");
    assert_eq!(r.rows[0][0], Value::DateTime(1_700_000_000_000));
    assert_eq!(r.column_types, vec![DataType::DateTime]);
    ok(&mut e, "CREATE TABLE log (id INT, at DATETIME DEFAULT GETDATE())");
    e.execute_sql_at("INSERT INTO log (id) VALUES (1)", 42).unwrap();
    assert_eq!(query(&mut e, "SELECT at FROM log").rows[0][0], Value::DateTime(42));
    let mut c = Engine::new();
    let r = c.execute_sql("SELECT GETDATE()").unwrap().unwrap();
    match r.rows[0][0] {
        Value::DateTime(ms) => assert!(ms > 1_600_000_000_000),
        ref other => panic!("expected a datetime, got {other:?}"),
    }
}

#[test]
fn describe_of_a_table_select_reports_its_columns() {
    let mut e = people();
    let r = query(&mut e, "EXEC sp_describe_first_result_set N'SELECT name, age FROM people WHERE 1 = 0'");
    assert_eq!(r.rows.len(), 2);
    assert_eq!(r.rows[0][2], Value::NVarChar("varchar(10)".to_string()));
    assert_eq!(r.rows[1][2], Value::NVarChar("tinyint".to_string()));
}


#[test]
fn fixed_length_text_is_padded() {
    let mut e = Engine::new();
    ok(&mut e, "CREATE TABLE codes (c CHAR(3), n NCHAR(2), v VARCHAR(3))");
    ok(&mut e, "INSERT INTO codes VALUES ('a', N'b', 'c')");
    let r = query(&mut e, "SELECT * FROM codes WHERE c = 'a  '");
    assert_eq!(
        r.rows,
        vec![vec![vc("a  "), Value::NVarChar("b ".to_string()), vc("c")]]
    );
}

#[test]
fn clock_reading_clamps_elapsed_time() {
    assert_eq!(millis_reading(None), 0);
    assert_eq!(millis_reading(Some(0)), 0);
    assert_eq!(millis_reading(Some(1_700_000_000_123)), 1_700_000_000_123);
    assert_eq!(millis_reading(Some(9_223_372_036_854_775_807)), i64::MAX);
    assert_eq!(millis_reading(Some(9_223_372_036_854_775_808)), i64::MAX);
    assert_eq!(millis_reading(Some(u128::MAX)), i64::MAX);
}
