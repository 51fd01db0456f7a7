use iridium_core::describe::{
    describe_column, describe_first_result_set, execute_sp_describe_first_result_set,
    execute_sp_describe_undeclared_parameters,
};
use iridium_core::metadata::{
    system_type_id, system_type_name, type_collation, type_max_length, type_precision_scale,
};
use iridium_core::text::{format_decimal, is_blank_str};
use iridium_core::types::MAX_LEN;
use iridium_core::{DataType, DbError, QueryResult, StmtOutcome, Value};

fn strings(names: &[&str]) -> Vec<String> {
    names.iter().map(|s| s.to_string()).collect()
}

fn nv(s: &str) -> Value {
    Value::NVarChar(s.to_string())
}

fn result(names: &[&str], types: Vec<DataType>, nullable: Vec<bool>, rows: Vec<Vec<Value>>) -> QueryResult {
    QueryResult {
        columns: strings(names),
        column_types: types,
        column_nullabilities: nullable,
        rows,
    }
}

#[test]
fn system_type_ids_follow_sys_types() {
    assert_eq!(system_type_id(&DataType::Bit), 104);
    assert_eq!(system_type_id(&DataType::TinyInt), 48);
    assert_eq!(system_type_id(&DataType::SmallInt), 52);
    assert_eq!(system_type_id(&DataType::Int), 56);
    assert_eq!(system_type_id(&DataType::BigInt), 127);
    assert_eq!(system_type_id(&DataType::Decimal { precision: 10, scale: 2 }), 106);
    assert_eq!(system_type_id(&DataType::Char { len: 3 }), 175);
    assert_eq!(system_type_id(&DataType::VarChar { max_len: 3 }), 167);
    assert_eq!(system_type_id(&DataType::NChar { len: 3 }), 239);
    assert_eq!(system_type_id(&DataType::NVarChar { max_len: 3 }), 231);
    assert_eq!(system_type_id(&DataType::Date), 40);
    assert_eq!(system_type_id(&DataType::DateTime), 61);
    assert_eq!(system_type_id(&DataType::UniqueIdentifier), 36);
    assert_eq!(system_type_id(&DataType::SqlVariant), 98);
}

#[test]
fn type_names_carry_lengths_and_precision() {
    assert_eq!(system_type_name(&DataType::Int), "int");
    assert_eq!(system_type_name(&DataType::Decimal { precision: 10, scale: 2 }), "decimal(10,2)");
    assert_eq!(system_type_name(&DataType::Decimal { precision: 38, scale: 0 }), "decimal(38,0)");
    assert_eq!(system_type_name(&DataType::NVarChar { max_len: 100 }), "nvarchar(100)");
    assert_eq!(system_type_name(&DataType::NVarChar { max_len: MAX_LEN }), "nvarchar(max)");
    assert_eq!(system_type_name(&DataType::VarChar { max_len: MAX_LEN }), "varchar(max)");
    assert_eq!(system_type_name(&DataType::Char { len: 10 }), "char(10)");
    assert_eq!(system_type_name(&DataType::NChar { len: 5 }), "nchar(5)");
    assert_eq!(system_type_name(&DataType::SqlVariant), "sql_variant");
}

#[test]
fn max_lengths_are_in_bytes() {
    assert_eq!(type_max_length(&DataType::Int), 4);
    assert_eq!(type_max_length(&DataType::BigInt), 8);
    assert_eq!(type_max_length(&DataType::NVarChar { max_len: 100 }), 200);
    assert_eq!(type_max_length(&DataType::NVarChar { max_len: MAX_LEN }), -1);
    assert_eq!(type_max_length(&DataType::VarChar { max_len: 50 }), 50);
    assert_eq!(type_max_length(&DataType::VarChar { max_len: MAX_LEN }), -1);
    assert_eq!(type_max_length(&DataType::NChar { len: 5 }), 10);
    assert_eq!(type_max_length(&DataType::Decimal { precision: 5, scale: 0 }), 5);
    assert_eq!(type_max_length(&DataType::Decimal { precision: 10, scale: 2 }), 9);
    assert_eq!(type_max_length(&DataType::Decimal { precision: 28, scale: 2 }), 13);
    assert_eq!(type_max_length(&DataType::Decimal { precision: 38, scale: 0 }), 17);
    assert_eq!(type_max_length(&DataType::SqlVariant), 8016);
}

#[test]
fn precision_scale_and_collation() {
    assert_eq!(type_precision_scale(&DataType::Decimal { precision: 10, scale: 2 }), (10, 2));
    assert_eq!(type_precision_scale(&DataType::Int), (0, 0));
    assert_eq!(
        type_collation(&DataType::VarChar { max_len: 5 }),
        Some("SQL_Latin1_General_CP1_CI_AS".to_string())
    );
    assert_eq!(type_collation(&DataType::Char { len: 5 }).is_some(), true);
    assert_eq!(type_collation(&DataType::Int), None);
}

#[test]
fn describe_column_row_for_nvarchar() {
    let row = describe_column(&DataType::NVarChar { max_len: 100 }, true);
    assert_eq!(
        row,
        vec![
            Value::Bit(true),
            Value::TinyInt(231),
            nv("nvarchar(100)"),
            Value::SmallInt(200),
            Value::TinyInt(0),
            Value::TinyInt(0),
            nv("SQL_Latin1_General_CP1_CI_AS"),
        ]
    );
}

#[test]
fn describe_column_row_for_decimal() {
    let row = describe_column(&DataType::Decimal { precision: 10, scale: 2 }, false);
    assert_eq!(
        row,
        vec![
            Value::Bit(false),
            Value::TinyInt(106),
            nv("decimal(10,2)"),
            Value::SmallInt(9),
            Value::TinyInt(10),
            Value::TinyInt(2),
            Value::Null,
        ]
    );
}

#[test]
fn describe_defaults_missing_metadata_to_nullable_int() {
    let r = result(&["a", "b"], vec![DataType::Bit], vec![false], vec![]);
    let d = describe_first_result_set(Ok(StmtOutcome::Completed(Some(r)))).unwrap();
    assert_eq!(d.rows.len(), 2);
    assert_eq!(d.rows[0][0], Value::Bit(false));
    assert_eq!(d.rows[0][1], Value::TinyInt(104));
    assert_eq!(d.rows[1][0], Value::Bit(true));
    assert_eq!(d.rows[1][1], Value::TinyInt(56));
    assert_eq!(d.rows[1][2], nv("int"));
}

#[test]
fn describe_schema_is_fixed() {
    let d = describe_first_result_set(Ok(StmtOutcome::Completed(None))).unwrap();
    assert_eq!(
        d.columns,
        strings(&[
            "IsNullable",
            "SystemTypeId",
            "SystemTypeName",
            "MaxLength",
            "Precision",
            "Scale",
            "CollationName"
        ])
    );
    assert_eq!(
        d.column_types,
        vec![
            DataType::Bit,
            DataType::TinyInt,
            DataType::NVarChar { max_len: 128 },
            DataType::SmallInt,
            DataType::TinyInt,
            DataType::TinyInt,
            DataType::NVarChar { max_len: 128 },
        ]
    );
    assert_eq!(d.column_nullabilities, vec![false, false, false, false, false, false, true]);
    assert!(d.rows.is_empty());
}

#[test]
fn describe_ignores_the_rows_of_the_result() {
    let types = vec![DataType::Int, DataType::VarChar { max_len: 20 }];
    let empty = result(&["x", "y"], types.clone(), vec![true, false], vec![]);
    let full = result(
        &["x", "y"],
        types,
        vec![true, false],
        vec![vec![Value::Int(1), Value::VarChar("a".to_string())]; 3],
    );
    let a = describe_first_result_set(Ok(StmtOutcome::Completed(Some(empty)))).unwrap();
    let b = describe_first_result_set(Ok(StmtOutcome::Completed(Some(full)))).unwrap();
    assert_eq!(a.rows, b.rows);
    assert_eq!(a.columns, b.columns);
}

#[test]
fn describe_control_flow_exit_is_refused() {
    for outcome in [StmtOutcome::Break, StmtOutcome::Continue, StmtOutcome::Return] {
        match describe_first_result_set(Ok(outcome)) {
            Err(DbError::Execution(m)) => {
                assert_eq!(m, "sp_describe_first_result_set: query must produce a result set")
            }
            other => panic!("expected an execution error, got {other:?}"),
        }
    }
}

#[test]
fn describe_engine_error_is_passed_through() {
    let args = strings(&["SELEC x"]);
    let r = execute_sp_describe_first_result_set(&args, |_sql: &String| {
        Err(DbError::Parse("syntax error near 'SELEC'".to_string()))
    });
    match r {
        Err(DbError::Parse(m)) => assert_eq!(m, "syntax error near 'SELEC'"),
        other => panic!("expected the engine's parse error, got {other:?}"),
    }
}

#[test]
fn describe_without_argument_is_refused() {
    let r = execute_sp_describe_first_result_set(&[], |_sql: &String| {
        panic!("nothing may run without @tsql")
    });
    match r {
        Err(DbError::Execution(m)) => {
            assert_eq!(m, "sp_describe_first_result_set requires 1 argument: @tsql")
        }
        other => panic!("expected an execution error, got {other:?}"),
    }
}

#[test]
fn describe_blank_sql_is_refused() {
    let args = strings(&[" \t\r\n\u{3000}\u{a0}"]);
    let r = execute_sp_describe_first_result_set(&args, |_sql: &String| {
        panic!("blank @tsql may not run")
    });
    match r {
        Err(DbError::Execution(m)) => {
            assert_eq!(m, "sp_describe_first_result_set: @tsql cannot be empty")
        }
        other => panic!("expected an execution error, got {other:?}"),
    }
}

#[test]
fn describe_runs_text_that_is_not_white_space() {
    // U+200B is not a white-space character: the batch is handed to the engine.
    let args = strings(&["\u{200b}"]);
    let r = execute_sp_describe_first_result_set(&args, |sql: &String| {
        assert_eq!(sql, "\u{200b}");
        Ok(StmtOutcome::Completed(None))
    });
    assert!(r.unwrap().rows.is_empty());
}

#[test]
fn undeclared_parameters_schema_and_refusal() {
    let r = execute_sp_describe_undeclared_parameters(&strings(&["SELECT @p"])).unwrap();
    assert_eq!(
        r.columns,
        strings(&[
            "ParameterName",
            "SuggestedSystemType",
            "SuggestedMaxLength",
            "SuggestedPrecision",
            "SuggestedScale",
            "ParameterOrderNumber",
            "IsOutput",
            "HasDefault",
            "DefaultInfo",
            "ParameterDeclaredDataTypeText"
        ])
    );
    assert_eq!(r.column_types[8], DataType::NVarChar { max_len: 256 });
    assert_eq!(
        r.column_nullabilities,
        vec![false, false, false, false, false, false, false, false, true, true]
    );
    assert!(r.rows.is_empty());
    match execute_sp_describe_undeclared_parameters(&[]) {
        Err(DbError::Execution(m)) => {
            assert_eq!(m, "sp_describe_undeclared_parameters requires 1 argument: @tsql")
        }
        other => panic!("expected an execution error, got {other:?}"),
    }
}

#[test]
fn decimal_rendering() {
    assert_eq!(format_decimal(0), "0");
    assert_eq!(format_decimal(7), "7");
    assert_eq!(format_decimal(10), "10");
    assert_eq!(format_decimal(4000), "4000");
    assert_eq!(format_decimal(65535), "65535");
}

#[test]
fn blank_text_detection() {
    assert!(is_blank_str(""));
    assert!(is_blank_str(" \t\n\u{0b}\u{0c}\r\u{85}\u{a0}\u{1680}\u{2000}\u{200a}\u{2028}\u{2029}\u{202f}\u{205f}\u{3000}"));
    assert!(!is_blank_str("  x "));
    assert!(!is_blank_str("\u{200b}"));
    assert!(!is_blank_str("\u{180e}"));
}
