use rat_quickdb::adapter::mysql_integer_read;
use rat_quickdb::adapter::{mysql_bool_read, mysql_unsigned_read};
use rat_quickdb::adapter::{postgres_integer_read, sqlite_column_read, text_column_read};
use rat_quickdb::adapter::row_to_record;
use rat_quickdb::adapter::{postgres_insert_data, postgres_insert_result, postgres_serial_default};
use rat_quickdb::adapter::{
    bool_from_text, conditions_to_groups, count_from_rows, created_id, dialect_for, int_from_text, mysql_column_kind,
    mysql_insert_result, parse_i64, parse_u64, postgres_column_kind, sqlite_insert_result, sqlite_int_value,
    unsigned_from_text, unsigned_value, ColumnRead, MysqlAdapter,
};
use rat_quickdb::ddl::Dialect;
use rat_quickdb::error::QuickDbError;
use rat_quickdb::types::{DataValue, DatabaseType, Entry, LogicalOperator, QueryCondition, QueryConditionGroup, QueryOperator};

fn e(k: &str, v: DataValue) -> Entry {
    Entry { key: k.to_string(), value: v }
}

fn obj_keys(v: &DataValue) -> Vec<String> {
    match v {
        DataValue::Object(es) => es.iter().map(|x| x.key.clone()).collect(),
        other => panic!("unexpected {:?}", other),
    }
}

#[test]
fn column_kinds() {
    assert_eq!(mysql_column_kind("BIGINT"), ColumnRead::Integer);
    assert_eq!(mysql_column_kind("INT UNSIGNED"), ColumnRead::UnsignedInteger);
    assert_eq!(mysql_column_kind("DOUBLE"), ColumnRead::Float);
    assert_eq!(mysql_column_kind("BOOL"), ColumnRead::Boolean);
    assert_eq!(mysql_column_kind("CHAR"), ColumnRead::Text);
    assert_eq!(mysql_column_kind("JSON"), ColumnRead::Json);
    assert_eq!(mysql_column_kind("TIMESTAMP"), ColumnRead::DateTime);
    assert_eq!(mysql_column_kind("BLOB"), ColumnRead::Other);
    assert_eq!(postgres_column_kind("INT8"), ColumnRead::Integer);
    assert_eq!(postgres_column_kind("FLOAT4"), ColumnRead::Float);
    assert_eq!(postgres_column_kind("UUID"), ColumnRead::Uuid);
    assert_eq!(postgres_column_kind("JSONB"), ColumnRead::Json);
    assert_eq!(postgres_column_kind("TIMESTAMPTZ"), ColumnRead::DateTime);
    assert_eq!(postgres_column_kind("int8"), ColumnRead::Other);
}

#[test]
fn numbers_read_from_text() {
    assert_eq!(parse_i64("-9223372036854775808"), Some(i64::MIN));
    assert_eq!(parse_i64("+12"), Some(12));
    assert_eq!(parse_i64("9223372036854775808"), None);
    assert_eq!(parse_i64(""), None);
    assert_eq!(parse_i64("-"), None);
    assert_eq!(parse_i64("1 "), None);
    assert_eq!(parse_u64("18446744073709551615"), Some(u64::MAX));
    assert_eq!(parse_u64("-1"), None);
    assert!(matches!(int_from_text("42".to_string()), DataValue::Int(42)));
    assert!(matches!(int_from_text("4x".to_string()), DataValue::String(s) if s == "4x"));
    assert!(matches!(unsigned_from_text("7".to_string()), DataValue::Int(7)));
    assert!(matches!(unsigned_from_text("18446744073709551615".to_string()), DataValue::String(s) if s == "18446744073709551615"));
    assert!(matches!(unsigned_from_text("-3".to_string()), DataValue::Int(-3)));
    assert!(matches!(unsigned_value(9223372036854775807), DataValue::Int(i64::MAX)));
    assert!(matches!(unsigned_value(9223372036854775808), DataValue::String(s) if s == "9223372036854775808"));
}

#[test]
fn flags_read_from_text_and_integers() {
    assert!(matches!(bool_from_text("YES".to_string()), DataValue::Bool(true)));
    assert!(matches!(bool_from_text("Off".to_string()), DataValue::Bool(false)));
    assert!(matches!(bool_from_text("0".to_string()), DataValue::Bool(false)));
    assert!(matches!(bool_from_text("maybe".to_string()), DataValue::String(s) if s == "maybe"));
    assert!(matches!(sqlite_int_value("is_active", 1), DataValue::Bool(true)));
    assert!(matches!(sqlite_int_value("enabled", 0), DataValue::Bool(false)));
    assert!(matches!(sqlite_int_value("enabled", 2), DataValue::Int(2)));
    assert!(matches!(sqlite_int_value("age", 1), DataValue::Int(1)));
}

#[test]
fn insert_results() {
    let r = mysql_insert_result(5, 1);
    assert_eq!(obj_keys(&r), vec!["id".to_string(), "affected_rows".to_string()]);
    match &r {
        DataValue::Object(es) => {
            assert!(matches!(es[0].value, DataValue::Int(5)));
            assert!(matches!(es[1].value, DataValue::Int(1)));
        }
        _ => unreachable!(),
    }
    let data = vec![e("name", DataValue::String("a".to_string())), e("id", DataValue::String("u1".to_string()))];
    assert!(matches!(sqlite_insert_result(&data, 9, 1), DataValue::String(s) if s == "u1"));
    let data = vec![e("_id", DataValue::Int(4))];
    assert!(matches!(sqlite_insert_result(&data, 9, 1), DataValue::Int(4)));
    assert!(matches!(sqlite_insert_result(&vec![], 9, 1), DataValue::Int(9)));
    let r = sqlite_insert_result(&vec![], 0, 0);
    assert_eq!(obj_keys(&r), vec!["id".to_string(), "affected_rows".to_string()]);
}

#[test]
fn counts_and_created_ids() {
    let rows = vec![DataValue::Object(vec![e("count", DataValue::Int(12))])];
    assert_eq!(count_from_rows(&rows), 12);
    assert_eq!(count_from_rows(&vec![]), 0);
    assert_eq!(count_from_rows(&vec![DataValue::Object(vec![e("n", DataValue::Int(3))])]), 0);

    assert!(matches!(created_id(DataValue::Int(3)).unwrap(), DataValue::Int(3)));
    let r = DataValue::Object(vec![e("_id", DataValue::String("x".to_string()))]);
    assert!(matches!(created_id(r).unwrap(), DataValue::String(s) if s == "x"));
    match created_id(DataValue::Object(vec![e("n", DataValue::Int(1))])) {
        Err(QuickDbError::QueryError { message }) => assert_eq!(message, "创建操作返回的数据中缺少id字段"),
        other => panic!("unexpected {:?}", other),
    }
}

#[test]
fn plain_conditions_become_one_and_group() {
    assert!(conditions_to_groups(&[]).is_empty());
    let cs = vec![
        QueryCondition::new("a", QueryOperator::Eq, DataValue::Int(1)),
        QueryCondition::new("b", QueryOperator::Lt, DataValue::Int(2)),
    ];
    let gs = conditions_to_groups(&cs);
    assert_eq!(gs.len(), 1);
    match &gs[0] {
        QueryConditionGroup::Group { operator, conditions } => {
            assert_eq!(*operator, LogicalOperator::And);
            assert_eq!(conditions.len(), 2);
            assert!(matches!(&conditions[1], QueryConditionGroup::Single(c) if c.field == "b"));
        }
        other => panic!("unexpected {:?}", other),
    }
}

#[test]
fn dialects_and_adapter_names() {
    assert_eq!(dialect_for(DatabaseType::SQLite), Some(Dialect::SQLite));
    assert_eq!(dialect_for(DatabaseType::MySQL), Some(Dialect::MySQL));
    assert_eq!(dialect_for(DatabaseType::MongoDB), None);
    assert_eq!(MysqlAdapter::new().name, "MySQL");
}

#[test]
fn mysql_integer_reads_take_the_first_that_worked() {
    assert!(matches!(mysql_integer_read(Some(Some(5)), Some(Some(6)), None, None, None, "c").unwrap(), DataValue::Int(5)));
    assert!(matches!(mysql_integer_read(Some(None), Some(Some(6)), None, None, None, "c").unwrap(), DataValue::Null));
    assert!(matches!(mysql_integer_read(None, Some(Some(-6)), None, None, None, "c").unwrap(), DataValue::Int(-6)));
    assert!(matches!(
        mysql_integer_read(None, None, Some(Some(u64::MAX)), None, None, "c").unwrap(),
        DataValue::String(s) if s == "18446744073709551615"
    ));
    assert!(matches!(mysql_integer_read(None, None, None, Some(Some(7)), None, "c").unwrap(), DataValue::Int(7)));
    assert!(matches!(
        mysql_integer_read(None, None, None, None, Some(Some("12".to_string())), "c").unwrap(),
        DataValue::Int(12)
    ));
    assert!(matches!(
        mysql_integer_read(None, None, None, None, Some(Some("x1".to_string())), "c").unwrap(),
        DataValue::String(s) if s == "x1"
    ));
    match mysql_integer_read(None, None, None, None, None, "age") {
        Err(QuickDbError::SerializationError { message }) => {
            assert_eq!(message, "无法读取整数字段 'age' 的值，所有类型转换都失败")
        }
        other => panic!("unexpected {:?}", other),
    }
}

#[test]
fn mysql_unsigned_and_bool_reads() {
    assert!(matches!(mysql_unsigned_read(Some(Some(3)), None, None), DataValue::Int(3)));
    assert!(matches!(mysql_unsigned_read(Some(Some(-1)), Some(Some(u64::MAX)), None), DataValue::Int(-1)));
    assert!(matches!(mysql_unsigned_read(Some(Some(-1)), None, None), DataValue::Null));
    assert!(matches!(mysql_unsigned_read(None, Some(Some(u64::MAX)), None), DataValue::String(_)));
    assert!(matches!(mysql_unsigned_read(None, None, Some(Some("+9".to_string()))), DataValue::Int(9)));
    assert!(matches!(mysql_unsigned_read(None, None, None), DataValue::Null));
    assert!(matches!(mysql_bool_read(Some(Some(true)), None, None, "b").unwrap(), DataValue::Bool(true)));
    assert!(matches!(mysql_bool_read(None, Some(Some(2)), None, "b").unwrap(), DataValue::Bool(true)));
    assert!(matches!(mysql_bool_read(None, Some(Some(0)), None, "b").unwrap(), DataValue::Bool(false)));
    assert!(matches!(mysql_bool_read(None, None, Some(Some("No".to_string())), "b").unwrap(), DataValue::Bool(false)));
    match mysql_bool_read(None, None, None, "flag") {
        Err(QuickDbError::SerializationError { message }) => assert_eq!(message, "无法读取布尔字段 'flag'"),
        other => panic!("unexpected {:?}", other),
    }
}

#[test]
fn postgres_and_sqlite_reads() {
    assert!(matches!(postgres_integer_read(Some(Some(4)), Some(Some(5))), DataValue::Int(4)));
    assert!(matches!(postgres_integer_read(None, Some(Some(5))), DataValue::Int(5)));
    assert!(matches!(postgres_integer_read(None, None), DataValue::Null));
    assert!(matches!(text_column_read(Some(Some("t".to_string()))), DataValue::String(s) if s == "t"));
    assert!(matches!(text_column_read(None), DataValue::Null));
    assert!(matches!(sqlite_column_read("n", Some(Some("x".to_string())), Some(Some(1)), None, None, None), DataValue::String(_)));
    assert!(matches!(sqlite_column_read("active", None, Some(Some(1)), None, None, None), DataValue::Bool(true)));
    assert!(matches!(sqlite_column_read("n", None, None, Some(Some(2.5f64.to_bits())), None, None), DataValue::Float(b) if f64::from_bits(b) == 2.5));
    assert!(matches!(sqlite_column_read("n", None, None, None, None, Some(Some(vec![1]))), DataValue::Bytes(b) if b == vec![1]));
    assert!(matches!(sqlite_column_read("n", None, Some(None), None, Some(Some(true)), None), DataValue::Null));
    assert!(matches!(sqlite_column_read("n", None, None, None, None, None), DataValue::Null));
}

#[test]
fn rows_become_records() {
    let cols = vec![e("a", DataValue::Int(1)), e("b", DataValue::Int(2)), e("a", DataValue::Int(3))];
    let rec = row_to_record(&cols);
    assert_eq!(obj_keys(&DataValue::Object(rec)), vec!["a".to_string(), "b".to_string()]);
    let rec = row_to_record(&cols);
    assert!(matches!(rec[0].value, DataValue::Int(3)));
}

#[test]
fn postgres_inserts() {
    assert!(postgres_serial_default("nextval('t_id_seq'::regclass)"));
    assert!(!postgres_serial_default("0"));
    let data = vec![e("id", DataValue::Int(7)), e("name", DataValue::String("x".to_string()))];
    let keys = |v: Vec<Entry>| v.into_iter().map(|x| x.key).collect::<Vec<_>>();
    assert_eq!(keys(postgres_insert_data(&data, true)), vec!["name".to_string()]);
    assert_eq!(keys(postgres_insert_data(&data, false)), vec!["id".to_string(), "name".to_string()]);
    let no_id = vec![e("name", DataValue::Null)];
    assert_eq!(keys(postgres_insert_data(&no_id, false)), vec!["name".to_string()]);
    assert!(matches!(postgres_insert_result(vec![DataValue::Int(9), DataValue::Int(8)]), DataValue::Int(9)));
    let r = postgres_insert_result(vec![]);
    assert_eq!(obj_keys(&r), vec!["affected_rows".to_string()]);
}
