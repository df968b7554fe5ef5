use rat_quickdb::error::{ErrorBuilder, QuickDbError};
use rat_quickdb::types::{to_ascii_lower, DataValue, DatabaseType, IdType, QueryCondition, QueryOperator};

#[test]
fn test_database_type_parsing() {
    assert_eq!(DatabaseType::from_str("sqlite").unwrap(), DatabaseType::SQLite);
    assert_eq!(DatabaseType::from_str("postgresql").unwrap(), DatabaseType::PostgreSQL);
    assert_eq!(DatabaseType::from_str("mysql").unwrap(), DatabaseType::MySQL);
    assert_eq!(DatabaseType::from_str("mongodb").unwrap(), DatabaseType::MongoDB);

    assert!(DatabaseType::from_str("unknown").is_err());
}

#[test]
fn test_error_creation() {
    let err = ErrorBuilder::connection_error("测试连接失败");
    assert!(matches!(err, QuickDbError::ConnectionError { .. }));
    assert_eq!(err.to_string(), "数据库连接失败: 测试连接失败");
}

#[test]
fn test_error_macro() {
    let err = ErrorBuilder::validation_error("用户名", "不能为空");
    assert!(matches!(err, QuickDbError::ValidationError { .. }));
    assert_eq!(err.to_string(), "模型验证失败: 用户名 - 不能为空");
}

#[test]
fn test_data_value_type_name() {
    assert_eq!(DataValue::Null.kind_name(), "null");
    assert_eq!(DataValue::Bool(true).kind_name(), "bool");
    assert_eq!(DataValue::String("test".to_string()).kind_name(), "string");
}

#[test]
fn database_type_aliases_and_case() {
    assert_eq!(DatabaseType::from_str("Postgres").unwrap(), DatabaseType::PostgreSQL);
    assert_eq!(DatabaseType::from_str("PG").unwrap(), DatabaseType::PostgreSQL);
    assert_eq!(DatabaseType::from_str("Mongo").unwrap(), DatabaseType::MongoDB);
    assert_eq!(DatabaseType::from_str("SQLite").unwrap(), DatabaseType::SQLite);
    match DatabaseType::from_str("oracle") {
        Err(QuickDbError::UnsupportedDatabase { db_type }) => assert_eq!(db_type, "oracle"),
        other => panic!("unexpected {:?}", other),
    }
    let e = DatabaseType::from_str("oracle").unwrap_err();
    assert_eq!(e.to_string(), "不支持的数据库类型: oracle");
}

#[test]
fn database_type_names_round_trip() {
    for t in [DatabaseType::SQLite, DatabaseType::PostgreSQL, DatabaseType::MySQL, DatabaseType::MongoDB] {
        assert_eq!(DatabaseType::from_str(t.as_str()).unwrap(), t);
    }
    assert_eq!(DatabaseType::MySQL.as_str(), "mysql");
}

#[test]
fn ascii_lowering() {
    assert_eq!(to_ascii_lower("AbC-Ü9"), "abc-Ü9");
}

#[test]
fn error_texts_per_variant() {
    assert_eq!(ErrorBuilder::pool_error("满").to_string(), "连接池操作失败: 满");
    assert_eq!(ErrorBuilder::query_error("x").to_string(), "查询执行失败: x");
    assert_eq!(ErrorBuilder::serialization_error("x").to_string(), "数据序列化失败: x");
    assert_eq!(ErrorBuilder::config_error("x").to_string(), "配置错误: x");
    assert_eq!(ErrorBuilder::alias_not_found("db").to_string(), "数据库别名 'db' 未找到");
    assert_eq!(ErrorBuilder::unsupported_database("x").to_string(), "不支持的数据库类型: x");
    assert_eq!(QuickDbError::TransactionError { message: "x".to_string() }.to_string(), "事务操作失败: x");
    assert_eq!(QuickDbError::TaskExecutionError("x".to_string()).to_string(), "任务执行失败: x");
    assert_eq!(QuickDbError::IoError("x".to_string()).to_string(), "IO 操作失败: x");
    assert_eq!(QuickDbError::JsonError("x".to_string()).to_string(), "JSON 处理失败: x");
    assert_eq!(QuickDbError::Other("x".to_string()).to_string(), "操作失败: x");
}

#[test]
fn kind_names_of_every_variant() {
    assert_eq!(DataValue::Int(1).kind_name(), "int");
    assert_eq!(DataValue::Float(0).kind_name(), "float");
    assert_eq!(DataValue::Bytes(vec![1]).kind_name(), "bytes");
    assert_eq!(DataValue::Uuid(7).kind_name(), "uuid");
    assert_eq!(DataValue::Json("{}".to_string()).kind_name(), "json");
    assert_eq!(DataValue::Array(vec![]).kind_name(), "array");
    assert_eq!(DataValue::Object(vec![]).kind_name(), "object");
    assert!(DataValue::Null.is_null());
    assert!(!DataValue::Int(0).is_null());
}

#[test]
fn id_type_text() {
    assert_eq!(IdType::from_i64(-42).to_string(), "-42");
    assert_eq!(IdType::from_i64(0).to_string(), "0");
    assert_eq!(IdType::from_str("abc").to_string(), "abc");
    assert_eq!(IdType::from_string("x".to_string()).to_string(), "x");
}

#[test]
fn deep_clone_keeps_nested_values() {
    let v = DataValue::Array(vec![DataValue::Int(1), DataValue::String("a".to_string())]);
    match v.deep_clone() {
        DataValue::Array(items) => {
            assert_eq!(items.len(), 2);
            assert!(matches!(items[0], DataValue::Int(1)));
            assert!(matches!(&items[1], DataValue::String(s) if s == "a"));
        }
        other => panic!("unexpected {:?}", other),
    }
    let c = QueryCondition::new("age", QueryOperator::Gt, DataValue::Int(3));
    let d = c.deep_clone();
    assert_eq!(d.field, "age");
    assert_eq!(d.operator, QueryOperator::Gt);
}
