use rat_quickdb::ddl::{
    create_index_sql_exec, create_table_sql_exec, drop_table_sql_exec, fields_for_columns, sql_type_exec,
    sqlite_find_by_id_sql, table_exists_sql_exec, Dialect,
};
use rat_quickdb::model::FieldType;
use rat_quickdb::schema::{
    ColumnDefinition, ColumnType, ConstraintDefinition, ConstraintType, IndexDefinition, ReferentialAction, TableSchema,
};
use rat_quickdb::types::{DataValue, Entry};

fn col(name: &str, t: ColumnType) -> ColumnDefinition {
    ColumnDefinition::new(name.to_string(), t)
}

#[test]
fn create_table_statements() {
    let fields = vec![
        ("name".to_string(), FieldType::String { max_length: Some(50), min_length: None, regex: None }),
        ("age".to_string(), FieldType::Integer { min_value: None, max_value: None }),
    ];
    assert_eq!(
        create_table_sql_exec(Dialect::SQLite, "users", &fields),
        "CREATE TABLE IF NOT EXISTS users (id INTEGER PRIMARY KEY AUTOINCREMENT, name VARCHAR(50), age INTEGER)"
    );
    assert_eq!(
        create_table_sql_exec(Dialect::MySQL, "users", &fields),
        "CREATE TABLE IF NOT EXISTS users (id BIGINT UNSIGNED NOT NULL AUTO_INCREMENT PRIMARY KEY, name VARCHAR(50), age INT)"
    );
    let with_id = vec![
        ("id".to_string(), FieldType::Integer { min_value: None, max_value: None }),
        ("data".to_string(), FieldType::Json),
    ];
    assert_eq!(
        create_table_sql_exec(Dialect::PostgreSQL, "t", &with_id),
        "CREATE TABLE IF NOT EXISTS t (id SERIAL PRIMARY KEY, data JSONB)"
    );
    let uuid_id = vec![("id".to_string(), FieldType::Uuid)];
    assert_eq!(create_table_sql_exec(Dialect::MySQL, "t", &uuid_id), "CREATE TABLE IF NOT EXISTS t (id VARCHAR(36) AUTO_INCREMENT PRIMARY KEY)");
}

#[test]
fn column_types_per_dialect() {
    assert_eq!(sql_type_exec(Dialect::PostgreSQL, &FieldType::Double), "DOUBLE PRECISION");
    assert_eq!(sql_type_exec(Dialect::SQLite, &FieldType::Boolean), "INTEGER");
    assert_eq!(sql_type_exec(Dialect::MySQL, &FieldType::Decimal { precision: 10, scale: 2 }), "DECIMAL(10,2)");
    assert_eq!(sql_type_exec(Dialect::SQLite, &FieldType::Decimal { precision: 10, scale: 2 }), "REAL");
    assert_eq!(sql_type_exec(Dialect::PostgreSQL, &FieldType::DateTime), "TIMESTAMPTZ");
    assert_eq!(sql_type_exec(Dialect::MySQL, &FieldType::Reference { target_collection: "x".to_string() }), "VARCHAR(255)");
    assert_eq!(sql_type_exec(Dialect::PostgreSQL, &FieldType::Binary), "BYTEA");
}

#[test]
fn index_drop_and_lookup_statements() {
    let cols = vec!["a".to_string(), "b".to_string()];
    assert_eq!(create_index_sql_exec(Dialect::SQLite, "t", "idx_ab", &cols, true), "CREATE UNIQUE INDEX IF NOT EXISTS idx_ab ON t (a, b)");
    assert_eq!(create_index_sql_exec(Dialect::MySQL, "t", "idx_ab", &cols, false), "CREATE INDEX idx_ab ON t (a, b)");
    assert_eq!(drop_table_sql_exec(Dialect::PostgreSQL, "t"), "DROP TABLE IF EXISTS t CASCADE");
    assert_eq!(drop_table_sql_exec(Dialect::MySQL, "t"), "DROP TABLE IF EXISTS t");
    assert_eq!(table_exists_sql_exec(Dialect::SQLite), "SELECT name FROM sqlite_master WHERE type='table' AND name=?");
    assert_eq!(sqlite_find_by_id_sql("users"), "SELECT * FROM users WHERE id = ? LIMIT 1");
}

#[test]
fn schema_validation_reports_first_problem() {
    let empty = TableSchema::new("t".to_string());
    assert_eq!(empty.validate().unwrap_err(), "表必须至少有一个列");

    let dup = TableSchema::new("t".to_string()).add_column(col("a", ColumnType::Integer)).add_column(col("a", ColumnType::Text));
    assert_eq!(dup.validate().unwrap_err(), "列名 'a' 重复");

    let bad_index = TableSchema::new("t".to_string())
        .add_column(col("a", ColumnType::Integer))
        .add_index(IndexDefinition::new("i".to_string(), vec!["b".to_string()]));
    assert_eq!(bad_index.validate().unwrap_err(), "索引 'i' 引用的列 'b' 不存在");

    let dup_index = TableSchema::new("t".to_string())
        .add_column(col("a", ColumnType::Integer))
        .add_index(IndexDefinition::new("i".to_string(), vec!["a".to_string()]))
        .add_index(IndexDefinition::new("i".to_string(), vec!["a".to_string()]).unique());
    assert_eq!(dup_index.validate().unwrap_err(), "索引名 'i' 重复");

    let bad_constraint = TableSchema::new("t".to_string())
        .add_column(col("a", ColumnType::Integer))
        .add_constraint(ConstraintDefinition::unique("u".to_string(), vec!["z".to_string()]));
    assert_eq!(bad_constraint.validate().unwrap_err(), "约束 'u' 引用的列 'z' 不存在");

    let dup_constraint = TableSchema::new("t".to_string())
        .add_column(col("a", ColumnType::Integer))
        .add_constraint(ConstraintDefinition::primary_key("c".to_string(), vec!["a".to_string()]))
        .add_constraint(ConstraintDefinition::check("c".to_string(), "a > 0".to_string()));
    assert_eq!(dup_constraint.validate().unwrap_err(), "约束名 'c' 重复");

    let good = TableSchema::new("t".to_string())
        .add_column(col("id", ColumnType::BigInteger).primary_key().auto_increment())
        .add_column(col("name", ColumnType::String { length: Some(20) }).not_null().unique())
        .add_index(IndexDefinition::new("idx_name".to_string(), vec!["name".to_string()]))
        .add_constraint(
            ConstraintDefinition::foreign_key("fk".to_string(), vec!["id".to_string()], "o".to_string(), vec!["id".to_string()])
                .on_delete(ReferentialAction::Cascade),
        );
    assert!(good.validate().is_ok());
    assert!(good.has_column("name"));
    assert!(!good.has_column("nope"));
    assert!(good.has_index("idx_name"));
    assert_eq!(good.get_primary_key_columns().len(), 1);
    assert_eq!(good.get_column("name").unwrap().nullable, false);
    assert_eq!(good.get_index("idx_name").unwrap().columns, vec!["name".to_string()]);
    assert_eq!(good.constraints[0].constraint_type, ConstraintType::ForeignKey);
    assert_eq!(good.constraints[0].on_delete, Some(ReferentialAction::Cascade));
}

#[test]
fn inferred_schema_from_a_record() {
    let data = vec![
        Entry { key: "name".to_string(), value: DataValue::String("a".to_string()) },
        Entry { key: "age".to_string(), value: DataValue::Int(3) },
        Entry { key: "note".to_string(), value: DataValue::Null },
    ];
    let s = TableSchema::infer_from_data("people".to_string(), &data);
    assert_eq!(s.name, "people");
    let names: Vec<&str> = s.columns.iter().map(|c| c.name.as_str()).collect();
    assert_eq!(names, vec!["id", "name", "age", "note"]);
    assert!(s.columns[0].primary_key && s.columns[0].auto_increment);
    assert!(matches!(s.columns[0].column_type, ColumnType::BigInteger));
    assert!(matches!(s.columns[1].column_type, ColumnType::String { length: Some(255) }));
    assert!(matches!(s.columns[2].column_type, ColumnType::BigInteger));
    assert!(s.columns[3].nullable);
    assert!(!s.columns[1].nullable);
    assert!(s.validate().is_ok());

    let with_id = vec![Entry { key: "id".to_string(), value: DataValue::String("x".to_string()) }];
    let s = TableSchema::infer_from_data("t".to_string(), &with_id);
    assert_eq!(s.columns.len(), 1);
    assert!(s.columns[0].primary_key);
    assert!(!s.columns[0].auto_increment);

    let fields = fields_for_columns(&TableSchema::infer_from_data("people".to_string(), &data).columns);
    let sql = create_table_sql_exec(Dialect::SQLite, "people", &fields);
    assert!(sql.starts_with("CREATE TABLE IF NOT EXISTS people (id INTEGER PRIMARY KEY"));
}
