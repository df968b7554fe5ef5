use rat_quickdb::error::QuickDbError;
use rat_quickdb::query_builder::{build_where_clause, JoinType, SqlQueryBuilder};
use rat_quickdb::types::{DataValue, Entry, QueryCondition, QueryOperator, SortDirection};

fn cond(field: &str, op: QueryOperator, v: DataValue) -> QueryCondition {
    QueryCondition::new(field, op, v)
}

fn s(x: &str) -> DataValue {
    DataValue::String(x.to_string())
}

#[test]
fn where_clause_joins_conditions_with_and() {
    let conds = vec![
        cond("age", QueryOperator::Gte, DataValue::Int(18)),
        cond("name", QueryOperator::Contains, s("li")),
        cond("id", QueryOperator::In, DataValue::Array(vec![DataValue::Int(1), DataValue::Int(2)])),
        cond("deleted_at", QueryOperator::IsNull, DataValue::Null),
    ];
    let (sql, params) = build_where_clause(&conds).unwrap();
    assert_eq!(sql, "age >= ? AND name LIKE ? AND id IN (?, ?) AND deleted_at IS NULL");
    assert_eq!(params.len(), 4);
    assert!(matches!(params[0], DataValue::Int(18)));
    assert!(matches!(&params[1], DataValue::String(t) if t == "%li%"));
    assert!(matches!(params[2], DataValue::Int(1)));
    assert!(matches!(params[3], DataValue::Int(2)));
}

#[test]
fn where_clause_like_patterns_and_other_operators() {
    let conds = vec![
        cond("a", QueryOperator::StartsWith, s("x")),
        cond("b", QueryOperator::EndsWith, s("y")),
        cond("c", QueryOperator::Ne, DataValue::Bool(true)),
        cond("d", QueryOperator::Regex, s("^z")),
        cond("e", QueryOperator::NotIn, DataValue::Array(vec![DataValue::Int(5)])),
        cond("f", QueryOperator::Exists, DataValue::Null),
        cond("g", QueryOperator::Lt, DataValue::Int(1)),
        cond("h", QueryOperator::Lte, DataValue::Int(2)),
        cond("i", QueryOperator::Gt, DataValue::Int(3)),
        cond("j", QueryOperator::Eq, DataValue::Int(4)),
        cond("k", QueryOperator::IsNotNull, DataValue::Null),
    ];
    let (sql, params) = build_where_clause(&conds).unwrap();
    assert_eq!(
        sql,
        "a LIKE ? AND b LIKE ? AND c != ? AND d REGEXP ? AND e NOT IN (?) AND f IS NOT NULL AND g < ? AND h <= ? AND i > ? AND j = ? AND k IS NOT NULL"
    );
    assert_eq!(params.len(), 9);
    assert!(matches!(&params[0], DataValue::String(t) if t == "x%"));
    assert!(matches!(&params[1], DataValue::String(t) if t == "%y"));
}

#[test]
fn where_clause_rejects_non_array_in() {
    let conds = vec![cond("a", QueryOperator::Eq, DataValue::Int(1)), cond("id", QueryOperator::In, DataValue::Int(1))];
    match build_where_clause(&conds) {
        Err(QuickDbError::QueryError { message }) => assert_eq!(message, "IN 操作符需要数组类型的值"),
        other => panic!("unexpected {:?}", other),
    }
    let conds = vec![cond("id", QueryOperator::NotIn, s("x"))];
    match build_where_clause(&conds) {
        Err(QuickDbError::QueryError { message }) => assert_eq!(message, "NOT IN 操作符需要数组类型的值"),
        other => panic!("unexpected {:?}", other),
    }
    let (sql, params) = build_where_clause(&vec![]).unwrap();
    assert_eq!(sql, "");
    assert!(params.is_empty());
}

#[test]
fn select_with_every_clause() {
    let b = SqlQueryBuilder::new()
        .select(&["id", "name"])
        .from("users")
        .join(JoinType::Left, "orders", "orders.user_id = users.id")
        .where_condition(cond("age", QueryOperator::Gt, DataValue::Int(20)))
        .group_by(&["name"])
        .having(cond("cnt", QueryOperator::Gt, DataValue::Int(1)))
        .order_by("name", SortDirection::Desc)
        .limit(10)
        .offset(5);
    let (sql, params) = b.build().unwrap();
    assert_eq!(
        sql,
        "SELECT id, name FROM users LEFT JOIN orders ON orders.user_id = users.id WHERE age > ? GROUP BY name HAVING cnt > ? ORDER BY name DESC LIMIT 10 OFFSET 5"
    );
    assert_eq!(params.len(), 2);
    assert!(matches!(params[0], DataValue::Int(20)));
    assert!(matches!(params[1], DataValue::Int(1)));
}

#[test]
fn select_star_and_missing_table() {
    let (sql, params) = SqlQueryBuilder::new().from("t").build().unwrap();
    assert_eq!(sql, "SELECT * FROM t");
    assert!(params.is_empty());
    match SqlQueryBuilder::new().build() {
        Err(QuickDbError::QueryError { message }) => assert_eq!(message, "表名不能为空"),
        other => panic!("unexpected {:?}", other),
    }
}

#[test]
fn insert_update_delete() {
    let values = vec![
        Entry { key: "name".to_string(), value: s("a") },
        Entry { key: "age".to_string(), value: DataValue::Int(3) },
    ];
    let (sql, params) = SqlQueryBuilder::new().insert(values).from("users").returning(&["id"]).build().unwrap();
    assert_eq!(sql, "INSERT INTO users (name, age) VALUES (?, ?) RETURNING id");
    assert_eq!(params.len(), 2);

    let values = vec![Entry { key: "age".to_string(), value: DataValue::Int(4) }];
    let (sql, params) = SqlQueryBuilder::new()
        .update(values)
        .from("users")
        .where_conditions(&[cond("id", QueryOperator::Eq, DataValue::Int(9))])
        .build()
        .unwrap();
    assert_eq!(sql, "UPDATE users SET age = ? WHERE id = ?");
    assert!(matches!(params[0], DataValue::Int(4)));
    assert!(matches!(params[1], DataValue::Int(9)));

    let (sql, params) = SqlQueryBuilder::new()
        .delete()
        .from("users")
        .where_condition(cond("id", QueryOperator::Eq, DataValue::Int(9)))
        .build()
        .unwrap();
    assert_eq!(sql, "DELETE FROM users WHERE id = ?");
    assert_eq!(params.len(), 1);

    match SqlQueryBuilder::new().insert(vec![]).from("users").build() {
        Err(QuickDbError::QueryError { message }) => assert_eq!(message, "插入值不能为空"),
        other => panic!("unexpected {:?}", other),
    }
    match SqlQueryBuilder::new().update(vec![]).from("users").build() {
        Err(QuickDbError::QueryError { message }) => assert_eq!(message, "更新值不能为空"),
        other => panic!("unexpected {:?}", other),
    }
}

#[test]
fn every_placeholder_has_its_parameter() {
    let marks = |sql: &str| sql.chars().filter(|c| *c == '?').count();
    let select = SqlQueryBuilder::new()
        .select(&["id", "name"])
        .from("users")
        .join(JoinType::Left, "orders", "orders.user_id = users.id")
        .where_condition(cond("age", QueryOperator::Gt, DataValue::Int(30)))
        .where_condition(cond(
            "id",
            QueryOperator::In,
            DataValue::Array(vec![DataValue::Int(1), DataValue::Int(2), DataValue::Int(3)]),
        ))
        .group_by(&["name"])
        .having(cond("name", QueryOperator::Ne, s("x")))
        .order_by("name", SortDirection::Desc)
        .limit(10);
    let (sql, params) = select.build().unwrap();
    assert_eq!(params.len(), 5);
    assert_eq!(marks(&sql), params.len());

    let insert = SqlQueryBuilder::new().insert(vec![
        Entry { key: "a".to_string(), value: DataValue::Int(1) },
        Entry { key: "b".to_string(), value: DataValue::Null },
    ]).from("t");
    let (sql, params) = insert.build().unwrap();
    assert_eq!((marks(&sql), params.len()), (2, 2));

    let update = SqlQueryBuilder::new()
        .update(vec![Entry { key: "a".to_string(), value: DataValue::Int(1) }])
        .from("t")
        .where_condition(cond("id", QueryOperator::NotIn, DataValue::Array(vec![DataValue::Int(4), DataValue::Int(5)])));
    let (sql, params) = update.build().unwrap();
    assert_eq!((marks(&sql), params.len()), (3, 3));

    let delete = SqlQueryBuilder::new().delete().from("t").where_condition(cond("x", QueryOperator::IsNull, DataValue::Null));
    let (sql, params) = delete.build().unwrap();
    assert_eq!((marks(&sql), params.len()), (0, 0));
}
