use rat_quickdb::mongo::id_query_document;
use rat_quickdb::mongo::{
    bson_to_data_value, data_value_to_bson, insert_field, object_id_hex, object_id_or_string, parse_object_id,
    single_field, Bson, BsonField, MongoAdapter,
};
use rat_quickdb::types::{DataValue, Entry, LogicalOperator, QueryCondition, QueryConditionGroup, QueryOperator};

fn cond(field: &str, op: QueryOperator, v: DataValue) -> QueryCondition {
    QueryCondition::new(field, op, v)
}

fn s(x: &str) -> DataValue {
    DataValue::String(x.to_string())
}

fn keys(doc: &[BsonField]) -> Vec<&str> {
    doc.iter().map(|f| f.key.as_str()).collect()
}

const OID: &str = "507f1f77bcf86cd799439011";

#[test]
fn object_ids_parse_and_print() {
    let bytes = parse_object_id(OID).unwrap();
    assert_eq!(bytes, vec![0x50, 0x7f, 0x1f, 0x77, 0xbc, 0xf8, 0x6c, 0xd7, 0x99, 0x43, 0x90, 0x11]);
    assert_eq!(object_id_hex(&bytes), OID);
    assert!(parse_object_id("507f1f77bcf86cd79943901").is_none());
    assert!(parse_object_id("507f1f77bcf86cd79943901z").is_none());
    assert!(matches!(object_id_or_string(OID), Bson::ObjectId(_)));
    assert!(matches!(object_id_or_string(&format!("ObjectId(\"{}\")", OID)), Bson::ObjectId(b) if b == bytes));
    assert!(matches!(object_id_or_string("abc"), Bson::String(t) if t == "abc"));
}

#[test]
fn query_document_from_conditions() {
    let a = MongoAdapter;
    let conds = vec![
        cond("id", QueryOperator::Eq, s(OID)),
        cond("name", QueryOperator::Contains, s("bo")),
        cond("age", QueryOperator::Gte, DataValue::Int(18)),
        cond("tag", QueryOperator::In, DataValue::Array(vec![s("x"), s("y")])),
        cond("deleted", QueryOperator::IsNull, DataValue::Null),
    ];
    let doc = a.build_query_document(&conds);
    assert_eq!(keys(&doc), vec!["_id", "name", "age", "tag", "deleted"]);
    assert!(matches!(&doc[0].value, Bson::ObjectId(b) if b.len() == 12));
    match &doc[1].value {
        Bson::Document(d) => {
            assert_eq!(keys(d), vec!["$regex", "$options"]);
            assert!(matches!(&d[0].value, Bson::String(p) if p == "bo"));
            assert!(matches!(&d[1].value, Bson::String(o) if o == "i"));
        }
        other => panic!("unexpected {:?}", other),
    }
    match &doc[2].value {
        Bson::Document(d) => {
            assert_eq!(keys(d), vec!["$gte"]);
            assert!(matches!(d[0].value, Bson::Int64(18)));
        }
        other => panic!("unexpected {:?}", other),
    }
    match &doc[3].value {
        Bson::Document(d) => {
            assert_eq!(keys(d), vec!["$in"]);
            assert!(matches!(&d[0].value, Bson::Array(v) if v.len() == 2));
        }
        other => panic!("unexpected {:?}", other),
    }
    assert!(matches!(doc[4].value, Bson::Null));
}

#[test]
fn query_document_patterns_and_replacement() {
    let a = MongoAdapter;
    let conds = vec![
        cond("name", QueryOperator::StartsWith, s("a.b")),
        cond("mail", QueryOperator::EndsWith, s("@x.com")),
        cond("name", QueryOperator::Ne, s("z")),
        cond("flag", QueryOperator::Exists, DataValue::Bool(true)),
        cond("n", QueryOperator::In, DataValue::Int(1)),
    ];
    let doc = a.build_query_document(&conds);
    assert_eq!(keys(&doc), vec!["name", "mail", "flag"]);
    match &doc[0].value {
        Bson::Document(d) => assert_eq!(keys(d), vec!["$ne"]),
        other => panic!("unexpected {:?}", other),
    }
    match &doc[1].value {
        Bson::Document(d) => assert!(matches!(&d[0].value, Bson::String(p) if p == "@x\\.com$")),
        other => panic!("unexpected {:?}", other),
    }
    match &doc[2].value {
        Bson::Document(d) => {
            assert_eq!(keys(d), vec!["$exists"]);
            assert!(matches!(d[0].value, Bson::Boolean(true)));
        }
        other => panic!("unexpected {:?}", other),
    }
}

#[test]
fn condition_groups() {
    let a = MongoAdapter;
    let g = QueryConditionGroup::Group {
        operator: LogicalOperator::Or,
        conditions: vec![
            QueryConditionGroup::Single(cond("a", QueryOperator::Eq, DataValue::Int(1))),
            QueryConditionGroup::Single(cond("b", QueryOperator::Eq, DataValue::Int(2))),
        ],
    };
    let doc = a.group_document(&g);
    assert_eq!(keys(&doc), vec!["$or"]);
    assert!(matches!(&doc[0].value, Bson::Array(v) if v.len() == 2));

    let single = vec![QueryConditionGroup::Single(cond("a", QueryOperator::Eq, DataValue::Int(1)))];
    assert_eq!(keys(&a.build_condition_groups_document(&single)), vec!["a"]);
    let two = vec![
        QueryConditionGroup::Single(cond("a", QueryOperator::Eq, DataValue::Int(1))),
        QueryConditionGroup::Single(cond("b", QueryOperator::Eq, DataValue::Int(2))),
    ];
    assert_eq!(keys(&a.build_condition_groups_document(&two)), vec!["$and"]);
    assert!(a.build_condition_groups_document(&vec![]).is_empty());
}

#[test]
fn insert_and_update_documents() {
    let a = MongoAdapter;
    let data = vec![
        Entry { key: "id".to_string(), value: DataValue::Null },
        Entry { key: "name".to_string(), value: s("x") },
        Entry { key: "uid".to_string(), value: DataValue::Uuid(1) },
    ];
    let doc = a.build_insert_document(&data);
    assert_eq!(keys(&doc), vec!["name", "uid"]);
    assert!(matches!(&doc[1].value, Bson::String(t) if t == "00000000-0000-0000-0000-000000000001"));

    let upd = a.build_update_document(&data);
    assert_eq!(keys(&upd), vec!["$set"]);
    match &upd[0].value {
        Bson::Document(d) => assert_eq!(keys(d), vec!["name", "uid"]),
        other => panic!("unexpected {:?}", other),
    }
    let only_id = vec![Entry { key: "id".to_string(), value: DataValue::Int(3) }];
    assert!(a.build_update_document(&only_id).is_empty());
    let mapped = a.map_data_fields(&only_id);
    assert_eq!(mapped[0].key, "_id");
    assert_eq!(a.map_field_name("id"), "_id");
    assert_eq!(a.map_field_name("name"), "name");
}

#[test]
fn values_convert_both_ways() {
    assert!(matches!(data_value_to_bson(&DataValue::Int(5)), Bson::Int64(5)));
    assert!(matches!(data_value_to_bson(&DataValue::Bool(true)), Bson::Boolean(true)));
    let obj = DataValue::Object(vec![Entry { key: "k".to_string(), value: DataValue::Int(1) }]);
    match data_value_to_bson(&obj) {
        Bson::Document(d) => assert_eq!(keys(&d), vec!["k"]),
        other => panic!("unexpected {:?}", other),
    }
    assert!(matches!(bson_to_data_value(&Bson::Int32(7)), DataValue::Int(7)));
    assert!(matches!(bson_to_data_value(&Bson::Null), DataValue::Null));
    assert!(matches!(bson_to_data_value(&Bson::ObjectId(parse_object_id(OID).unwrap())), DataValue::String(t) if t == OID));
    let mut doc = single_field("a", Bson::Int32(1));
    insert_field(&mut doc, "b".to_string(), Bson::Int32(2));
    insert_field(&mut doc, "a".to_string(), Bson::Int32(3));
    assert_eq!(keys(&doc), vec!["a", "b"]);
    assert!(matches!(doc[0].value, Bson::Int32(3)));
}

#[test]
fn lookups_by_id() {
    let d = id_query_document(&s(OID)).unwrap();
    assert_eq!(keys(&d), vec!["_id"]);
    assert!(matches!(&d[0].value, Bson::ObjectId(b) if b.len() == 12));
    let d = id_query_document(&s("abc")).unwrap();
    assert!(matches!(&d[0].value, Bson::String(t) if t == "abc"));
    let d = id_query_document(&DataValue::Int(4)).unwrap();
    assert!(matches!(d[0].value, Bson::Int64(4)));
    let d = id_query_document(&DataValue::Uuid(2)).unwrap();
    assert!(matches!(&d[0].value, Bson::String(t) if t == "00000000-0000-0000-0000-000000000002"));
    assert!(id_query_document(&DataValue::Null).is_none());
}
