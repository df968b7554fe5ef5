use rat_quickdb::error::QuickDbError;
use rat_quickdb::model::{
    array_field, boolean_field, datetime_field, dict_field, float_bits_lt, float_field, integer_field, json_field,
    list_field, reference_field, string_field, uuid_field, FieldDefinition, FieldEntry, FieldType, FloatBound,
    ModelMeta, ToDataValue,
};
use rat_quickdb::json::{decode_tagged_exec, tagged_or_null_exec};
use rat_quickdb::types::{DataValue, Entry, Timestamp};

fn err_of(r: Result<(), QuickDbError>) -> (String, String) {
    match r {
        Err(QuickDbError::ValidationError { field, message }) => (field, message),
        other => panic!("unexpected {:?}", other),
    }
}

fn s(x: &str) -> DataValue {
    DataValue::String(x.to_string())
}

#[test]
fn required_and_null_values() {
    let f = string_field(None, None, None).required();
    assert_eq!(err_of(f.validate_with_field_name(&DataValue::Null, "name")), ("name".to_string(), "必填字段不能为空".to_string()));
    assert_eq!(err_of(f.validate(&DataValue::Null)).0, "unknown");
    let g = string_field(None, None, None);
    assert!(g.validate(&DataValue::Null).is_ok());
}

#[test]
fn string_constraints() {
    let f = string_field(Some(5), Some(2), None);
    assert!(f.validate(&s("abc")).is_ok());
    assert_eq!(err_of(f.validate(&s("abcdef"))), ("string_length".to_string(), "字符串长度不能超过5".to_string()));
    assert_eq!(err_of(f.validate(&s("a"))), ("string_length".to_string(), "字符串长度不能少于2".to_string()));
    assert_eq!(err_of(f.validate(&DataValue::Int(1))), ("type_mismatch".to_string(), "字段类型不匹配，期望字符串类型".to_string()));
    // Lengths count bytes.
    assert!(err_of(f.validate(&s("汉字"))).1.contains("超过"));
}

#[test]
fn string_patterns() {
    let f = string_field(None, None, Some("^[a-z]+$".to_string()));
    assert!(f.validate(&s("abc")).is_ok());
    assert_eq!(err_of(f.validate(&s("ab1"))), ("regex_match".to_string(), "字符串不匹配正则表达式".to_string()));
    let bad = string_field(None, None, Some("(".to_string()));
    let (field, msg) = err_of(bad.validate(&s("x")));
    assert_eq!(field, "regex");
    assert!(msg.starts_with("正则表达式无效: "));
}

#[test]
fn integer_and_float_ranges() {
    let f = integer_field(Some(-3), Some(10));
    assert!(f.validate(&DataValue::Int(10)).is_ok());
    assert_eq!(err_of(f.validate(&DataValue::Int(-4))), ("integer_range".to_string(), "整数值不能小于-3".to_string()));
    assert_eq!(err_of(f.validate(&DataValue::Int(11))), ("integer_range".to_string(), "整数值不能大于10".to_string()));

    let lo = FloatBound { bits: 0.5f64.to_bits(), text: "0.5".to_string() };
    let hi = FloatBound { bits: 2.0f64.to_bits(), text: "2".to_string() };
    let g = float_field(Some(lo), Some(hi));
    assert!(g.validate(&DataValue::Float(1.0f64.to_bits())).is_ok());
    assert_eq!(err_of(g.validate(&DataValue::Float(0.25f64.to_bits()))), ("float_range".to_string(), "浮点数值不能小于0.5".to_string()));
    assert_eq!(err_of(g.validate(&DataValue::Float(3.0f64.to_bits()))), ("float_range".to_string(), "浮点数值不能大于2".to_string()));
    assert!(g.validate(&DataValue::Float(f64::NAN.to_bits())).is_ok());
}

#[test]
fn float_order_by_bits() {
    let b = |x: f64| x.to_bits();
    assert!(float_bits_lt(b(-1.0), b(0.5)));
    assert!(float_bits_lt(b(-2.0), b(-1.0)));
    assert!(!float_bits_lt(b(0.0), b(-0.0)));
    assert!(!float_bits_lt(b(-0.0), b(0.0)));
    assert!(!float_bits_lt(b(f64::NAN), b(1.0)));
    assert!(float_bits_lt(b(1.0), b(f64::INFINITY)));
}

#[test]
fn simple_kinds() {
    assert!(boolean_field().validate(&DataValue::Bool(true)).is_ok());
    assert!(boolean_field().validate(&DataValue::Int(1)).is_err());
    assert!(datetime_field().validate(&DataValue::DateTime(Timestamp { secs: 0, nanos: 0 })).is_ok());
    assert!(datetime_field().validate(&s("2020")).is_err());
    assert!(uuid_field().validate(&s("67e55044-10b1-426f-9247-bb680e5fe0c8")).is_ok());
    assert_eq!(err_of(uuid_field().validate(&s("nope"))), ("uuid_format".to_string(), "无效的UUID格式".to_string()));
    assert!(json_field().validate(&DataValue::Int(3)).is_ok());
    assert!(reference_field("users".to_string()).validate(&s("abc")).is_ok());
    assert_eq!(
        err_of(reference_field("users".to_string()).validate(&DataValue::Int(1))),
        ("reference_type".to_string(), "引用字段必须是字符串ID".to_string())
    );
    assert!(FieldDefinition::new(FieldType::BigInteger).validate(&DataValue::Int(1)).is_ok());
    assert!(FieldDefinition::new(FieldType::Text).validate(&DataValue::Int(1)).is_err());
}

#[test]
fn arrays_and_json_arrays() {
    let f = array_field(FieldType::Integer { min_value: Some(0), max_value: None }, Some(3), Some(1));
    assert!(f.validate(&DataValue::Array(vec![DataValue::Int(1), DataValue::Null])).is_ok());
    assert_eq!(err_of(f.validate(&DataValue::Array(vec![]))), ("array_size".to_string(), "数组元素数量不能少于1".to_string()));
    let four = DataValue::Array(vec![DataValue::Int(1), DataValue::Int(1), DataValue::Int(1), DataValue::Int(1)]);
    assert_eq!(err_of(f.validate(&four)), ("array_size".to_string(), "数组元素数量不能超过3".to_string()));
    assert_eq!(
        err_of(f.validate(&DataValue::Array(vec![DataValue::Int(-1)]))),
        ("integer_range".to_string(), "整数值不能小于0".to_string())
    );
    assert!(f.validate(&s("[1, 2]")).is_ok());
    assert_eq!(err_of(f.validate(&s("[1, 2, 3, 4]"))).0, "array_size");
    assert_eq!(err_of(f.validate(&s("{\"a\": 1}"))), ("type_mismatch".to_string(), "JSON字符串不是有效的数组格式".to_string()));
    assert_eq!(err_of(f.validate(&s("[1,"))), ("type_mismatch".to_string(), "无法解析JSON字符串".to_string()));
    let l = list_field(FieldType::Boolean, None, None);
    assert!(l.validate(&DataValue::Array(vec![DataValue::Bool(false)])).is_ok());
}

#[test]
fn objects_and_models() {
    let inner = vec![FieldEntry { name: "age".to_string(), definition: integer_field(Some(0), None).required() }];
    let d = dict_field(inner);
    let ok = DataValue::Object(vec![Entry { key: "age".to_string(), value: DataValue::Int(3) }]);
    assert!(d.validate(&ok).is_ok());
    assert_eq!(err_of(d.validate(&DataValue::Object(vec![]))), ("unknown".to_string(), "必填字段不能为空".to_string()));
    assert!(d.validate(&DataValue::Int(1)).is_err());

    let meta = ModelMeta {
        collection_name: "users".to_string(),
        database_alias: None,
        fields: vec![
            FieldEntry { name: "name".to_string(), definition: string_field(Some(3), None, None).required() },
            FieldEntry { name: "age".to_string(), definition: integer_field(Some(0), None) },
        ],
        indexes: vec![],
        description: None,
    };
    let good = vec![Entry { key: "name".to_string(), value: s("bob") }];
    assert!(meta.validate_data(&good).is_ok());
    assert_eq!(err_of(meta.validate_data(&vec![])), ("name".to_string(), "必填字段不能为空".to_string()));
    let bad = vec![
        Entry { key: "name".to_string(), value: s("bob") },
        Entry { key: "age".to_string(), value: DataValue::Int(-1) },
    ];
    assert_eq!(err_of(meta.validate_data(&bad)).0, "integer_range");
}

#[test]
fn field_builders() {
    let f = FieldDefinition::new(FieldType::Boolean)
        .required()
        .unique()
        .indexed()
        .description("flag")
        .validator("v")
        .default_value(DataValue::Bool(true));
    assert!(f.required && f.unique && f.indexed);
    assert_eq!(f.description.as_deref(), Some("flag"));
    assert_eq!(f.validator.as_deref(), Some("v"));
    assert!(matches!(f.default, Some(DataValue::Bool(true))));
}

#[test]
fn values_convert_without_json() {
    assert!(matches!("alice".to_string().to_data_value(), DataValue::String(s) if s == "alice"));
    assert!(matches!("bob".to_data_value(), DataValue::String(s) if s == "bob"));
    assert!(matches!((-7i32).to_data_value(), DataValue::Int(-7)));
    assert!(matches!(i64::MAX.to_data_value(), DataValue::Int(i64::MAX)));
    assert!(matches!(true.to_data_value(), DataValue::Bool(true)));
    match vec!["a".to_string(), "b".to_string()].to_data_value() {
        DataValue::Array(v) => {
            assert_eq!(v.len(), 2);
            assert!(matches!(&v[1], DataValue::String(s) if s == "b"));
        }
        other => panic!("unexpected {:?}", other),
    }
    match vec![1i32, -2].to_data_value() {
        DataValue::Array(v) => assert!(matches!((&v[0], &v[1]), (DataValue::Int(1), DataValue::Int(-2)))),
        other => panic!("unexpected {:?}", other),
    }
    match vec![5i64].to_data_value() {
        DataValue::Array(v) => assert!(matches!(&v[..], [DataValue::Int(5)])),
        other => panic!("unexpected {:?}", other),
    }
    match vec![false, true].to_data_value() {
        DataValue::Array(v) => assert!(matches!(&v[..], [DataValue::Bool(false), DataValue::Bool(true)])),
        other => panic!("unexpected {:?}", other),
    }
    let entries = vec![Entry { key: "n".to_string(), value: DataValue::Int(3) }];
    match entries.to_data_value() {
        DataValue::Object(m) => {
            assert_eq!(m.len(), 1);
            assert_eq!(m[0].key, "n");
            assert!(matches!(m[0].value, DataValue::Int(3)));
        }
        other => panic!("unexpected {:?}", other),
    }
    assert!(matches!(Some(4i64).to_data_value(), DataValue::Int(4)));
    assert!(matches!(None::<i64>.to_data_value(), DataValue::Null));
}

#[test]
fn json_array_text_items_are_decoded_and_checked() {
    let min10 = || FieldType::Integer { min_value: Some(10), max_value: None };
    let f = array_field(min10(), None, None);
    assert_eq!(
        err_of(f.validate(&s("[{\"Int\":5}]"))),
        ("integer_range".to_string(), "整数值不能小于10".to_string())
    );
    assert!(f.validate(&s("[{\"Int\":12}, \"Null\", 3, {\"Int\": 1.5}]")).is_ok());
    assert_eq!(err_of(f.validate(&s("[{\"String\":\"x\"}]"))).0, "type_mismatch");
    // Through a model's data and through an object field.
    let meta = ModelMeta {
        collection_name: "t".to_string(),
        database_alias: None,
        fields: vec![FieldEntry { name: "scores".to_string(), definition: array_field(min10(), None, None) }],
        indexes: Vec::new(),
        description: None,
    };
    let data = vec![Entry { key: "scores".to_string(), value: s("[{\"Int\":5}]") }];
    assert_eq!(err_of(meta.validate_data(&data)).0, "integer_range");
    let nested = dict_field(vec![FieldEntry { name: "scores".to_string(), definition: array_field(min10(), None, None) }]);
    let obj = DataValue::Object(vec![Entry { key: "scores".to_string(), value: s("[{\"Int\":11},{\"Int\":9}]") }]);
    assert_eq!(err_of(nested.validate(&obj)).0, "integer_range");
}

#[test]
fn tagged_json_values_decode() {
    let d = |t: &str| decode_tagged_exec(t, 128);
    assert!(matches!(d("\"Null\""), Some(DataValue::Null)));
    assert!(matches!(d("{\"Bool\": true}"), Some(DataValue::Bool(true))));
    assert!(matches!(d("{\"Int\": -3}"), Some(DataValue::Int(-3))));
    assert!(matches!(d("{\"Float\": 1.5}"), Some(DataValue::Float(b)) if b == 1.5f64.to_bits()));
    assert!(matches!(d("{\"Float\": 2}"), Some(DataValue::Float(b)) if b == 2.0f64.to_bits()));
    assert!(matches!(d("{\"String\": \"x\"}"), Some(DataValue::String(t)) if t == "x"));
    assert!(matches!(d("{\"Bytes\": [1, 255]}"), Some(DataValue::Bytes(b)) if b == vec![1u8, 255]));
    assert!(d("{\"Bytes\": [256]}").is_none());
    assert!(matches!(d("{\"DateTime\": \"1970-01-01T00:00:01Z\"}"), Some(DataValue::DateTime(t)) if t.secs == 1));
    assert!(matches!(d("{\"Uuid\": \"67e55044-10b1-426f-9247-bb680e5fe0c8\"}"), Some(DataValue::Uuid(_))));
    assert!(matches!(d("{\"Json\": {\"a\": [1]}}"), Some(DataValue::Json(t)) if t == "{\"a\":[1]}"));
    match d("{\"Array\": [{\"Int\": 1}, \"Null\"]}") {
        Some(DataValue::Array(v)) => assert!(matches!(&v[..], [DataValue::Int(1), DataValue::Null])),
        other => panic!("unexpected {:?}", other),
    }
    match d("{\"Object\": {\"k\": {\"Bool\": false}}}") {
        Some(DataValue::Object(e)) => {
            assert_eq!(e[0].key, "k");
            assert!(matches!(e[0].value, DataValue::Bool(false)));
        }
        other => panic!("unexpected {:?}", other),
    }
    assert!(d("{\"Array\": [5]}").is_none());
    assert!(d("{\"Int\": 1, \"Bool\": true}").is_none());
    assert!(d("{\"Other\": 1}").is_none());
    assert!(d("not json").is_none());
    assert!(matches!(tagged_or_null_exec("7"), DataValue::Null));
}
