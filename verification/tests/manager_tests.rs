use rat_quickdb::config::{ConnectionConfig, DatabaseConfig, PoolConfig};
use rat_quickdb::error::QuickDbError;
use rat_quickdb::manager::{get_info, index_name, PoolManager};
use rat_quickdb::model::{IndexDefinition, ModelMeta};
use rat_quickdb::types::{DatabaseType, IdStrategy, IdType};

fn create_test_config(alias: &str) -> DatabaseConfig {
    DatabaseConfig {
        db_type: DatabaseType::SQLite,
        connection: ConnectionConfig::SQLite { path: ":memory:".to_string(), create_if_missing: true },
        pool: PoolConfig::default(),
        alias: alias.to_string(),
        id_strategy: IdStrategy::AutoIncrement,
        cache: None,
    }
}

fn mongo_config(alias: &str) -> DatabaseConfig {
    DatabaseConfig {
        db_type: DatabaseType::MongoDB,
        connection: ConnectionConfig::MongoDB {
            uri: "mongodb://localhost:27017".to_string(),
            database: "app".to_string(),
            auth_source: None,
            tls_config: None,
            zstd_config: None,
        },
        pool: PoolConfig::default(),
        alias: alias.to_string(),
        id_strategy: IdStrategy::ObjectId,
        cache: None,
    }
}

#[test]
fn test_manager_creation() {
    let manager: PoolManager = PoolManager::new();
    assert!(manager.get_aliases().is_empty());
    assert!(manager.get_default_alias().is_none());
}

#[test]
fn test_add_database() {
    let mut manager: PoolManager = PoolManager::new();
    let config = create_test_config("test_db");

    manager.add_database(&config, 7);

    let aliases = manager.get_aliases();
    assert_eq!(aliases.len(), 1);
    assert!(aliases.contains(&"test_db".to_string()));

    let default_alias = manager.get_default_alias();
    assert_eq!(default_alias, Some("test_db".to_string()));
}

#[test]
fn test_get_connection() {
    let mut manager: PoolManager = PoolManager::new();
    let config = create_test_config("test_db");

    manager.add_database(&config, 7);

    let conn = manager.get_connection_pool(None);
    assert!(conn.is_ok());

    let conn = manager.get_connection_pool(Some("test_db"));
    assert!(conn.is_ok());

    let conn = manager.get_connection_pool(Some("nonexistent"));
    assert!(conn.is_err());
}

#[test]
fn test_remove_database() {
    let mut manager: PoolManager = PoolManager::new();
    let config = create_test_config("test_db");

    manager.add_database(&config, 7);
    assert_eq!(manager.get_aliases().len(), 1);

    let result = manager.remove_database("test_db");
    assert!(result.is_ok());
    assert!(manager.get_aliases().is_empty());

    let result = manager.remove_database("nonexistent");
    assert!(result.is_err());
}

#[test]
fn registry_lookups_after_add_and_remove() {
    let mut m: PoolManager = PoolManager::new();
    m.add_database(&create_test_config("a"), 1);
    m.add_database(&mongo_config("b"), 2);
    assert_eq!(m.get_pool("a").unwrap(), 1);
    assert_eq!(m.get_pool("b").unwrap(), 2);
    assert_eq!(m.get_database_type("b").unwrap(), DatabaseType::MongoDB);
    assert_eq!(m.get_default_alias(), Some("a".to_string()));
    assert_eq!(m.get_connection_pool(None).unwrap(), 1);
    assert!(m.get_id_generator("a").is_ok());
    assert!(m.get_mongo_auto_increment_generator("b").is_ok());
    assert!(m.get_mongo_auto_increment_generator("a").is_err());

    m.remove_database("a").unwrap();
    assert_eq!(m.get_default_alias(), Some("b".to_string()));
    assert!(m.get_id_generator("a").is_err());
    match m.get_pool("a") {
        Err(e) => assert_eq!(e.to_string(), "数据库别名 'a' 未找到"),
        Ok(_) => panic!("removed alias still found"),
    }
}

#[test]
fn replacing_an_alias_keeps_one_entry() {
    let mut m: PoolManager = PoolManager::new();
    m.add_database(&create_test_config("a"), 1);
    m.add_database(&create_test_config("b"), 2);
    m.add_database(&create_test_config("a"), 3);
    let mut aliases = m.get_aliases();
    aliases.sort();
    assert_eq!(aliases, vec!["a".to_string(), "b".to_string()]);
    assert_eq!(m.get_pool("a").unwrap(), 3);
    assert_eq!(m.get_default_alias(), Some("b".to_string()));
}

#[test]
fn default_alias_rules() {
    let mut m: PoolManager = PoolManager::new();
    match m.get_connection_pool(None) {
        Err(QuickDbError::ConfigError { message }) => assert_eq!(message, "没有配置默认数据库别名"),
        other => panic!("unexpected {:?}", other),
    }
    assert!(m.set_default_alias("x").is_err());
    m.add_database(&create_test_config("x"), 1);
    m.add_database(&create_test_config("y"), 2);
    m.set_default_alias("y").unwrap();
    assert_eq!(m.actual_alias(None), "y");
    assert_eq!(m.actual_alias(Some("x")), "x");
    assert!(m.contains_alias("x"));
    assert!(!m.contains_alias("z"));
}

#[test]
fn library_info() {
    assert_eq!(get_info(), "rat_quickdb v0.1.9");
}

#[test]
fn pool_status_report() {
    let mut m = PoolManager::new();
    m.add_database(&create_test_config("a"), 1);
    m.add_database(&mongo_config("b"), 2);
    let mut st = m.pools_status();
    st.sort_by(|x, y| x.alias.cmp(&y.alias));
    assert_eq!(st.len(), 2);
    assert_eq!(st[0].alias, "a");
    assert_eq!(st[0].db_type, DatabaseType::SQLite);
    assert!(st[0].has_id_generator && !st[0].has_mongo_auto_increment);
    assert_eq!(st[1].alias, "b");
    assert!(st[1].has_id_generator && st[1].has_mongo_auto_increment);
}

#[test]
fn generators_and_models() {
    let mut m = PoolManager::new();
    m.add_database(&mongo_config("docs"), 1);
    let g = m.get_id_generator("docs").unwrap();
    assert!(matches!(g.strategy(), IdStrategy::ObjectId));
    let mg = m.get_mongo_auto_increment_generator("docs").unwrap();
    assert_eq!(mg.current_value(), 1);
    match m.get_id_generator("nope") {
        Err(e) => assert_eq!(e.to_string(), "配置错误: 数据库 nope 没有配置ID生成器"),
        Ok(_) => panic!("unknown alias has a generator"),
    }
    let bad = DatabaseConfig {
        id_strategy: IdStrategy::Snowflake { machine_id: 5000, datacenter_id: 1 },
        ..create_test_config("bad")
    };
    m.add_database(&bad, 2);
    assert!(m.contains_alias("bad"));
    assert!(m.get_id_generator("bad").is_err());

    let meta = ModelMeta {
        collection_name: "users".to_string(),
        database_alias: None,
        fields: vec![],
        indexes: vec![IndexDefinition { fields: vec!["a".to_string(), "b".to_string()], unique: false, name: None }],
        description: None,
    };
    assert!(!m.has_model("users"));
    m.register_model(meta).unwrap();
    assert!(m.has_model("users"));
    assert_eq!(m.get_model("users").unwrap().collection_name, "users");
    assert_eq!(m.get_registered_models().len(), 1);
    assert_eq!(m.get_registered_models()[0].0, "users");
    assert!(matches!(m.table_and_index_plan("users", "docs"), Ok(Some(_))));
    assert!(matches!(m.table_and_index_plan("orders", "docs"), Ok(None)));
    assert!(m.table_and_index_plan("users", "nowhere").is_err());
    assert_eq!(index_name(&m.get_model("users").unwrap().indexes[0]), "idx_a_b");
}

#[test]
fn ids_are_generated_through_the_registry() {
    let mut manager = PoolManager::new();
    assert!(manager.generate_id("db").is_none());
    manager.add_database(&create_test_config("db"), 1);
    assert!(matches!(manager.generate_id("db"), Some(Ok(IdType::Number(1)))));
    assert!(matches!(manager.generate_id("db"), Some(Ok(IdType::Number(2)))));
    assert!(matches!(manager.generate_id("db"), Some(Ok(IdType::Number(3)))));
    assert!(manager.next_mongo_id("db").is_none());
    manager.add_database(&mongo_config("m"), 2);
    assert_eq!(manager.next_mongo_id("m"), Some(Ok(1)));
    assert_eq!(manager.next_mongo_id("m"), Some(Ok(2)));
    assert_eq!(manager.get_mongo_auto_increment_generator("m").unwrap().current_value(), 3);
}

#[test]
fn registered_models_are_found() {
    let mut manager = PoolManager::new();
    assert!(!manager.has_model("users"));
    let meta = ModelMeta {
        collection_name: "users".to_string(),
        database_alias: None,
        fields: Vec::new(),
        indexes: Vec::new(),
        description: None,
    };
    manager.register_model(meta).unwrap();
    assert!(manager.has_model("users"));
    assert!(!manager.has_model("orders"));
}
