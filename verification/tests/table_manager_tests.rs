use std::sync::Arc;

use rat_quickdb::config::{ConnectionConfig, DatabaseConfig, PoolConfig};
use rat_quickdb::error::QuickDbError;
use rat_quickdb::keyed::Keyed;
use rat_quickdb::manager::PoolManager;
use rat_quickdb::schema::{
    ColumnDefinition, ColumnType, ConstraintDefinition, IndexDefinition, ReferentialAction, TableSchema,
};
use rat_quickdb::table_manager::{TableCreateOptions, TableManager, TableManagerConfig};
use rat_quickdb::types::{DatabaseType, IdStrategy};
use rat_quickdb::version::{MigrationScriptType, MigrationStatus};

fn sqlite_config(alias: &str) -> DatabaseConfig {
    DatabaseConfig {
        db_type: DatabaseType::SQLite,
        connection: ConnectionConfig::SQLite { path: ":memory:".to_string(), create_if_missing: true },
        pool: PoolConfig::default(),
        alias: alias.to_string(),
        id_strategy: IdStrategy::AutoIncrement,
        cache: None,
    }
}

fn pools_with(alias: &str) -> Arc<PoolManager> {
    let mut pm = PoolManager::new();
    pm.add_database(&sqlite_config(alias), 1);
    Arc::new(pm)
}

fn schema(name: &str) -> TableSchema {
    TableSchema::new(name.to_string()).add_column(ColumnDefinition::new("id".to_string(), ColumnType::Integer))
}

fn assert_no_default(r: Result<impl std::fmt::Debug, QuickDbError>) {
    match r {
        Err(QuickDbError::AliasNotFound { alias }) => assert_eq!(alias, "default"),
        other => panic!("unexpected {:?}", other),
    }
}

#[test]
fn table_manager_settings_and_defaults() {
    let cfg = TableManagerConfig::default();
    assert!(cfg.auto_create_tables && !cfg.auto_migrate);
    assert_eq!(cfg.cache_ttl_seconds, 300);
    assert!(cfg.enable_schema_validation);
    let opts = TableCreateOptions::default();
    assert!(opts.if_not_exists && opts.create_indexes && opts.add_constraints);
    assert!(opts.table_options.is_none());

    let tm = TableManager::new(pools_with("default"), cfg);
    let stats = tm.get_stats();
    assert_eq!(stats.existence_cache_size, 0);
    assert_eq!(stats.schema_cache_size, 0);
    assert!(stats.auto_create_tables && !stats.auto_migrate);
    assert!(tm.get_version_manager().get_current_version("users").is_none());
}

#[test]
fn database_questions_need_the_default_pool() {
    let mut tm = TableManager::new(pools_with("main"), TableManagerConfig::default());
    assert_no_default(tm.check_table_exists("users"));
    assert_no_default(tm.get_table_schema("users"));
    assert_no_default(tm.list_tables());
    assert_no_default(tm.drop_table("users"));
    assert_no_default(tm.create_table(&schema("users"), None));
    assert_no_default(tm.check_table_status("users"));
    // Nothing was learnt or registered on the way.
    assert_eq!(tm.get_stats().existence_cache_size, 0);
    assert!(tm.get_version_manager().get_current_version("users").is_none());
    // Registering a schema asks nothing of the database.
    assert_eq!(tm.register_schema(schema("users"), None).unwrap(), 1);
    assert!(tm.get_table_schema("users").unwrap().is_some());
}

#[test]
fn unknown_tables_are_missing_and_then_known() {
    let mut tm = TableManager::new(pools_with("default"), TableManagerConfig::default());
    assert_eq!(tm.check_table_exists("users").unwrap(), false);
    assert_eq!(tm.get_stats().existence_cache_size, 1);
    assert!(tm.get_table_schema("users").unwrap().is_none());
    assert!(tm.list_tables().unwrap().is_empty());
    let st = tm.check_table_status("users").unwrap();
    assert!(!st.exists);
    assert_eq!(st.expected_version, None);
    assert!(!st.needs_migration);
}

#[test]
fn creating_a_table_caches_and_registers_it() {
    let mut tm = TableManager::new(pools_with("default"), TableManagerConfig::default());
    tm.create_table(&schema("users"), None).unwrap();
    assert_eq!(tm.check_table_exists("users").unwrap(), true);
    let cached = tm.get_table_schema("users").unwrap().unwrap();
    assert_eq!(cached.name, "users");
    assert_eq!(cached.columns.len(), 1);
    assert_eq!(cached.columns[0].name, "id");
    let v = tm.get_version_manager().get_current_version("users").unwrap();
    assert_eq!(v.version, 1);
    assert_eq!(v.description.as_deref(), Some("初始版本"));
    assert_eq!(v.schema.columns[0].name, "id");

    // With `if_not_exists` an existing table is left as it is.
    tm.create_table(&schema("users"), None).unwrap();
    assert_eq!(tm.get_version_manager().get_current_version("users").unwrap().version, 1);
    // Without it, the table is created again and a new version registered.
    let opts = TableCreateOptions { if_not_exists: false, ..TableCreateOptions::default() };
    tm.create_table(&schema("users"), Some(opts)).unwrap();
    assert_eq!(tm.get_version_manager().get_current_version("users").unwrap().version, 2);

    let st = tm.check_table_status("users").unwrap();
    assert!(st.exists);
    assert_eq!(st.expected_version, Some(2));
    assert_eq!(st.current_version, None);
    assert!(!st.needs_migration);
}

#[test]
fn dropping_a_table_forgets_it_but_keeps_versions() {
    let mut tm = TableManager::new(pools_with("default"), TableManagerConfig::default());
    tm.create_table(&schema("users"), None).unwrap();
    tm.drop_table("users").unwrap();
    assert!(tm.get_table_schema("users").unwrap().is_none());
    assert_eq!(tm.get_stats().existence_cache_size, 0);
    assert_eq!(tm.check_table_exists("users").unwrap(), false);
    assert_eq!(tm.get_version_manager().get_current_version("users").unwrap().version, 1);
}

#[test]
fn registering_schemas_numbers_versions() {
    let mut tm = TableManager::new(pools_with("default"), TableManagerConfig::default());
    assert_eq!(tm.register_schema(schema("users"), Some("first".to_string())).unwrap(), 1);
    let wider = schema("users").add_column(ColumnDefinition::new("name".to_string(), ColumnType::Text));
    assert_eq!(tm.register_schema(wider, None).unwrap(), 2);
    let cached = tm.get_table_schema("users").unwrap().unwrap();
    assert_eq!(cached.columns.len(), 2);
    let current = tm.get_version_manager().get_current_version("users").unwrap();
    assert_eq!(current.version, 2);
    assert_eq!(current.schema.columns[1].name, "name");
    assert_eq!(tm.get_stats().schema_cache_size, 1);

    tm.clear_cache();
    let stats = tm.get_stats();
    assert_eq!((stats.existence_cache_size, stats.schema_cache_size), (0, 0));
    assert!(tm.get_table_schema("users").unwrap().is_none());
    assert_eq!(tm.get_version_manager().get_current_version("users").unwrap().version, 2);
}

#[test]
fn ensuring_a_table_creates_it_once() {
    let mut tm = TableManager::new(pools_with("default"), TableManagerConfig::default());
    tm.ensure_table_exists(&schema("users")).unwrap();
    assert_eq!(tm.check_table_exists("users").unwrap(), true);
    assert_eq!(tm.get_version_manager().get_current_version("users").unwrap().version, 1);
    tm.ensure_table_exists(&schema("users")).unwrap();
    assert_eq!(tm.get_version_manager().get_current_version("users").unwrap().version, 1);

    let migrating = TableManagerConfig { auto_migrate: true, ..TableManagerConfig::default() };
    let mut tm = TableManager::new(pools_with("default"), migrating);
    tm.ensure_table_exists(&schema("users")).unwrap();
    tm.ensure_table_exists(&schema("users")).unwrap();
    assert_eq!(tm.get_version_manager().get_current_version("users").unwrap().version, 1);

    let off = TableManagerConfig { auto_create_tables: false, ..TableManagerConfig::default() };
    let mut tm = TableManager::new(pools_with("main"), off);
    tm.ensure_table_exists(&schema("users")).unwrap();
    assert_eq!(tm.get_stats().existence_cache_size, 0);
    assert!(tm.get_version_manager().get_current_version("users").is_none());

    let mut tm = TableManager::new(pools_with("main"), TableManagerConfig::default());
    assert_no_default(tm.ensure_table_exists(&schema("users")));
}

#[test]
fn migrating_a_table_runs_its_path() {
    let mut tm = TableManager::new(pools_with("default"), TableManagerConfig::default());
    match tm.migrate_table("t", None) {
        Err(QuickDbError::ValidationError { field, message }) => {
            assert_eq!(field, "table_name");
            assert_eq!(message, "表 t 没有注册版本");
        }
        other => panic!("unexpected {:?}", other),
    }
    tm.register_schema(schema("t"), None).unwrap();
    tm.register_schema(schema("t"), None).unwrap();
    assert!(tm.migrate_table("t", Some(0)).is_ok());
    assert!(tm.migrate_table("t", None).is_err());
    let a = tm.create_migration_script("t", 1, 1, "create".to_string(), None, MigrationScriptType::Ddl).unwrap();
    let b = tm.create_migration_script("t", 1, 2, "alter".to_string(), None, MigrationScriptType::Ddl).unwrap();
    assert!(tm.create_migration_script("t", 1, 9, "x".to_string(), None, MigrationScriptType::Ddl).is_err());
    tm.migrate_table("t", None).unwrap();
    for v in [1u32, 2] {
        let vm = tm.get_version_manager();
        let m = vm.get_version("t", v).unwrap().migration_script.as_ref().unwrap();
        assert_eq!(m.status, MigrationStatus::Success);
    }
    let ids: Vec<String> =
        tm.get_version_manager().get_migration_history(Some("t")).iter().map(|r| r.migration_id.clone()).collect();
    assert_eq!(ids, vec![a, b]);
    // Running it again fails: the migrations are no longer pending.
    assert!(tm.migrate_table("t", None).is_err());
}

#[test]
fn schema_copies_keep_every_part() {
    let s = TableSchema::new("orders".to_string())
        .add_column(ColumnDefinition::new("id".to_string(), ColumnType::BigInteger).primary_key().auto_increment())
        .add_column(ColumnDefinition::new(
            "state".to_string(),
            ColumnType::Enum { values: vec!["new".to_string(), "paid".to_string()] },
        ))
        .add_index(IndexDefinition::new("by_state".to_string(), vec!["state".to_string()]).unique().option("fill", "90"))
        .add_constraint(
            ConstraintDefinition::foreign_key(
                "fk_user".to_string(),
                vec!["id".to_string()],
                "users".to_string(),
                vec!["id".to_string()],
            )
            .on_delete(ReferentialAction::Cascade),
        );
    let c = s.clone();
    assert_eq!(c.name, "orders");
    assert_eq!(c.columns.len(), 2);
    assert!(c.columns[0].primary_key && c.columns[0].auto_increment);
    match &c.columns[1].column_type {
        ColumnType::Enum { values } => assert_eq!(values, &vec!["new".to_string(), "paid".to_string()]),
        other => panic!("unexpected {:?}", other),
    }
    assert_eq!(c.indexes[0].options, vec![("fill".to_string(), "90".to_string())]);
    assert!(c.indexes[0].unique);
    assert_eq!(c.constraints[0].reference_columns, Some(vec!["id".to_string()]));
    assert_eq!(c.constraints[0].on_delete, Some(ReferentialAction::Cascade));
    assert_eq!(c.options.charset.as_deref(), Some("utf8mb4"));
}

#[test]
fn keyed_store_replaces_and_removes() {
    let mut k: Keyed<u32> = Keyed::new();
    k.insert("a".to_string(), 1);
    k.insert("b".to_string(), 2);
    k.insert("a".to_string(), 3);
    assert_eq!(k.len(), 2);
    assert_eq!(k.get("a"), Some(&3));
    k.remove("a");
    assert_eq!(k.get("a"), None);
    assert_eq!(k.get("b"), Some(&2));
    k.remove("zzz");
    assert_eq!(k.len(), 1);
    k.clear();
    assert_eq!(k.len(), 0);
}
