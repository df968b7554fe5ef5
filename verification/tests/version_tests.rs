use rat_quickdb::error::QuickDbError;
use rat_quickdb::schema::{ColumnDefinition, ColumnType, TableSchema};
use rat_quickdb::types::Timestamp;
use rat_quickdb::version::{elapsed_millis, MigrationScriptType, MigrationStatus, TableVersions, VersionManager};

fn schema(cols: &[&str]) -> TableSchema {
    let mut s = TableSchema::new("users".to_string());
    for c in cols {
        s = s.add_column(ColumnDefinition::new(c.to_string(), ColumnType::Integer));
    }
    s
}

fn validation(e: QuickDbError) -> (String, String) {
    match e {
        QuickDbError::ValidationError { field, message } => (field, message),
        other => panic!("unexpected {:?}", other),
    }
}

#[test]
fn registered_versions_count_up_and_become_current() {
    let mut vm = VersionManager::new();
    assert_eq!(vm.register_version("users".to_string(), schema(&["id"]), None).unwrap(), 1);
    assert_eq!(
        vm.register_version("users".to_string(), schema(&["id", "name"]), Some("add name".to_string())).unwrap(),
        2
    );
    assert_eq!(vm.register_version("orders".to_string(), schema(&["id"]), None).unwrap(), 1);

    let cur = vm.get_current_version("users").unwrap();
    assert_eq!(cur.version, 2);
    assert!(cur.is_current);
    assert_eq!(cur.description.as_deref(), Some("add name"));
    assert!(!vm.get_version("users", 1).unwrap().is_current);
    assert!(vm.get_version("users", 3).is_none());
    assert!(vm.get_current_version("nobody").is_none());
    assert_eq!(vm.get_all_versions("users").unwrap().len(), 2);

    assert!(vm.needs_migration("users", 1));
    assert!(!vm.needs_migration("users", 2));
    assert!(!vm.needs_migration("nobody", 0));

    let hist: Vec<u32> = vm.get_version_history("users").iter().map(|v| v.version).collect();
    assert_eq!(hist, vec![1, 2]);
    assert!(vm.get_version_history("nobody").is_empty());
    assert_eq!(vm.all_versions().len(), 2);
}

#[test]
fn migrations_execute_then_roll_back() {
    let mut vm = VersionManager::new();
    vm.register_version("users".to_string(), schema(&["id"]), None).unwrap();
    vm.register_version("users".to_string(), schema(&["id", "name"]), None).unwrap();

    let id = vm
        .create_migration(
            "users",
            1,
            2,
            "ALTER TABLE users ADD name".to_string(),
            Some("ALTER TABLE users DROP name".to_string()),
            MigrationScriptType::Ddl,
        )
        .unwrap();
    assert!(id.starts_with("users_1_to_2_"));
    let tag = id.rsplit('_').next().unwrap();
    assert_eq!(tag.len(), 8);
    let m = vm.get_version("users", 2).unwrap().migration_script.as_ref().unwrap();
    assert_eq!(m.status, MigrationStatus::Pending);
    assert_eq!(m.id, id);

    // A pending migration cannot be rolled back.
    let (f, msg) = validation(vm.rollback_migration("users", &id).unwrap_err());
    assert_eq!(f, "migration_status");
    assert_eq!(msg, format!("迁移脚本 {} 状态不正确，无法回滚: Pending", id));

    vm.execute_migration("users", &id).unwrap();
    let m = vm.get_version("users", 2).unwrap().migration_script.as_ref().unwrap();
    assert_eq!(m.status, MigrationStatus::Success);
    assert!(m.executed_at.is_some());

    let (f, msg) = validation(vm.execute_migration("users", &id).unwrap_err());
    assert_eq!(f, "migration_status");
    assert_eq!(msg, format!("迁移脚本 {} 状态不正确: Success", id));

    vm.rollback_migration("users", &id).unwrap();
    let m = vm.get_version("users", 2).unwrap().migration_script.as_ref().unwrap();
    assert_eq!(m.status, MigrationStatus::Rollback);
    assert!(vm.execute_migration("users", &id).is_err());
    assert!(vm.rollback_migration("users", &id).is_err());

    let records = vm.get_migration_history(Some("users"));
    assert_eq!(records.len(), 2);
    assert_eq!(records[0].migration_id, id);
    assert_eq!(records[0].from_version, 1);
    assert_eq!(records[0].to_version, 2);
    assert_eq!(records[0].status, MigrationStatus::Success);
    assert_eq!(records[1].migration_id, format!("{}_rollback", id));
    assert_eq!(records[1].from_version, 2);
    assert_eq!(records[1].to_version, 1);
    assert!(vm.get_migration_history(Some("orders")).is_empty());
    assert_eq!(vm.get_migration_history(None).len(), 2);
}

#[test]
fn migration_errors() {
    let mut vm = VersionManager::new();
    vm.register_version("users".to_string(), schema(&["id"]), None).unwrap();
    let (f, msg) =
        validation(vm.create_migration("users", 3, 1, "x".to_string(), None, MigrationScriptType::Ddl).unwrap_err());
    assert_eq!(f, "from_version");
    assert_eq!(msg, "源版本 3 不存在");
    let (f, msg) =
        validation(vm.create_migration("users", 1, 9, "x".to_string(), None, MigrationScriptType::Ddl).unwrap_err());
    assert_eq!(f, "to_version");
    assert_eq!(msg, "目标版本 9 不存在");
    let (f, msg) = validation(vm.execute_migration("users", "nope").unwrap_err());
    assert_eq!(f, "migration_id");
    assert_eq!(msg, "迁移脚本 nope 不存在");

    let id = vm.create_migration("users", 1, 1, "x".to_string(), None, MigrationScriptType::Ddl).unwrap();
    vm.execute_migration("users", &id).unwrap();
    let (f, msg) = validation(vm.rollback_migration("users", &id).unwrap_err());
    assert_eq!(f, "down_script");
    assert_eq!(msg, format!("迁移脚本 {} 没有回滚脚本", id));
}

#[test]
fn migration_paths() {
    let mut vm = VersionManager::new();
    for n in 0..3 {
        vm.register_version("t".to_string(), schema(&["id"]), None).unwrap();
        let _ = n;
    }
    assert!(vm.get_migration_path("t", 2, 2).unwrap().is_empty());
    let (f, msg) = validation(vm.get_migration_path("zz", 1, 2).unwrap_err());
    assert_eq!(f, "table_name");
    assert_eq!(msg, "表 zz 不存在");
    let (f, msg) = validation(vm.get_migration_path("t", 1, 3).unwrap_err());
    assert_eq!(f, "migration_script");
    assert_eq!(msg, "版本 2 缺少迁移脚本");

    vm.create_migration("t", 1, 2, "up2".to_string(), Some("down2".to_string()), MigrationScriptType::Ddl).unwrap();
    vm.create_migration("t", 2, 3, "up3".to_string(), None, MigrationScriptType::Ddl).unwrap();
    let ups: Vec<String> = vm.get_migration_path("t", 1, 3).unwrap().iter().map(|m| m.up_script.clone()).collect();
    assert_eq!(ups, vec!["up2".to_string(), "up3".to_string()]);
    let (f, msg) = validation(vm.get_migration_path("t", 3, 1).unwrap_err());
    assert_eq!(f, "down_script");
    assert_eq!(msg, "版本 3 缺少回滚脚本");
    let downs: Vec<String> =
        vm.get_migration_path("t", 2, 1).unwrap().iter().map(|m| m.down_script.clone().unwrap()).collect();
    assert_eq!(downs, vec!["down2".to_string()]);
    let (f, msg) = validation(vm.get_migration_path("t", 1, 5).unwrap_err());
    assert_eq!(f, "version");
    assert_eq!(msg, "版本 4 不存在");
}

#[test]
fn history_cleanup() {
    let mut vm = VersionManager::new();
    vm.register_version("t".to_string(), schema(&["id"]), None).unwrap();
    let id = vm.create_migration("t", 1, 1, "x".to_string(), None, MigrationScriptType::Ddl).unwrap();
    vm.execute_migration("t", &id).unwrap();
    assert_eq!(vm.get_migration_history(None).len(), 1);
    vm.cleanup_history(30);
    assert_eq!(vm.get_migration_history(None).len(), 1);
    vm.retain_records_after(Timestamp { secs: i64::MAX, nanos: 0 });
    assert!(vm.get_migration_history(None).is_empty());
}

#[test]
fn elapsed_time_in_millis() {
    let a = Timestamp { secs: 10, nanos: 500_000_000 };
    let b = Timestamp { secs: 12, nanos: 250_000_000 };
    assert_eq!(elapsed_millis(a, b), 1750);
    assert_eq!(elapsed_millis(b, a), (-1750i64) as u64);
}

#[test]
fn versions_are_replaced_wholesale() {
    let mut vm = VersionManager::new();
    vm.register_version("a".to_string(), schema(&["id"]), None).unwrap();
    vm.register_version("b".to_string(), schema(&["id"]), None).unwrap();
    assert_eq!(vm.all_versions().len(), 2);
    assert_eq!(vm.all_versions()[1].table_name, "b");
    let mut other = VersionManager::new();
    other.register_version("c".to_string(), schema(&["id", "name"]), Some("imported".to_string())).unwrap();
    other.register_version("c".to_string(), schema(&["id"]), None).unwrap();
    let tables: Vec<TableVersions> = Vec::new();
    vm.replace_versions(tables);
    assert!(vm.all_versions().is_empty());
    assert!(vm.get_current_version("a").is_none());
    let c = other.get_all_versions("c").unwrap();
    let copied = TableVersions {
        table_name: "c".to_string(),
        versions: vec![
            rat_quickdb::version::SchemaVersion {
                table_name: c[0].table_name.clone(),
                version: c[0].version,
                schema: c[0].schema.clone(),
                created_at: c[0].created_at,
                migration_script: None,
                description: c[0].description.clone(),
                is_current: false,
            },
            rat_quickdb::version::SchemaVersion {
                table_name: c[1].table_name.clone(),
                version: c[1].version,
                schema: c[1].schema.clone(),
                created_at: c[1].created_at,
                migration_script: None,
                description: None,
                is_current: true,
            },
        ],
    };
    vm.replace_versions(vec![copied]);
    assert_eq!(vm.get_current_version("c").unwrap().version, 2);
    assert_eq!(vm.get_version("c", 1).unwrap().description.as_deref(), Some("imported"));
    assert_eq!(vm.get_version("c", 1).unwrap().schema.columns.len(), 2);
}
