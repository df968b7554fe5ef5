use rat_quickdb::config::{ConnectionConfig, DatabaseConfig, PoolConfig};
use rat_quickdb::error::QuickDbError;
use rat_quickdb::pool::{
    backoff_delay, connection_url, pooled_worker_outcome, sqlite_open_plan, worker_id, ExtendedPoolConfig, RetryState,
    SqliteOpen, WorkerAction, WorkerOutcome, WorkerQueue, MAX_BACKOFF_MS,
};
use rat_quickdb::types::{DatabaseType, IdStrategy};

fn config(db_type: DatabaseType, connection: ConnectionConfig) -> DatabaseConfig {
    DatabaseConfig {
        db_type,
        connection,
        pool: PoolConfig::default(),
        alias: "default".to_string(),
        cache: None,
        id_strategy: IdStrategy::AutoIncrement,
    }
}

fn postgres() -> ConnectionConfig {
    ConnectionConfig::PostgreSQL {
        host: "localhost".to_string(),
        port: 5432,
        database: "app".to_string(),
        username: "u".to_string(),
        password: "p".to_string(),
        ssl_mode: None,
        tls_config: None,
    }
}

#[test]
fn connection_urls() {
    let pg = connection_url(&config(DatabaseType::PostgreSQL, postgres())).unwrap();
    assert_eq!(pg, "postgresql://u:p@localhost:5432/app");
    let my = ConnectionConfig::MySQL {
        host: "db".to_string(),
        port: 3306,
        database: "shop".to_string(),
        username: "root".to_string(),
        password: "pw".to_string(),
        ssl_opts: None,
        tls_config: None,
    };
    assert_eq!(connection_url(&config(DatabaseType::MySQL, my)).unwrap(), "mysql://root:pw@db:3306/shop");
    let mongo = ConnectionConfig::MongoDB {
        uri: "mongodb://h:1/x".to_string(),
        database: "x".to_string(),
        auth_source: None,
        tls_config: None,
        zstd_config: None,
    };
    assert_eq!(connection_url(&config(DatabaseType::MongoDB, mongo)).unwrap(), "mongodb://h:1/x");
}

#[test]
fn connection_url_errors() {
    match connection_url(&config(DatabaseType::MySQL, postgres())) {
        Err(QuickDbError::ConfigError { message }) => assert_eq!(message, "MySQL连接配置类型不匹配"),
        other => panic!("unexpected {:?}", other),
    }
    let lite = ConnectionConfig::SQLite { path: "a.db".to_string(), create_if_missing: true };
    match connection_url(&config(DatabaseType::SQLite, lite)) {
        Err(QuickDbError::ConfigError { message }) => assert_eq!(message, "不支持的数据库类型用于多连接管理器"),
        other => panic!("unexpected {:?}", other),
    }
}

#[test]
fn sqlite_open_decisions() {
    let create = ConnectionConfig::SQLite { path: "/tmp/x.db".to_string(), create_if_missing: true };
    let strict = ConnectionConfig::SQLite { path: "/tmp/y.db".to_string(), create_if_missing: false };
    assert_eq!(sqlite_open_plan(&create, true).unwrap(), SqliteOpen::Open);
    assert_eq!(sqlite_open_plan(&create, false).unwrap(), SqliteOpen::CreateThenOpen);
    assert_eq!(sqlite_open_plan(&strict, true).unwrap(), SqliteOpen::Open);
    match sqlite_open_plan(&strict, false) {
        Err(QuickDbError::ConnectionError { message }) => {
            assert_eq!(message, "SQLite数据库文件不存在且未启用自动创建: /tmp/y.db")
        }
        other => panic!("unexpected {:?}", other),
    }
    assert!(matches!(sqlite_open_plan(&postgres(), true), Err(QuickDbError::ConfigError { .. })));
}

#[test]
fn backoff_doubles_and_caps() {
    assert_eq!(backoff_delay(1000, 0), 1000);
    assert_eq!(backoff_delay(1000, 1), 2000);
    assert_eq!(backoff_delay(1000, 4), 16000);
    assert_eq!(backoff_delay(1000, 5), MAX_BACKOFF_MS);
    assert_eq!(backoff_delay(1, 10), 1024);
    assert_eq!(backoff_delay(1, 40), 1024);
    assert_eq!(backoff_delay(u64::MAX / 2, 0), MAX_BACKOFF_MS);
    assert_eq!(backoff_delay(u64::MAX, 7), MAX_BACKOFF_MS);
    let mut last = 0;
    for n in 0..20 {
        let d = backoff_delay(700, n);
        assert!(d >= last && d <= MAX_BACKOFF_MS);
        last = d;
    }
}

#[test]
fn worker_retry_cycle() {
    let cfg = ExtendedPoolConfig { max_retries: 2, retry_interval_ms: 100, ..ExtendedPoolConfig::default() };
    let mut st = RetryState::new(&cfg);
    assert!(!st.needs_reconnect());
    assert_eq!(st.after_operation(false), WorkerAction::RetryAfter(200));
    assert!(st.needs_reconnect());
    assert_eq!(st.after_operation(false), WorkerAction::RetryAfter(400));
    assert_eq!(st.after_operation(false), WorkerAction::GiveUp);
    assert_eq!(st.retry_count, 2);
    st.on_reconnected();
    assert!(!st.needs_reconnect());
    assert_eq!(st.retry_count, 0);
    assert_eq!(st.after_operation(true), WorkerAction::Continue);
}

#[test]
fn pooled_worker_outcomes() {
    assert_eq!(pooled_worker_outcome(2, 3, true), WorkerOutcome::Keep(0));
    assert_eq!(pooled_worker_outcome(2, 3, false), WorkerOutcome::Keep(3));
    assert_eq!(pooled_worker_outcome(3, 3, false), WorkerOutcome::Recreate);
}

#[test]
fn worker_ids() {
    assert_eq!(worker_id("main", 3), "main-worker-3");
}

#[test]
fn default_pool_settings() {
    let c = ExtendedPoolConfig::default();
    assert_eq!(c.max_retries, 3);
    assert_eq!(c.retry_interval_ms, 1000);
    assert_eq!(c.base.max_connections, 10);
}

#[test]
fn workers_are_handed_out_in_turn() {
    let mut q = WorkerQueue::new(3);
    assert_eq!(q.checkout().unwrap(), 0);
    assert_eq!(q.checkout().unwrap(), 1);
    q.checkin(0);
    assert_eq!(q.checkout().unwrap(), 2);
    assert_eq!(q.checkout().unwrap(), 0);
    match q.checkout() {
        Err(QuickDbError::ConnectionError { message }) => assert_eq!(message, "所有连接都在使用中"),
        other => panic!("unexpected {:?}", other),
    }
    q.checkin(1);
    assert_eq!(q.checkout().unwrap(), 1);
    let mut empty = WorkerQueue::new(0);
    assert!(empty.checkout().is_err());
}
