use rat_quickdb::cache::KeyIndex;
use rat_quickdb::cache::{CacheLookup, CacheOps, GlobalCacheError, GlobalCacheManager};
use rat_quickdb::cache::{disabled_disk_level, memory_level_settings, EvictionStrategy, WarmupStrategy};
use rat_quickdb::config::{CacheConfig, CacheStrategy, L1CacheConfig};
use rat_quickdb::types::IdType;

#[test]
fn test_global_cache_manager() {
    let mut slot: GlobalCacheManager<CacheConfig> = GlobalCacheManager::new();
    assert!(!slot.is_initialized());
    assert!(slot.get().is_none());

    let config = CacheConfig::default();
    assert!(slot.initialize(config).is_ok());

    assert!(slot.is_initialized());
    assert!(slot.get().is_some());

    let config = CacheConfig::default();
    assert!(matches!(slot.initialize(config), Err(GlobalCacheError::AlreadyInitialized)));
}

#[test]
fn test_get_or_error() {
    let mut slot: GlobalCacheManager<CacheConfig> = GlobalCacheManager::new();
    assert!(matches!(slot.get_or_error(), Err(GlobalCacheError::NotInitialized)));

    let config = CacheConfig::default();
    assert!(slot.initialize(config).is_ok());
    assert!(slot.get_or_error().is_ok());
}

#[test]
fn first_manager_stays() {
    let mut slot: GlobalCacheManager<u8> = GlobalCacheManager::new();
    slot.initialize(1).unwrap();
    assert!(slot.initialize(2).is_err());
    assert_eq!(*slot.get().unwrap(), 1);
    assert!(CacheOps::is_initialized(&slot));
}

#[test]
fn cache_error_texts() {
    assert_eq!(GlobalCacheError::NotInitialized.to_string(), "缓存管理器未初始化");
    assert_eq!(GlobalCacheError::AlreadyInitialized.to_string(), "缓存管理器已初始化，不能重复初始化");
    assert_eq!(GlobalCacheError::ConfigError("x".to_string()).to_string(), "缓存配置错误: x");
}

#[test]
fn cache_keys() {
    assert_eq!(CacheOps::generate_record_key("sqlite", "users", &IdType::Number(123)), "sqlite:users:record:123");
    assert_eq!(
        CacheOps::generate_record_key("mongodb", "users", &IdType::String("abc".to_string())),
        "mongodb:users:record:abc"
    );
    assert_eq!(CacheOps::generate_query_key("sqlite", "users", "h1"), "sqlite:users:query:h1");
    assert_eq!(CacheOps::table_prefix("sqlite", "users"), "sqlite:users:");
    assert_eq!(CacheOps::database_prefix("sqlite"), "sqlite:");
}

#[test]
fn empty_results_round_trip_through_the_marker() {
    let marker = CacheOps::null_marker();
    assert_eq!(marker, b"CACHE_NULL_VALUE_2025".to_vec());
    assert_eq!(CacheOps::payload(None), marker);
    assert_eq!(CacheOps::payload(Some(vec![1, 2])), vec![1, 2]);
    assert!(matches!(CacheOps::lookup_outcome(true, Some(CacheOps::payload(None))), CacheLookup::Empty));
    assert!(matches!(CacheOps::lookup_outcome(true, None), CacheLookup::Empty));
    assert!(matches!(CacheOps::lookup_outcome(false, Some(vec![1])), CacheLookup::Miss));
    match CacheOps::lookup_outcome(true, Some(CacheOps::payload(Some(vec![9, 8])))) {
        CacheLookup::Rows(r) => assert_eq!(r, vec![9, 8]),
        other => panic!("unexpected {:?}", other),
    }
}

#[test]
fn key_index_counts_reads_and_forgets_deleted_keys() {
    let mut ix = KeyIndex::new();
    ix.record_stored("sqlite:users:record:1");
    ix.record_stored("sqlite:users:record:1");
    assert_eq!(ix.count("sqlite:users:record:1"), Some(0));
    ix.record_hit("sqlite:users:record:1");
    ix.record_hit("sqlite:users:record:1");
    ix.record_hit("sqlite:orders:record:2");
    assert_eq!(ix.count("sqlite:users:record:1"), Some(2));
    assert_eq!(ix.count("sqlite:orders:record:2"), Some(1));
    assert_eq!(ix.len(), 2);
    ix.record_deleted("sqlite:orders:record:2", false);
    assert_eq!(ix.len(), 2);
    ix.record_deleted("sqlite:orders:record:2", true);
    assert_eq!(ix.count("sqlite:orders:record:2"), None);
    assert_eq!(ix.len(), 1);
}

#[test]
fn clearing_by_prefix() {
    let mut ix = KeyIndex::new();
    for k in ["sqlite:users:record:1", "sqlite:users:query:q", "sqlite:orders:record:1", "mysql:users:record:1"] {
        ix.record_stored(k);
    }
    let prefix = CacheOps::table_prefix("sqlite", "users");
    let mut listed = ix.keys_with_prefix(&prefix);
    listed.sort();
    assert_eq!(listed, vec!["sqlite:users:query:q".to_string(), "sqlite:users:record:1".to_string()]);
    ix.record_cleared(&listed, 0);
    assert_eq!(ix.len(), 4);
    ix.record_cleared(&listed, 2);
    assert_eq!(ix.len(), 2);
    assert!(ix.keys_with_prefix(&prefix).is_empty());
    assert_eq!(ix.keys_with_prefix("sqlite:").len(), 1);
    assert_eq!(ix.count("mysql:users:record:1"), Some(0));
}

#[test]
fn cache_engine_settings() {
    let cfg = CacheConfig::new()
        .with_strategy(CacheStrategy::Lfu)
        .with_l1_config(L1CacheConfig::new().with_max_capacity(500).with_max_memory_mb(64));
    let m = memory_level_settings(&cfg);
    assert_eq!(m.max_memory, 64 * 1024 * 1024);
    assert_eq!(m.max_entries, 500);
    assert_eq!(m.eviction_strategy, EvictionStrategy::Lfu);
    let custom = CacheConfig::new().with_strategy(CacheStrategy::Custom("mine".to_string()));
    assert_eq!(memory_level_settings(&custom).eviction_strategy, EvictionStrategy::Lru);
    let fifo = CacheConfig::new().with_strategy(CacheStrategy::Fifo);
    assert_eq!(memory_level_settings(&fifo).eviction_strategy, EvictionStrategy::Fifo);
    let d = disabled_disk_level();
    assert!(!d.enable_l2_cache && d.data_dir.is_none());
    assert_eq!(d.max_disk_size, 256 * 1024 * 1024);
    assert_eq!(d.cache_warmup_strategy, WarmupStrategy::Recent);
    assert_eq!(d.l2_write_strategy, "async");
    assert_eq!((d.l2_write_threshold, d.l2_write_ttl_threshold), (1024, 3600));
}
