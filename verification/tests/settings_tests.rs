use rat_quickdb::config::{
    CacheConfig, CacheStrategy, CompressionAlgorithm, CompressionConfig, L1CacheConfig, L2CacheConfig, TlsConfig,
    TtlConfig, ZstdConfig,
};
use rat_quickdb::serializer::{query_result_fields, retain_fields, OutputFormat, SerializerConfig};
use rat_quickdb::task_options::{ConflictStrategy, CreateOptions, IsolationLevel, TransactionOptions};
use rat_quickdb::types::{DataValue, Entry};

fn e(k: &str, v: DataValue) -> Entry {
    Entry { key: k.to_string(), value: v }
}

#[test]
fn serializer_settings() {
    let d = SerializerConfig::default();
    assert_eq!(d.format, OutputFormat::JsonString);
    assert!(d.include_null && !d.pretty);
    let r = SerializerConfig::for_rust();
    assert_eq!(r.format, OutputFormat::JsonObject);
    assert!(!r.include_null);
    let p = SerializerConfig::for_pyo3();
    assert_eq!(p.float_precision, Some(6));
    assert_eq!(p.datetime_format.as_deref(), Some("%Y-%m-%dT%H:%M:%S%.3fZ"));
    let g = SerializerConfig::for_debug();
    assert!(g.pretty);
    assert_eq!(g.float_precision, Some(2));
    let c = SerializerConfig::new()
        .format(OutputFormat::RawData)
        .pretty(true)
        .include_null(false)
        .datetime_format("%Y")
        .float_precision(3);
    assert_eq!(c.format, OutputFormat::RawData);
    assert!(c.pretty && !c.include_null);
    assert_eq!(c.datetime_format.as_deref(), Some("%Y"));
    assert_eq!(c.float_precision, Some(3));
}

#[test]
fn records_drop_nulls_when_asked() {
    let rec = vec![e("a", DataValue::Int(1)), e("b", DataValue::Null), e("c", DataValue::Bool(true))];
    let kept = retain_fields(&SerializerConfig::for_rust(), rec);
    let keys: Vec<&str> = kept.iter().map(|x| x.key.as_str()).collect();
    assert_eq!(keys, vec!["a", "c"]);
    let rec = vec![e("b", DataValue::Null)];
    assert_eq!(retain_fields(&SerializerConfig::default(), rec).len(), 1);
}

#[test]
fn query_result_shape() {
    let recs = vec![vec![e("a", DataValue::Int(1))], vec![]];
    let out = query_result_fields(recs, Some(10), Some(true));
    let keys: Vec<&str> = out.iter().map(|x| x.key.as_str()).collect();
    assert_eq!(keys, vec!["data", "total_count", "has_more", "count"]);
    assert!(matches!(&out[0].value, DataValue::Array(v) if v.len() == 2));
    assert!(matches!(out[1].value, DataValue::Int(10)));
    assert!(matches!(out[2].value, DataValue::Bool(true)));
    assert!(matches!(out[3].value, DataValue::Int(2)));
    let out = query_result_fields(vec![], None, None);
    let keys: Vec<&str> = out.iter().map(|x| x.key.as_str()).collect();
    assert_eq!(keys, vec!["data", "count"]);
}

#[test]
fn connection_settings_builders() {
    let t = TlsConfig::enabled()
        .with_ca_cert("/ca.pem")
        .with_client_cert("/c.pem", "/k.pem")
        .verify_server_cert(false)
        .verify_hostname(false)
        .with_min_tls_version("1.2")
        .with_cipher_suites(vec!["A".to_string()]);
    assert!(t.enabled);
    assert_eq!(t.ca_cert_path.as_deref(), Some("/ca.pem"));
    assert_eq!(t.client_cert_path.as_deref(), Some("/c.pem"));
    assert_eq!(t.client_key_path.as_deref(), Some("/k.pem"));
    assert!(!t.verify_server_cert && !t.verify_hostname);
    assert_eq!(t.min_tls_version.as_deref(), Some("1.2"));
    assert!(!TlsConfig::default().enabled);

    let z = ZstdConfig::enabled().with_compression_level(30).with_compression_threshold(64);
    assert!(z.enabled);
    assert_eq!(z.compression_level, Some(22));
    assert_eq!(z.compression_threshold, Some(64));
    assert_eq!(ZstdConfig::enabled().with_compression_level(0).compression_level, Some(1));
}

#[test]
fn cache_settings_builders() {
    let c = CacheConfig::new()
        .enabled(true)
        .with_strategy(CacheStrategy::Lfu)
        .with_l1_config(L1CacheConfig::new().with_max_capacity(5).with_max_memory_mb(6).enable_stats(true))
        .with_l2_config(L2CacheConfig::new("/tmp/c".to_string()).with_max_disk_mb(7).enable_wal(false))
        .with_ttl_config(TtlConfig::new().with_default_ttl_secs(8).with_max_ttl_secs(9).with_check_interval_secs(10))
        .with_compression_config(
            CompressionConfig::new().enabled(true).with_algorithm(CompressionAlgorithm::Zstd).with_threshold_bytes(11),
        );
    assert!(c.enabled);
    assert!(matches!(c.strategy, CacheStrategy::Lfu));
    assert_eq!(c.l1_config.max_capacity, 5);
    assert_eq!(c.l1_config.max_memory_mb, 6);
    assert!(c.l1_config.enable_stats);
    let l2 = c.l2_config.as_ref().unwrap();
    assert_eq!(l2.storage_path, "/tmp/c");
    assert_eq!(l2.max_disk_mb, 7);
    assert_eq!(c.ttl_config.default_ttl_secs, 8);
    assert_eq!(c.ttl_config.max_ttl_secs, 9);
    assert_eq!(c.ttl_config.check_interval_secs, 10);
    assert_eq!(c.compression_config.algorithm, CompressionAlgorithm::Zstd);
    assert_eq!(c.compression_config.threshold_bytes, 11);
}

#[test]
fn task_option_defaults() {
    let c = CreateOptions::default();
    assert_eq!(c.on_conflict, ConflictStrategy::Error);
    let t = TransactionOptions::default();
    assert_eq!(t.isolation_level, IsolationLevel::ReadCommitted);
}
