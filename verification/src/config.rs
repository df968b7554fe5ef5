//! Database, connection, TLS, compression, pool and cache configuration, with
//! their defaults and builders.

use vstd::prelude::*;
use crate::types::{DatabaseType, IdStrategy};
use crate::text::str_to_string;

verus! {

/// TLS options of a connection.
#[derive(Debug, Clone)]
pub struct TlsConfig {
    pub enabled: bool,
    pub ca_cert_path: Option<String>,
    pub client_cert_path: Option<String>,
    pub client_key_path: Option<String>,
    pub verify_server_cert: bool,
    pub verify_hostname: bool,
    /// The lowest accepted TLS version, such as `1.2`.
    pub min_tls_version: Option<String>,
    pub cipher_suites: Option<Vec<String>>,
}

/// The default TLS options: disabled, verifying certificate and host name,
/// at least TLS 1.2, no paths and no cipher list.
pub open spec fn tls_defaults(t: TlsConfig, enabled: bool) -> bool {
    &&& t.enabled == enabled
    &&& t.ca_cert_path is None
    &&& t.client_cert_path is None
    &&& t.client_key_path is None
    &&& t.verify_server_cert
    &&& t.verify_hostname
    &&& t.min_tls_version matches Some(v) && v@ == "1.2"@
    &&& t.cipher_suites is None
}

impl Default for TlsConfig {
    fn default() -> (r: TlsConfig)
        ensures
            tls_defaults(r, false),
    {
        TlsConfig {
            enabled: false,
            ca_cert_path: None,
            client_cert_path: None,
            client_key_path: None,
            verify_server_cert: true,
            verify_hostname: true,
            min_tls_version: Some(str_to_string("1.2")),
            cipher_suites: None,
        }
    }
}

impl TlsConfig {
    /// The default options with TLS enabled.
    pub fn enabled() -> (r: TlsConfig)
        ensures
            tls_defaults(r, true),
    {
        let mut t = TlsConfig::default();
        t.enabled = true;
        t
    }

    /// Sets the CA certificate path.
    pub fn with_ca_cert(self, path: &str) -> (r: TlsConfig)
        ensures
            r.ca_cert_path matches Some(p) && p@ == path@,
            r == (TlsConfig { ca_cert_path: r.ca_cert_path, ..self }),
    {
        TlsConfig { ca_cert_path: Some(str_to_string(path)), ..self }
    }

    /// Sets the client certificate and key paths.
    pub fn with_client_cert(self, cert_path: &str, key_path: &str) -> (r: TlsConfig)
        ensures
            r.client_cert_path matches Some(p) && p@ == cert_path@,
            r.client_key_path matches Some(p) && p@ == key_path@,
            r == (TlsConfig { client_cert_path: r.client_cert_path, client_key_path: r.client_key_path, ..self }),
    {
        TlsConfig { client_cert_path: Some(str_to_string(cert_path)), client_key_path: Some(str_to_string(key_path)), ..self }
    }

    /// Sets whether the server certificate is verified.
    pub fn verify_server_cert(self, verify: bool) -> (r: TlsConfig)
        ensures
            r == (TlsConfig { verify_server_cert: verify, ..self }),
    {
        TlsConfig { verify_server_cert: verify, ..self }
    }

    /// Sets whether the host name is verified.
    pub fn verify_hostname(self, verify: bool) -> (r: TlsConfig)
        ensures
            r == (TlsConfig { verify_hostname: verify, ..self }),
    {
        TlsConfig { verify_hostname: verify, ..self }
    }

    /// Sets the lowest accepted TLS version.
    pub fn with_min_tls_version(self, version: &str) -> (r: TlsConfig)
        ensures
            r.min_tls_version matches Some(v) && v@ == version@,
            r == (TlsConfig { min_tls_version: r.min_tls_version, ..self }),
    {
        TlsConfig { min_tls_version: Some(str_to_string(version)), ..self }
    }

    /// Sets the accepted cipher suites.
    pub fn with_cipher_suites(self, suites: Vec<String>) -> (r: TlsConfig)
        ensures
            r == (TlsConfig { cipher_suites: Some(suites), ..self }),
    {
        TlsConfig { cipher_suites: Some(suites), ..self }
    }
}

/// Zstd compression options (for MongoDB).
#[derive(Debug, Clone, Copy, PartialEq, Eq, Structural)]
pub struct ZstdConfig {
    pub enabled: bool,
    /// The compression level, 1 to 22.
    pub compression_level: Option<i32>,
    /// Payloads below this many bytes are not compressed.
    pub compression_threshold: Option<usize>,
}

impl Default for ZstdConfig {
    fn default() -> (r: ZstdConfig)
        ensures
            r == (ZstdConfig { enabled: false, compression_level: Some(3), compression_threshold: Some(1024) }),
    {
        ZstdConfig { enabled: false, compression_level: Some(3), compression_threshold: Some(1024) }
    }
}

/// `level` clamped to 1..=22.
pub open spec fn clamp_level(level: i32) -> i32 {
    if level < 1 {
        1
    } else if level > 22 {
        22
    } else {
        level
    }
}

impl ZstdConfig {
    /// The default options with compression enabled.
    pub fn enabled() -> (r: ZstdConfig)
        ensures
            r == (ZstdConfig { enabled: true, compression_level: Some(3), compression_threshold: Some(1024) }),
    {
        ZstdConfig { enabled: true, ..ZstdConfig::default() }
    }

    /// Sets the compression level, clamped to 1..=22.
    pub fn with_compression_level(self, level: i32) -> (r: ZstdConfig)
        ensures
            r == (ZstdConfig { compression_level: Some(clamp_level(level)), ..self }),
    {
        let l: i32 = if level < 1 {
            1
        } else if level > 22 {
            22
        } else {
            level
        };
        ZstdConfig { compression_level: Some(l), ..self }
    }

    /// Sets the compression threshold in bytes.
    pub fn with_compression_threshold(self, threshold: usize) -> (r: ZstdConfig)
        ensures
            r == (ZstdConfig { compression_threshold: Some(threshold), ..self }),
    {
        ZstdConfig { compression_threshold: Some(threshold), ..self }
    }
}

/// Connection pool sizes and timeouts (seconds).
#[derive(Debug, Clone, Copy, PartialEq, Eq, Structural)]
pub struct PoolConfig {
    pub min_connections: u32,
    pub max_connections: u32,
    pub connection_timeout: u64,
    pub idle_timeout: u64,
    pub max_lifetime: u64,
}

impl Default for PoolConfig {
    fn default() -> (r: PoolConfig)
        ensures
            r == (PoolConfig {
                min_connections: 1,
                max_connections: 10,
                connection_timeout: 30,
                idle_timeout: 600,
                max_lifetime: 3600,
            }),
    {
        PoolConfig { min_connections: 1, max_connections: 10, connection_timeout: 30, idle_timeout: 600, max_lifetime: 3600 }
    }
}

/// How to reach a database.
#[derive(Debug, Clone)]
pub enum ConnectionConfig {
    /// A database file.
    SQLite { path: String, create_if_missing: bool },
    PostgreSQL {
        host: String,
        port: u16,
        database: String,
        username: String,
        password: String,
        /// `disable`, `allow`, `prefer`, `require`, `verify-ca` or `verify-full`.
        ssl_mode: Option<String>,
        tls_config: Option<TlsConfig>,
    },
    MySQL {
        host: String,
        port: u16,
        database: String,
        username: String,
        password: String,
        /// SSL options, by name.
        ssl_opts: Option<std::collections::HashMap<String, String>>,
        tls_config: Option<TlsConfig>,
    },
    MongoDB {
        /// The connection URI.
        uri: String,
        database: String,
        auth_source: Option<String>,
        tls_config: Option<TlsConfig>,
        zstd_config: Option<ZstdConfig>,
    },
}

/// A database: its kind, how to reach it, its pool, its alias, its cache and how
/// its records get IDs.
#[derive(Debug, Clone)]
pub struct DatabaseConfig {
    pub db_type: DatabaseType,
    pub connection: ConnectionConfig,
    pub pool: PoolConfig,
    /// The name under which the database is registered (`default` by convention).
    pub alias: String,
    pub cache: Option<CacheConfig>,
    pub id_strategy: IdStrategy,
}

/// Which entries a full cache evicts.
#[derive(Debug, Clone)]
pub enum CacheStrategy {
    Lru,
    Lfu,
    Fifo,
    Custom(String),
}

/// The in-memory cache level.
#[derive(Debug, Clone, Copy, PartialEq, Eq, Structural)]
pub struct L1CacheConfig {
    /// Entries at most.
    pub max_capacity: usize,
    /// Memory at most, in MB.
    pub max_memory_mb: usize,
    pub enable_stats: bool,
}

/// The on-disk cache level.
#[derive(Debug, Clone)]
pub struct L2CacheConfig {
    pub storage_path: String,
    /// Disk at most, in MB.
    pub max_disk_mb: usize,
    /// 0 to 22.
    pub compression_level: i32,
    pub enable_wal: bool,
}

/// Cache entry lifetimes, in seconds.
#[derive(Debug, Clone, Copy, PartialEq, Eq, Structural)]
pub struct TtlConfig {
    pub default_ttl_secs: u64,
    pub max_ttl_secs: u64,
    pub check_interval_secs: u64,
}

/// Compression algorithms for cached values.
#[derive(Debug, Clone, Copy, PartialEq, Eq, Structural)]
pub enum CompressionAlgorithm {
    Zstd,
    Lz4,
    Gzip,
}

/// Compression of cached values.
#[derive(Debug, Clone, Copy, PartialEq, Eq, Structural)]
pub struct CompressionConfig {
    pub enabled: bool,
    pub algorithm: CompressionAlgorithm,
    /// Values below this many bytes are not compressed.
    pub threshold_bytes: usize,
}

/// The cache of a database.
#[derive(Debug, Clone)]
pub struct CacheConfig {
    pub enabled: bool,
    pub strategy: CacheStrategy,
    pub l1_config: L1CacheConfig,
    pub l2_config: Option<L2CacheConfig>,
    pub ttl_config: TtlConfig,
    pub compression_config: CompressionConfig,
}

/// The default L1 level: 10000 entries, 100 MB, statistics on.
pub open spec fn l1_default() -> L1CacheConfig {
    L1CacheConfig { max_capacity: 10000, max_memory_mb: 100, enable_stats: true }
}

/// The default lifetimes: one hour, at most one day, checked every five minutes.
pub open spec fn ttl_default() -> TtlConfig {
    TtlConfig { default_ttl_secs: 3600, max_ttl_secs: 86400, check_interval_secs: 300 }
}

/// The default compression: zstd from 1 KB up.
pub open spec fn compression_default() -> CompressionConfig {
    CompressionConfig { enabled: true, algorithm: CompressionAlgorithm::Zstd, threshold_bytes: 1024 }
}

/// The default cache: enabled, LRU, default levels, no L2.
pub open spec fn cache_defaults(c: CacheConfig) -> bool {
    &&& c.enabled
    &&& c.strategy is Lru
    &&& c.l1_config == l1_default()
    &&& c.l2_config is None
    &&& c.ttl_config == ttl_default()
    &&& c.compression_config == compression_default()
}

impl Default for L1CacheConfig {
    fn default() -> (r: L1CacheConfig)
        ensures
            r == l1_default(),
    {
        L1CacheConfig { max_capacity: 10000, max_memory_mb: 100, enable_stats: true }
    }
}

impl Default for TtlConfig {
    fn default() -> (r: TtlConfig)
        ensures
            r == ttl_default(),
    {
        TtlConfig { default_ttl_secs: 3600, max_ttl_secs: 86400, check_interval_secs: 300 }
    }
}

impl Default for CompressionConfig {
    fn default() -> (r: CompressionConfig)
        ensures
            r == compression_default(),
    {
        CompressionConfig { enabled: true, algorithm: CompressionAlgorithm::Zstd, threshold_bytes: 1024 }
    }
}

impl Default for CacheConfig {
    fn default() -> (r: CacheConfig)
        ensures
            cache_defaults(r),
    {
        CacheConfig {
            enabled: true,
            strategy: CacheStrategy::Lru,
            l1_config: L1CacheConfig::default(),
            l2_config: None,
            ttl_config: TtlConfig::default(),
            compression_config: CompressionConfig::default(),
        }
    }
}

impl CacheConfig {
    /// The default cache configuration.
    pub fn new() -> (r: CacheConfig)
        ensures
            cache_defaults(r),
    {
        CacheConfig::default()
    }

    /// Turns the cache on or off.
    pub fn enabled(self, enabled: bool) -> (r: CacheConfig)
        ensures
            r == (CacheConfig { enabled, ..self }),
    {
        CacheConfig { enabled, ..self }
    }

    /// Sets the eviction strategy.
    pub fn with_strategy(self, strategy: CacheStrategy) -> (r: CacheConfig)
        ensures
            r == (CacheConfig { strategy, ..self }),
    {
        CacheConfig { strategy, ..self }
    }

    /// Sets the L1 level.
    pub fn with_l1_config(self, config: L1CacheConfig) -> (r: CacheConfig)
        ensures
            r == (CacheConfig { l1_config: config, ..self }),
    {
        CacheConfig { l1_config: config, ..self }
    }

    /// Sets the L2 level.
    pub fn with_l2_config(self, config: L2CacheConfig) -> (r: CacheConfig)
        ensures
            r == (CacheConfig { l2_config: Some(config), ..self }),
    {
        CacheConfig { l2_config: Some(config), ..self }
    }

    /// Sets the lifetimes.
    pub fn with_ttl_config(self, config: TtlConfig) -> (r: CacheConfig)
        ensures
            r == (CacheConfig { ttl_config: config, ..self }),
    {
        CacheConfig { ttl_config: config, ..self }
    }

    /// Sets the compression.
    pub fn with_compression_config(self, config: CompressionConfig) -> (r: CacheConfig)
        ensures
            r == (CacheConfig { compression_config: config, ..self }),
    {
        CacheConfig { compression_config: config, ..self }
    }
}

impl L1CacheConfig {
    /// The default L1 level.
    pub fn new() -> (r: L1CacheConfig)
        ensures
            r == l1_default(),
    {
        L1CacheConfig::default()
    }

    /// Sets the entry limit.
    pub fn with_max_capacity(self, capacity: usize) -> (r: L1CacheConfig)
        ensures
            r == (L1CacheConfig { max_capacity: capacity, ..self }),
    {
        L1CacheConfig { max_capacity: capacity, ..self }
    }

    /// Sets the memory limit in MB.
    pub fn with_max_memory_mb(self, memory_mb: usize) -> (r: L1CacheConfig)
        ensures
            r == (L1CacheConfig { max_memory_mb: memory_mb, ..self }),
    {
        L1CacheConfig { max_memory_mb: memory_mb, ..self }
    }

    /// Turns statistics on or off.
    pub fn enable_stats(self, enable: bool) -> (r: L1CacheConfig)
        ensures
            r == (L1CacheConfig { enable_stats: enable, ..self }),
    {
        L1CacheConfig { enable_stats: enable, ..self }
    }
}

impl L2CacheConfig {
    /// An L2 level stored at `storage_path`: 1000 MB, compression level 3, WAL on.
    pub fn new(storage_path: String) -> (r: L2CacheConfig)
        ensures
            r == (L2CacheConfig { storage_path, max_disk_mb: 1000, compression_level: 3, enable_wal: true }),
    {
        L2CacheConfig { storage_path, max_disk_mb: 1000, compression_level: 3, enable_wal: true }
    }

    /// Sets the disk limit in MB.
    pub fn with_max_disk_mb(self, disk_mb: usize) -> (r: L2CacheConfig)
        ensures
            r == (L2CacheConfig { max_disk_mb: disk_mb, ..self }),
    {
        L2CacheConfig { max_disk_mb: disk_mb, ..self }
    }

    /// Sets the compression level (taken as given).
    pub fn with_compression_level(self, level: i32) -> (r: L2CacheConfig)
        ensures
            r == (L2CacheConfig { compression_level: level, ..self }),
    {
        L2CacheConfig { compression_level: level, ..self }
    }

    /// Turns the write-ahead log on or off.
    pub fn enable_wal(self, enable: bool) -> (r: L2CacheConfig)
        ensures
            r == (L2CacheConfig { enable_wal: enable, ..self }),
    {
        L2CacheConfig { enable_wal: enable, ..self }
    }
}

impl TtlConfig {
    /// The default lifetimes.
    pub fn new() -> (r: TtlConfig)
        ensures
            r == ttl_default(),
    {
        TtlConfig::default()
    }

    /// Sets the default lifetime.
    pub fn with_default_ttl_secs(self, ttl_secs: u64) -> (r: TtlConfig)
        ensures
            r == (TtlConfig { default_ttl_secs: ttl_secs, ..self }),
    {
        TtlConfig { default_ttl_secs: ttl_secs, ..self }
    }

    /// Sets the longest lifetime.
    pub fn with_max_ttl_secs(self, ttl_secs: u64) -> (r: TtlConfig)
        ensures
            r == (TtlConfig { max_ttl_secs: ttl_secs, ..self }),
    {
        TtlConfig { max_ttl_secs: ttl_secs, ..self }
    }

    /// Sets the expiry check interval.
    pub fn with_check_interval_secs(self, interval_secs: u64) -> (r: TtlConfig)
        ensures
            r == (TtlConfig { check_interval_secs: interval_secs, ..self }),
    {
        TtlConfig { check_interval_secs: interval_secs, ..self }
    }
}

impl CompressionConfig {
    /// The default compression.
    pub fn new() -> (r: CompressionConfig)
        ensures
            r == compression_default(),
    {
        CompressionConfig::default()
    }

    /// Turns compression on or off.
    pub fn enabled(self, enabled: bool) -> (r: CompressionConfig)
        ensures
            r == (CompressionConfig { enabled, ..self }),
    {
        CompressionConfig { enabled, ..self }
    }

    /// Sets the algorithm.
    pub fn with_algorithm(self, algorithm: CompressionAlgorithm) -> (r: CompressionConfig)
        ensures
            r == (CompressionConfig { algorithm, ..self }),
    {
        CompressionConfig { algorithm, ..self }
    }

    /// Sets the threshold in bytes.
    pub fn with_threshold_bytes(self, threshold: usize) -> (r: CompressionConfig)
        ensures
            r == (CompressionConfig { threshold_bytes: threshold, ..self }),
    {
        CompressionConfig { threshold_bytes: threshold, ..self }
    }
}

} // verus!
