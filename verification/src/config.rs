//! The configuration surface: storage, caching, vector index, traversal,
//! security, logging and feature settings, and the per-agent memory tuning.
//!
//! Fractional settings are integers in thousandths; paths are plain strings.

use vstd::prelude::*;

verus! {

/// The storage engine.
#[derive(Debug, Clone, PartialEq, Eq, Structural)]
pub enum DatabaseType {
    /// An SQLite file.
    SQLite,
}

/// How backups are taken.
#[derive(Debug, Clone, PartialEq)]
pub struct BackupConfig {
    /// Whether backups run on a schedule.
    pub enabled: bool,
    /// Hours between backups.
    pub interval_hours: u64,
    /// Days a backup is kept.
    pub retention_days: u64,
    /// Where backups are written.
    pub backup_path: String,
    /// Whether backups are compressed.
    pub compress: bool,
}

impl Default for BackupConfig {
    /// Daily compressed backups, kept a week.
    fn default() -> (r: BackupConfig)
        ensures
            r.enabled,
            r.interval_hours == 24,
            r.retention_days == 7,
            r.compress,
    {
        BackupConfig {
            enabled: true,
            interval_hours: 24,
            retention_days: 7,
            backup_path: String::from_str("./backups"),
            compress: true,
        }
    }
}

/// How the store connects to its database.
#[derive(Debug, Clone, PartialEq)]
pub struct DatabaseConfig {
    /// The storage engine.
    pub database_type: DatabaseType,
    /// Connection URL.
    pub url: String,
    /// Connections opened at most.
    pub max_connections: u32,
    /// Connections kept open at least.
    pub min_connections: u32,
    /// Seconds to wait when connecting.
    pub connect_timeout: u64,
    /// Seconds an idle connection is kept.
    pub idle_timeout: u64,
    /// Seconds a connection lives at most.
    pub max_lifetime: u64,
    /// Whether transport security is on.
    pub enable_ssl: bool,
    /// Path of the transport certificate, if any.
    pub ssl_cert_path: Option<String>,
    /// Name of the database.
    pub database_name: String,
    /// Prefix of every table name.
    pub table_prefix: String,
    /// Whether the schema migrates itself at startup.
    pub auto_migrate: bool,
    /// Backup settings.
    pub backup: BackupConfig,
}

/// The cache backend.
#[derive(Debug, Clone, PartialEq, Eq, Structural)]
pub enum CacheType {
    /// In-process memory.
    Memory,
    /// A remote cache service.
    Redis,
    /// Memory first, the service behind it.
    Hybrid,
}

/// Connection settings of a remote cache.
#[derive(Debug, Clone, PartialEq)]
pub struct RedisConfig {
    /// Service URL.
    pub url: String,
    /// Connections pooled.
    pub pool_size: u32,
    /// Milliseconds to wait when connecting.
    pub connect_timeout_ms: u64,
    /// Milliseconds to wait per command.
    pub command_timeout_ms: u64,
    /// Credential, if the service wants one.
    pub password: Option<String>,
    /// Numbered database to select.
    pub database: u8,
}

/// Which entries are loaded ahead of use.
#[derive(Debug, Clone, PartialEq, Eq, Structural)]
pub enum WarmupStrategy {
    /// The most recently accessed entries.
    RecentlyAccessed,
    /// The entries of highest importance.
    HighImportance,
    /// The most frequently accessed entries.
    HighFrequency,
    /// A blend of the above.
    Mixed,
}

/// Cache warmup settings.
#[derive(Debug, Clone, PartialEq)]
pub struct WarmupConfig {
    /// Whether warmup runs at startup.
    pub enabled: bool,
    /// Entries loaded ahead of use.
    pub memory_count: usize,
    /// Which entries are loaded.
    pub strategy: WarmupStrategy,
}

/// Cache sizing and lifetime.
#[derive(Debug, Clone, PartialEq)]
pub struct CacheConfig {
    /// Whether caching is on.
    pub enabled: bool,
    /// The backend.
    pub cache_type: CacheType,
    /// Megabytes the cache may hold.
    pub max_size_mb: u64,
    /// Seconds an entry lives.
    pub ttl_seconds: u64,
    /// Entries the LRU structure holds.
    pub lru_capacity: usize,
    /// Remote settings when the backend is remote.
    pub redis: Option<RedisConfig>,
    /// Warmup settings.
    pub warmup: WarmupConfig,
}

/// The vector index structure.
#[derive(Debug, Clone, PartialEq, Eq, Structural)]
pub enum VectorIndexType {
    /// Exhaustive scan.
    Flat,
    /// Inverted-file index.
    IVF,
    /// Graph-based index.
    HNSW,
    /// Hash-based index.
    LSH,
}

/// How vector distance is measured.
#[derive(Debug, Clone, PartialEq, Eq, Structural)]
pub enum DistanceMetric {
    /// Angle between vectors.
    Cosine,
    /// Straight-line distance.
    Euclidean,
    /// Coordinate-wise distance.
    Manhattan,
    /// Inner product.
    DotProduct,
}

/// Build parameters of the vector index.
#[derive(Debug, Clone, PartialEq, Eq, Structural)]
pub struct IndexParams {
    /// Clusters of an inverted-file index.
    pub nlist: Option<usize>,
    /// Neighbors per node of a graph index.
    pub m: Option<usize>,
    /// Candidate width while building a graph index.
    pub ef_construction: Option<usize>,
    /// Tables of a hash index.
    pub num_tables: Option<usize>,
    /// Hash functions per table.
    pub num_hash_funcs: Option<usize>,
}

impl Default for IndexParams {
    /// No structure parameters: the exhaustive index needs none.
    fn default() -> (r: IndexParams)
        ensures
            r.nlist is None && r.m is None && r.ef_construction is None,
            r.num_tables is None && r.num_hash_funcs is None,
    {
        IndexParams {
            nlist: None,
            m: None,
            ef_construction: None,
            num_tables: None,
            num_hash_funcs: None,
        }
    }
}

/// Search parameters of the vector index.
#[derive(Debug, Clone, PartialEq, Eq, Structural)]
pub struct SearchParams {
    /// Clusters probed on an inverted-file index.
    pub nprobe: Option<usize>,
    /// Candidate width while searching a graph index.
    pub ef_search: Option<usize>,
    /// Results returned at most.
    pub max_results: usize,
    /// Milliseconds a search may take.
    pub timeout_ms: u64,
}

/// Bounds on graph traversal.
#[derive(Debug, Clone, PartialEq, Eq, Structural)]
pub struct TraversalConfig {
    /// Hops followed at most.
    pub max_depth: usize,
    /// Nodes visited at most.
    pub max_visited_nodes: usize,
    /// Milliseconds a traversal may take.
    pub timeout_ms: u64,
    /// Whether revisits are detected and skipped.
    pub cycle_detection: bool,
}

impl Default for TraversalConfig {
    /// Three hops over at most ten thousand nodes, cycles detected.
    fn default() -> (r: TraversalConfig)
        ensures
            r.max_depth == 3,
            r.max_visited_nodes == 10000,
            r.timeout_ms == 5000,
            r.cycle_detection,
    {
        TraversalConfig {
            max_depth: 3,
            max_visited_nodes: 10000,
            timeout_ms: 5000,
            cycle_detection: true,
        }
    }
}

/// Who may read and write.
#[derive(Debug, Clone, PartialEq)]
pub struct AccessControlConfig {
    /// Whether access control is enforced.
    pub enabled: bool,
    /// Permissions granted by default.
    pub default_permissions: Vec<String>,
    /// Users with full rights.
    pub admin_users: Vec<String>,
    /// Users restricted to reading.
    pub readonly_users: Vec<String>,
}

/// What is recorded about access.
#[derive(Debug, Clone, PartialEq)]
pub struct AuditConfig {
    /// Whether auditing is on.
    pub enabled: bool,
    /// Where the audit log is written.
    pub log_path: String,
    /// Event kinds recorded.
    pub event_types: Vec<String>,
    /// Days an audit record is kept.
    pub retention_days: u64,
}

impl Default for AuditConfig {
    /// Auditing off until configured; ninety days of retention.
    fn default() -> (r: AuditConfig)
        ensures
            !r.enabled,
            r.retention_days == 90,
            r.event_types@.len() == 0,
    {
        AuditConfig {
            enabled: false,
            log_path: String::from_str("./audit.log"),
            event_types: Vec::new(),
            retention_days: 90,
        }
    }
}

/// Authentication and encryption settings.
#[derive(Debug, Clone, PartialEq)]
pub struct SecurityConfig {
    /// Whether callers authenticate.
    pub enable_auth: bool,
    /// Token-signing secret, if set.
    pub jwt_secret: Option<String>,
    /// Hours a token lives.
    pub token_expiry_hours: u64,
    /// Whether stored data is encrypted.
    pub enable_encryption: bool,
    /// Encryption key, if set.
    pub encryption_key: Option<String>,
    /// Access rules.
    pub access_control: AccessControlConfig,
    /// Audit rules.
    pub audit: AuditConfig,
}

/// How much is logged.
#[derive(Debug, Clone, PartialEq, Eq, Structural)]
pub enum LogLevel {
    /// Failures only.
    Error,
    /// Failures and warnings.
    Warn,
    /// Ordinary operation.
    Info,
    /// Diagnostic detail.
    Debug,
    /// Everything.
    Trace,
}

/// The shape of log lines.
#[derive(Debug, Clone, PartialEq, Eq, Structural)]
pub enum LogFormat {
    /// Human-readable text.
    Plain,
    /// Structured records.
    Json,
    /// Terse text.
    Compact,
}

/// Where log lines go.
#[derive(Debug, Clone, PartialEq, Eq, Structural)]
pub enum LogTarget {
    /// Standard output.
    Console,
    /// A log file.
    File,
    /// The system log.
    Syslog,
}

/// Logging settings.
#[derive(Debug, Clone, PartialEq)]
pub struct LoggingConfig {
    /// How much is logged.
    pub level: LogLevel,
    /// The line format.
    pub format: LogFormat,
    /// Where lines go.
    pub targets: Vec<LogTarget>,
    /// The log file, when one is a target.
    pub file_path: Option<String>,
    /// Megabytes a log file may grow to.
    pub max_file_size_mb: u64,
    /// Log files kept.
    pub max_files: u32,
    /// Whether records carry structured fields.
    pub structured: bool,
}

/// Switches for optional behaviour.
#[derive(Debug, Clone, PartialEq)]
pub struct FeatureFlags {
    /// Whether unfinished features are on.
    pub experimental_features: bool,
    /// Whether diagnostics are verbose.
    pub debug_mode: bool,
    /// Whether profiling hooks run.
    pub profiling: bool,
    /// Whether variant experiments run.
    pub ab_testing: bool,
    /// Named switches, free-form.
    pub custom_flags: Vec<(String, bool)>,
}

impl Default for FeatureFlags {
    /// Everything off.
    fn default() -> (r: FeatureFlags)
        ensures
            !r.experimental_features && !r.debug_mode && !r.profiling && !r.ab_testing,
            r.custom_flags@.len() == 0,
    {
        FeatureFlags {
            experimental_features: false,
            debug_mode: false,
            profiling: false,
            ab_testing: false,
            custom_flags: Vec::new(),
        }
    }
}

/// Per-agent memory tuning. Fractions are in thousandths: a time-decay
/// constant of 24000 is twenty-four hours, an importance weight of 1500
/// boosts by one and a half.
#[derive(Debug, Clone, Copy, PartialEq)]
pub struct MemoryConfig {
    /// Whether retrieval runs at all.
    pub enabled: bool,
    /// Candidates returned by retrieval.
    pub top_k: usize,
    /// Time-decay constant, hours in thousandths.
    pub time_decay_factor: u64,
    /// Importance boost, in thousandths.
    pub importance_weight: u64,
    /// Characters the retrieved context may hold.
    pub max_context_length: usize,
    /// Importance a turn needs for a semantic chunk, on the ten-point scale.
    pub semantic_chunk_threshold: i32,
    /// Whether co-occurrence edges are written.
    pub enable_graph_updates: bool,
    /// Divisor from turn importance to edge weight, in thousandths.
    pub cooccur_weight_divisor: i64,
    /// Least weight an edge is created with, in thousandths.
    pub min_edge_weight: i64,
    /// Greatest weight an edge is created with, in thousandths.
    pub max_edge_weight: i64,
    /// Whether a repeated edge accumulates weight.
    pub enable_weight_accumulation: bool,
}

impl Default for MemoryConfig {
    /// Retrieval off until enabled; five candidates, a day of decay, a
    /// boost of one and a half, two thousand characters; chunks from
    /// importance five; edge weights from a divisor of ten, clamped to
    /// [0.1, 2.0], accumulated.
    fn default() -> (r: MemoryConfig)
        ensures
            r == MemoryConfig::spec_default(),
    {
        MemoryConfig {
            enabled: false,
            top_k: 5,
            time_decay_factor: 24000,
            importance_weight: 1500,
            max_context_length: 2000,
            semantic_chunk_threshold: 5,
            enable_graph_updates: false,
            cooccur_weight_divisor: 10000,
            min_edge_weight: 100,
            max_edge_weight: 2000,
            enable_weight_accumulation: true,
        }
    }
}

impl MemoryConfig {
    /// The stock configuration with retrieval switched on.
    pub fn enabled() -> (r: MemoryConfig)
        ensures
            r == (MemoryConfig { enabled: true, ..MemoryConfig::spec_default() }),
    {
        MemoryConfig { enabled: true, ..Default::default() }
    }

    /// The stock configuration with retrieval switched off.
    pub fn disabled() -> (r: MemoryConfig)
        ensures
            r == MemoryConfig::spec_default(),
    {
        Default::default()
    }

    /// The stock configuration's value.
    pub open spec fn spec_default() -> MemoryConfig {
        MemoryConfig {
            enabled: false,
            top_k: 5,
            time_decay_factor: 24000,
            importance_weight: 1500,
            max_context_length: 2000,
            semantic_chunk_threshold: 5,
            enable_graph_updates: false,
            cooccur_weight_divisor: 10000,
            min_edge_weight: 100,
            max_edge_weight: 2000,
            enable_weight_accumulation: true,
        }
    }
}

} // verus!
