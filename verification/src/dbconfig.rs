//! Connection settings of the persistent store.

use vstd::prelude::*;

verus! {

/// Where the store lives.
#[derive(Debug, Clone, Copy, PartialEq, Eq, Structural)]
pub enum DatabaseType {
    /// An SQLite file on disk.
    Sqlite,
    /// An in-memory database, for tests.
    Memory,
}

/// How the store's database is opened.
#[derive(Debug, Clone, PartialEq)]
pub struct DatabaseConfig {
    /// Where the store lives.
    pub db_type: DatabaseType,
    /// Path of the database file.
    pub db_path: String,
    /// Connections pooled.
    pub pool_size: u32,
    /// Seconds to wait when connecting.
    pub timeout: u64,
    /// Whether missing tables are created at startup.
    pub auto_create_tables: bool,
}

impl Default for DatabaseConfig {
    /// An SQLite file under the data directory, ten pooled connections.
    fn default() -> (r: DatabaseConfig)
        ensures
            r.db_type == DatabaseType::Sqlite,
            r.db_path@ == "data/agent_kit.db"@,
            r.pool_size == 10,
            r.timeout == 30,
            r.auto_create_tables,
    {
        DatabaseConfig {
            db_type: DatabaseType::Sqlite,
            db_path: String::from_str("data/agent_kit.db"),
            pool_size: 10,
            timeout: 30,
            auto_create_tables: true,
        }
    }
}

impl DatabaseConfig {
    /// A configuration for the SQLite file at `path`.
    pub fn sqlite(path: &str) -> (r: DatabaseConfig)
        ensures
            r.db_type == DatabaseType::Sqlite,
            r.db_path@ == path@,
            r.pool_size == 10,
            r.timeout == 30,
            r.auto_create_tables,
    {
        DatabaseConfig {
            db_type: DatabaseType::Sqlite,
            db_path: String::from_str(path),
            pool_size: 10,
            timeout: 30,
            auto_create_tables: true,
        }
    }

    /// A configuration for an in-memory database, for tests.
    pub fn memory() -> (r: DatabaseConfig)
        ensures
            r.db_type == DatabaseType::Memory,
            r.db_path@ == ":memory:"@,
            r.pool_size == 10,
            r.timeout == 30,
            r.auto_create_tables,
    {
        DatabaseConfig {
            db_type: DatabaseType::Memory,
            db_path: String::from_str(":memory:"),
            pool_size: 10,
            timeout: 30,
            auto_create_tables: true,
        }
    }
}

/// Whole-database statistics the application reports.
#[derive(Debug, Clone, Copy, PartialEq, Eq, Structural)]
pub struct DatabaseStats {
    /// Bytes the database file occupies.
    pub db_size_bytes: u64,
    /// When the last backup was taken, epoch milliseconds.
    pub last_backup: Option<u64>,
}

} // verus!
