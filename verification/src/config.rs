//! Service configuration.

use vstd::prelude::*;

verus! {

/// Logging output format.
#[derive(Debug, Clone, Copy, PartialEq, Eq, Structural)]
pub enum LogFormat {
    /// Compact single-line output.
    Compact,
    /// Multi-line pretty output.
    Pretty,
}

impl Default for LogFormat {
    fn default() -> (r: LogFormat)
        ensures
            r == LogFormat::Compact,
    {
        LogFormat::Compact
    }
}

/// Logging configuration.
#[derive(Debug, Clone)]
pub struct Logging {
    /// Additional filtering directives.
    pub filters: Vec<String>,
    /// Logging format.
    pub format: LogFormat,
}

impl Default for Logging {
    fn default() -> (r: Logging)
        ensures
            r.filters@.len() == 0,
            r.format == LogFormat::Compact,
    {
        Logging { filters: Vec::new(), format: LogFormat::Compact }
    }
}

/// Database configuration.
#[derive(Debug, Clone)]
pub enum Database {
    /// In-memory database.
    Memory {
        /// Max number of concurrent connections.
        max_connections: u32,
    },
    /// File-backed database.
    SqLite {
        /// Database file path.
        path: String,
        /// Max number of concurrent connections.
        max_connections: u32,
        /// Whether migrations run when the pool is created.
        migrate: bool,
    },
}

impl Database {
    /// The default connection limit.
    pub fn default_max_connections() -> (r: u32)
        ensures
            r == 5,
    {
        5
    }
}

impl Default for Database {
    fn default() -> (r: Database)
        ensures
            r matches Database::SqLite { path, max_connections, migrate } && path@
                == "dbgq/data/db.sqlite"@ && max_connections == 5 && migrate == false,
    {
        Database::SqLite {
            path: "dbgq/data/db.sqlite".to_owned(),
            max_connections: Database::default_max_connections(),
            migrate: false,
        }
    }
}

} // verus!
