//! The cache's error kinds.
use vstd::prelude::*;
use crate::text::{concat, digits, unsigned_string};

verus! {

/// What a cache operation reports when it fails. Errors that arise in the
/// storage layer around the library carry that layer's message.
#[derive(Debug)]
pub enum CacheError {
    /// No connection to the database file could be had.
    ConnectionPoolError(String),
    /// The storage engine refused an operation.
    DatabaseError(String),
    /// A payload could not be encoded or decoded.
    SerializationError(String),
    /// The named lock stayed held by a live holder through every attempt.
    LockAcquisitionFailed { key: String, attempts: usize },
    /// The system clock could not be read as seconds since the Unix epoch.
    SystemTimeError(String),
    /// The input was rejected (for instance an empty snapshot).
    InvalidInput(String),
    /// Reading or writing a file failed.
    IoError(String),
}

pub type CacheResult<T> = Result<T, CacheError>;

impl CacheError {
    /// The error's message, as shown to a person.
    pub fn message(&self) -> (r: String)
        ensures
            self matches CacheError::ConnectionPoolError(m) ==> r@ == "Failed to get connection from pool: "@ + m@,
            self matches CacheError::DatabaseError(m) ==> r@ == "Database operation failed: "@ + m@,
            self matches CacheError::SerializationError(m) ==> r@ == "JSON serialization failed: "@ + m@,
            self matches CacheError::LockAcquisitionFailed { key, attempts } ==> r@ == "Failed to acquire lock for '"@
                + key@ + "' after "@ + digits(*attempts as nat) + " attempts"@,
            self matches CacheError::SystemTimeError(m) ==> r@ == "System time error: "@ + m@,
            self matches CacheError::InvalidInput(m) ==> r@ == "Invalid input: "@ + m@,
            self matches CacheError::IoError(m) ==> r@ == "IO error: "@ + m@,
    {
        match self {
            CacheError::ConnectionPoolError(m) => concat("Failed to get connection from pool: ", m.as_str()),
            CacheError::DatabaseError(m) => concat("Database operation failed: ", m.as_str()),
            CacheError::SerializationError(m) => concat("JSON serialization failed: ", m.as_str()),
            CacheError::LockAcquisitionFailed { key, attempts } => {
                let mut r = concat("Failed to acquire lock for '", key.as_str());
                r.append("' after ");
                let d = unsigned_string(*attempts as u64);
                r.append(d.as_str());
                r.append(" attempts");
                r
            },
            CacheError::SystemTimeError(m) => concat("System time error: ", m.as_str()),
            CacheError::InvalidInput(m) => concat("Invalid input: ", m.as_str()),
            CacheError::IoError(m) => concat("IO error: ", m.as_str()),
        }
    }
}

} // verus!
