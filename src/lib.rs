//! A local cache of a chat workspace's users and channels, shared by several
//! client processes: bulk snapshot replacement, cooperative locking over named
//! resources, a freshness policy and a ranked search with a full-text fallback.
pub mod text;
pub mod types;
pub mod words;
pub mod index;
pub mod search;
pub mod error;
pub mod cache;
pub mod locks;
pub mod replace;
pub mod freshness;
pub mod queries;
pub mod background;
pub mod config;
pub mod api_config;
pub mod format;
pub mod refresh;
pub mod render;
pub mod records;
pub mod service;

pub use cache::{CacheDb, SqliteCache};
pub use error::{CacheError, CacheResult};
pub use freshness::CacheStatus;
