use mcp_slack::cache::{CacheDb, SCHEMA_VERSION};
use mcp_slack::SqliteCache;

#[test]
fn test_new_sqlite_cache_in_memory() {
    let cache = SqliteCache::new(uuid::Uuid::new_v4().to_string());
    assert!(!cache.instance_id.is_empty());
    assert!(uuid::Uuid::parse_str(&cache.instance_id).is_ok());
    assert_eq!(cache.instance_id.len(), 36);
}

#[test]
fn test_unique_instance_ids() {
    let cache1 = SqliteCache::new(uuid::Uuid::new_v4().to_string());
    let cache2 = SqliteCache::new(uuid::Uuid::new_v4().to_string());

    assert_ne!(cache1.instance_id, cache2.instance_id);
}

#[test]
fn new_cache_is_empty_and_versioned() {
    let db = CacheDb::new();
    assert!(db.users.is_empty());
    assert!(db.channels.is_empty());
    assert!(db.locks.is_empty());
    assert_eq!(db.meta.schema_version, SCHEMA_VERSION);
    assert_eq!(db.meta.last_user_sync, None);
    assert_eq!(db.meta.last_refresh_attempt, None);
}

#[test]
fn attach_and_detach_keep_tables() {
    let mut a = SqliteCache::attach(CacheDb::new(), "a".to_string());
    a.mark_refresh_attempted_at(42).unwrap();
    let b = SqliteCache::attach(a.into_db(), "b".to_string());
    assert_eq!(b.instance_id, "b");
    assert_eq!(b.db.meta.last_refresh_attempt, Some(42));
}
