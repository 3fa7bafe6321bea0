use mcp_slack::cache::SqliteCache;
use mcp_slack::freshness::{CacheStatus, CACHE_TTL_HOURS, REFRESH_THRESHOLD_PERCENT};
use mcp_slack::types::SlackUser;

const NOW: i64 = 1_700_000_000;
const HOUR: i64 = 3600;

fn create_test_cache() -> SqliteCache {
    SqliteCache::new(uuid::Uuid::new_v4().to_string())
}

fn user(id: &str, name: &str) -> SlackUser {
    SlackUser {
        id: id.to_string(),
        name: name.to_string(),
        is_bot: false,
        is_admin: false,
        deleted: false,
        profile: None,
    }
}

#[test]
fn empty_cache_reports_empty() {
    let cache = create_test_cache();
    assert!(cache.is_cache_empty().unwrap());
}

#[test]
fn counts_are_zero_for_empty_cache() {
    let cache = create_test_cache();
    let (users, channels) = cache.get_counts().unwrap();
    assert_eq!(users, 0);
    assert_eq!(channels, 0);
}

#[test]
fn empty_cache_status() {
    let cache = create_test_cache();
    assert_eq!(cache.get_cache_status(168, REFRESH_THRESHOLD_PERCENT).unwrap(), CacheStatus::Empty);
}

#[test]
fn cooldown_false_when_never_attempted() {
    let cache = create_test_cache();
    assert!(!cache.is_within_refresh_cooldown().unwrap());
}

#[test]
fn cooldown_true_after_recent_attempt() {
    let mut cache = create_test_cache();
    cache.mark_refresh_attempted().unwrap();
    assert!(cache.is_within_refresh_cooldown().unwrap());
}

#[test]
fn status_follows_threshold_of_ttl() {
    let mut cache = create_test_cache();
    cache.save_users_at(vec![user("U1", "alice")], NOW - 20 * HOUR).unwrap();
    // 10% of 168 hours is 16.8 hours
    assert_eq!(cache.get_cache_status_at(168, 10, NOW).unwrap(), CacheStatus::NeedsRefresh);

    let mut cache = create_test_cache();
    cache.save_users_at(vec![user("U1", "alice")], NOW - 10 * HOUR).unwrap();
    assert_eq!(cache.get_cache_status_at(168, 10, NOW).unwrap(), CacheStatus::Fresh);
    // 16.8 hours after the sync is 60480 seconds
    assert_eq!(cache.get_cache_status_at(168, 10, NOW - 10 * HOUR + 60479).unwrap(), CacheStatus::Fresh);
    assert_eq!(cache.get_cache_status_at(168, 10, NOW - 10 * HOUR + 60480).unwrap(), CacheStatus::NeedsRefresh);

    let empty = create_test_cache();
    assert_eq!(empty.get_cache_status_at(168, 10, NOW).unwrap(), CacheStatus::Empty);
}

#[test]
fn empty_regardless_of_timestamps() {
    let mut cache = create_test_cache();
    cache.db.meta.last_user_sync = Some(NOW - 1000 * HOUR);
    assert_eq!(cache.get_cache_status_at(168, 10, NOW).unwrap(), CacheStatus::Empty);
}

#[test]
fn fresh_right_after_replace() {
    let mut cache = create_test_cache();
    cache.save_users_at(vec![user("U1", "alice"), user("U2", "bob")], NOW).unwrap();
    assert_eq!(cache.get_cache_status_at(168, 10, NOW).unwrap(), CacheStatus::Fresh);

    let mut live = create_test_cache();
    live.save_users_internal(vec![user("U1", "alice")]).unwrap();
    assert_eq!(live.get_cache_status(CACHE_TTL_HOURS, REFRESH_THRESHOLD_PERCENT).unwrap(), CacheStatus::Fresh);
}

#[test]
fn no_sync_recorded_needs_refresh() {
    let mut cache = create_test_cache();
    cache.save_users_at(vec![user("U1", "a")], NOW).unwrap();
    cache.db.meta.last_user_sync = None;
    assert_eq!(cache.get_cache_status_at(168, 10, NOW).unwrap(), CacheStatus::NeedsRefresh);
}

#[test]
fn empty_replace_changes_nothing() {
    let mut cache = create_test_cache();
    cache.save_users_at(vec![user("U1", "alice")], NOW).unwrap();
    let err = cache.save_users_at(vec![], NOW + 50).unwrap_err();
    assert_eq!(err.message(), "Invalid input: No users to save");
    assert_eq!(cache.db.meta.last_user_sync, Some(NOW));
    assert_eq!(cache.get_counts().unwrap(), (1, 0));
    assert_eq!(cache.get_users().unwrap()[0].name, "alice");
}

#[test]
fn cooldown_window_is_one_hour() {
    let mut cache = create_test_cache();
    cache.mark_refresh_attempted_at(NOW).unwrap();
    assert!(cache.is_within_refresh_cooldown_at(NOW + HOUR - 1).unwrap());
    assert!(!cache.is_within_refresh_cooldown_at(NOW + HOUR).unwrap());
}

#[test]
fn background_refresh_trigger() {
    let mut cache = create_test_cache();
    assert!(!cache.should_trigger_background_refresh_at(168, 10, NOW));
    cache.save_users_at(vec![user("U1", "alice")], NOW - 20 * HOUR).unwrap();
    assert!(cache.should_trigger_background_refresh_at(168, 10, NOW));
    cache.mark_refresh_attempted_at(NOW - 60).unwrap();
    assert!(!cache.should_trigger_background_refresh_at(168, 10, NOW));
    assert!(cache.should_trigger_background_refresh_at(168, 10, NOW + HOUR));
}

#[test]
fn threshold_is_not_rounded_to_hours() {
    let mut cache = create_test_cache();
    cache.save_users_at(vec![user("U1", "alice")], NOW - 59400).unwrap();
    // 16.5 hours is below the 16.8-hour threshold
    assert_eq!(cache.get_cache_status_at(168, 10, NOW).unwrap(), CacheStatus::Fresh);

    let mut short = create_test_cache();
    short.save_users_at(vec![user("U1", "alice")], NOW).unwrap();
    // 10% of 5 hours is half an hour
    assert_eq!(short.get_cache_status_at(5, 10, NOW).unwrap(), CacheStatus::Fresh);
    assert_eq!(short.get_cache_status_at(5, 10, NOW + 1799).unwrap(), CacheStatus::Fresh);
    assert_eq!(short.get_cache_status_at(5, 10, NOW + 1800).unwrap(), CacheStatus::NeedsRefresh);
}

#[test]
fn channels_only_refresh_reads_fresh() {
    let mut cache = create_test_cache();
    let general = mcp_slack::types::SlackChannel {
        id: "C1".to_string(),
        name: "general".to_string(),
        is_channel: true,
        is_private: false,
        is_archived: false,
        is_general: true,
        is_im: false,
        is_mpim: false,
        is_group: false,
        is_member: true,
        created: None,
        creator: None,
        num_members: None,
        topic: None,
        purpose: None,
    };
    cache.save_channels_at(vec![general], NOW).unwrap();
    assert_eq!(cache.get_cache_status_at(168, 10, NOW).unwrap(), CacheStatus::Fresh);
    assert_eq!(cache.get_cache_status_at(168, 10, NOW + 20 * HOUR).unwrap(), CacheStatus::NeedsRefresh);
}

#[test]
fn latest_sync_of_either_kind_counts() {
    let mut cache = create_test_cache();
    cache.save_users_at(vec![user("U1", "alice")], NOW - 100 * HOUR).unwrap();
    cache.db.meta.last_channel_sync = Some(NOW - HOUR);
    assert_eq!(cache.get_cache_status_at(168, 10, NOW).unwrap(), CacheStatus::Fresh);
}

#[test]
fn new_cache_has_no_cooldown_and_is_empty() {
    let cache = create_test_cache();
    assert_eq!(cache.is_within_refresh_cooldown_at(NOW).unwrap(), false);
    assert!(!cache.should_trigger_background_refresh());
    assert_eq!(cache.db.meta.last_refresh_attempt, None);
}
