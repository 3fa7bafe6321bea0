use mcp_slack::cache::SqliteCache;
use mcp_slack::types::{ChannelTopic, SlackChannel};

fn create_test_channel(
    id: &str,
    name: &str,
    is_private: bool,
    is_archived: bool,
    is_im: bool,
    is_mpim: bool,
) -> SlackChannel {
    SlackChannel {
        id: id.to_string(),
        name: name.to_string(),
        is_channel: !is_im && !is_mpim,
        is_im,
        is_mpim,
        is_group: false,
        is_private,
        is_archived,
        is_general: name == "general",
        is_member: true,
        created: None,
        creator: None,
        topic: None,
        purpose: None,
        num_members: Some(10),
    }
}

fn setup_cache() -> SqliteCache {
    SqliteCache::new(uuid::Uuid::new_v4().to_string())
}

fn names(channels: &[SlackChannel]) -> Vec<String> {
    channels.iter().map(|c| c.name.clone()).collect()
}

#[test]
fn test_save_channels_empty_vec() {
    let mut cache = setup_cache();
    let result = cache.save_channels_internal(vec![]);

    assert!(result.is_err());
    assert_eq!(result.unwrap_err().message(), "Invalid input: No channels to save");
}

#[test]
fn test_save_channels_single_channel() {
    let mut cache = setup_cache();
    let channel = create_test_channel("C123", "general", false, false, false, false);

    let result = cache.save_channels_internal(vec![channel.clone()]);
    assert!(result.is_ok());

    let channels = cache.get_channels().unwrap();
    assert_eq!(channels.len(), 1);
    assert_eq!(channels[0].id, "C123");
    assert_eq!(channels[0].name, "general");
}

#[test]
fn test_save_channels_multiple_channels() {
    let mut cache = setup_cache();
    let channels = vec![
        create_test_channel("C123", "general", false, false, false, false),
        create_test_channel("C456", "random", false, false, false, false),
        create_test_channel("G789", "private-team", true, false, false, false),
    ];

    let result = cache.save_channels_internal(channels);
    assert!(result.is_ok());

    let all_channels = cache.get_channels().unwrap();
    assert_eq!(all_channels.len(), 3);
}

#[test]
fn test_save_channels_replaces_existing() {
    let mut cache = setup_cache();

    let channels_v1 = vec![
        create_test_channel("C123", "general", false, false, false, false),
        create_test_channel("C456", "random", false, false, false, false),
    ];
    cache.save_channels_internal(channels_v1).unwrap();

    let channels_v2 = vec![
        create_test_channel("C123", "general-updated", false, false, false, false),
        create_test_channel("C789", "announcements", false, false, false, false),
    ];
    cache.save_channels_internal(channels_v2).unwrap();

    let all_channels = cache.get_channels().unwrap();
    assert_eq!(all_channels.len(), 2);

    let general = all_channels.iter().find(|c| c.id == "C123").unwrap();
    assert_eq!(general.name, "general-updated");

    assert!(all_channels.iter().all(|c| c.id != "C456"));
}

#[test]
fn test_get_channels_filters_archived() {
    let mut cache = setup_cache();
    let channels = vec![
        create_test_channel("C123", "general", false, false, false, false),
        create_test_channel("C456", "old-project", false, true, false, false),
        create_test_channel("C789", "active", false, false, false, false),
    ];
    cache.save_channels_internal(channels).unwrap();

    let active_channels = cache.get_channels().unwrap();
    assert_eq!(active_channels.len(), 2);
    assert!(active_channels.iter().all(|c| !c.is_archived));
}

#[test]
fn test_get_channels_sorted_by_name() {
    let mut cache = setup_cache();
    let channels = vec![
        create_test_channel("C123", "zebra", false, false, false, false),
        create_test_channel("C456", "alpha", false, false, false, false),
        create_test_channel("C789", "beta", false, false, false, false),
    ];
    cache.save_channels_internal(channels).unwrap();

    let sorted_channels = cache.get_channels().unwrap();
    assert_eq!(sorted_channels.len(), 3);
    assert_eq!(sorted_channels[0].name, "alpha");
    assert_eq!(sorted_channels[1].name, "beta");
    assert_eq!(sorted_channels[2].name, "zebra");
}

#[test]
fn test_get_channels_includes_private() {
    let mut cache = setup_cache();
    let channels = vec![
        create_test_channel("C123", "public", false, false, false, false),
        create_test_channel("G456", "private", true, false, false, false),
    ];
    cache.save_channels_internal(channels).unwrap();

    let all_channels = cache.get_channels().unwrap();
    assert_eq!(all_channels.len(), 2);
}

#[test]
fn test_get_channels_includes_dms() {
    let mut cache = setup_cache();
    let channels = vec![
        create_test_channel("C123", "general", false, false, false, false),
        create_test_channel("D456", "dm-alice", false, false, true, false),
        create_test_channel("G789", "mpdm-team", false, false, false, true),
    ];
    cache.save_channels_internal(channels).unwrap();

    let all_channels = cache.get_channels().unwrap();
    assert_eq!(all_channels.len(), 3);
}

fn search_by_name_case(query: &str, expected_count: usize) {
    let mut cache = setup_cache();
    let channels = vec![
        create_test_channel("C123", "general", false, false, false, false),
        create_test_channel("C456", "random", false, false, false, false),
    ];
    cache.save_channels_internal(channels).unwrap();

    let results = cache.search_channels(query, 10).unwrap();
    assert_eq!(results.len(), expected_count);
}

#[test]
fn test_search_channels_by_name() {
    search_by_name_case("general", 1);
    search_by_name_case("random", 1);
    search_by_name_case("nonexistent", 0);
}

#[test]
fn test_search_channels_empty_query() {
    let mut cache = setup_cache();
    let channels = vec![
        create_test_channel("C123", "general", false, false, false, false),
        create_test_channel("C456", "random", false, false, false, false),
    ];
    cache.save_channels_internal(channels).unwrap();

    let results = cache.search_channels("", 10).unwrap();
    assert_eq!(results.len(), 2);
}

#[test]
fn test_search_channels_with_limit() {
    let mut cache = setup_cache();
    let channels = vec![
        create_test_channel("C123", "alpha", false, false, false, false),
        create_test_channel("C456", "beta", false, false, false, false),
        create_test_channel("C789", "gamma", false, false, false, false),
    ];
    cache.save_channels_internal(channels).unwrap();

    let results = cache.search_channels("", 2).unwrap();
    assert_eq!(results.len(), 2);
}

#[test]
fn test_search_channels_filters_archived() {
    let mut cache = setup_cache();
    let channels = vec![
        create_test_channel("C123", "active", false, false, false, false),
        create_test_channel("C456", "archived-test", false, true, false, false),
    ];
    cache.save_channels_internal(channels).unwrap();

    let results = cache.search_channels("test", 10).unwrap();
    assert_eq!(results.len(), 0);
}

#[test]
fn test_search_channels_includes_private() {
    let mut cache = setup_cache();
    let channels = vec![
        create_test_channel("C123", "public-channel", false, false, false, false),
        create_test_channel("G456", "private-channel", true, false, false, false),
    ];
    cache.save_channels_internal(channels).unwrap();

    let results = cache.search_channels("channel", 10).unwrap();
    assert_eq!(results.len(), 2);
}

#[test]
fn test_search_channels_with_special_chars() {
    let mut cache = setup_cache();
    let channels = vec![create_test_channel("C123", "general", false, false, false, false)];
    cache.save_channels_internal(channels).unwrap();

    let results = cache.search_channels("general*@#$", 10).unwrap();
    assert_eq!(results.len(), 1);
    assert_eq!(results[0].name, "general");
}

#[test]
fn test_search_channels_case_sensitivity() {
    let mut cache = setup_cache();
    let channels = vec![
        create_test_channel("C123", "General", false, false, false, false),
        create_test_channel("C456", "RANDOM", false, false, false, false),
    ];
    cache.save_channels_internal(channels).unwrap();

    let results = cache.search_channels("general", 10).unwrap();
    assert_eq!(results.len(), 1);

    let results = cache.search_channels("random", 10).unwrap();
    assert_eq!(results.len(), 1);
}

#[test]
fn test_concurrent_save_channels() {
    let cache = setup_cache();
    let mut first = SqliteCache::attach(cache.into_db(), "first".to_string());
    let result1 =
        first.save_channels_internal(vec![create_test_channel("C123", "general", false, false, false, false)]);
    let mut second = SqliteCache::attach(first.into_db(), "second".to_string());
    let result2 =
        second.save_channels_internal(vec![create_test_channel("C456", "random", false, false, false, false)]);

    let success_count = [&result1, &result2].iter().filter(|r| r.is_ok()).count();
    assert!(success_count >= 1, "At least one concurrent save should succeed");

    let all_channels = second.get_channels().unwrap();
    assert!(!all_channels.is_empty(), "Should have channels from successful save");
}

#[test]
fn test_channel_types_preserved() {
    let mut cache = setup_cache();
    let channels = vec![
        create_test_channel("C123", "public", false, false, false, false),
        create_test_channel("G456", "private", true, false, false, false),
        create_test_channel("D789", "dm", false, false, true, false),
        create_test_channel("G999", "mpdm", false, false, false, true),
    ];
    cache.save_channels_internal(channels).unwrap();

    let all_channels = cache.get_channels().unwrap();
    assert_eq!(all_channels.len(), 4);

    let public = all_channels.iter().find(|c| c.id == "C123").unwrap();
    assert!(public.is_channel);
    assert!(!public.is_private);
    assert!(!public.is_im);
    assert!(!public.is_mpim);

    let private = all_channels.iter().find(|c| c.id == "G456").unwrap();
    assert!(private.is_private);
    assert!(private.is_channel);
    assert!(!private.is_im);
    assert!(!private.is_mpim);

    let dm = all_channels.iter().find(|c| c.id == "D789").unwrap();
    assert!(dm.is_im);
    assert!(!dm.is_channel);
    assert!(!dm.is_mpim);

    let mpdm = all_channels.iter().find(|c| c.id == "G999").unwrap();
    assert!(mpdm.is_mpim);
    assert!(!mpdm.is_channel);
    assert!(!mpdm.is_im);
}

#[test]
fn test_search_channels_exact_match_priority() {
    let mut cache = setup_cache();
    let channels = vec![
        create_test_channel("C123", "general", false, false, false, false),
        create_test_channel("C456", "general-korea", false, false, false, false),
        create_test_channel("C789", "general-dev", false, false, false, false),
    ];
    cache.save_channels_internal(channels).unwrap();

    let results = cache.search_channels("general", 10).unwrap();
    assert_eq!(results.len(), 3);
    assert_eq!(results[0].name, "general");
}

#[test]
fn test_search_channels_name_before_topic() {
    let mut cache = setup_cache();
    let channels = vec![
        create_test_channel("C123", "dev-team", false, false, false, false),
        create_test_channel("C456", "dev-backend", false, false, false, false),
    ];
    cache.save_channels_internal(channels).unwrap();

    let results = cache.search_channels("dev", 10).unwrap();
    assert_eq!(results.len(), 2);
    assert!(results.iter().any(|c| c.name == "dev-team"));
    assert!(results.iter().any(|c| c.name == "dev-backend"));
}

#[test]
fn test_search_channels_fallback_to_fts5() {
    let mut cache = setup_cache();
    let channels = vec![
        create_test_channel("C123", "alpha", false, false, false, false),
        create_test_channel("C456", "beta", false, false, false, false),
    ];
    cache.save_channels_internal(channels).unwrap();

    let results = cache.search_channels("xyz", 10).unwrap();
    assert_eq!(results.len(), 0);
}

#[test]
fn exact_match_ranks_first_then_by_name() {
    let mut cache = setup_cache();
    let channels = vec![
        create_test_channel("C1", "general-korea", false, false, false, false),
        create_test_channel("C2", "general", false, false, false, false),
        create_test_channel("C3", "general-dev", false, false, false, false),
    ];
    cache.save_channels_internal(channels).unwrap();

    let results = cache.search_channels("GENERAL", 10).unwrap();
    assert_eq!(names(&results), vec!["general", "general-dev", "general-korea"]);
    let first_only = cache.search_channels("general", 1).unwrap();
    assert_eq!(names(&first_only), vec!["general"]);
}

#[test]
fn topic_text_is_searched() {
    let mut cache = setup_cache();
    let mut ops = create_test_channel("C1", "ops", false, false, false, false);
    ops.topic = Some(ChannelTopic {
        value: "Deploy schedule".to_string(),
        creator: "U1".to_string(),
        last_set: 0,
    });
    let channels = vec![ops, create_test_channel("C2", "random", false, false, false, false)];
    cache.save_channels_internal(channels).unwrap();

    let results = cache.search_channels("deploy", 10).unwrap();
    assert_eq!(names(&results), vec!["ops"]);
}

#[test]
fn blank_query_lists_unarchived_by_name() {
    let mut cache = setup_cache();
    let channels = vec![
        create_test_channel("C1", "zeta", false, false, false, false),
        create_test_channel("C2", "eta", false, true, false, false),
        create_test_channel("C3", "beta", true, false, false, false),
        create_test_channel("C4", "alpha", false, false, false, false),
    ];
    cache.save_channels_internal(channels).unwrap();

    let results = cache.search_channels(" \t", 2).unwrap();
    assert_eq!(names(&results), vec!["alpha", "beta"]);
    let all = cache.search_channels("", 10).unwrap();
    assert_eq!(names(&all), vec!["alpha", "beta", "zeta"]);
}
