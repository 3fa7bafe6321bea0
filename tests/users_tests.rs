use mcp_slack::cache::SqliteCache;
use mcp_slack::types::{SlackUser, SlackUserProfile};

fn create_test_user(id: &str, name: &str, email: Option<&str>, is_bot: bool) -> SlackUser {
    SlackUser {
        id: id.to_string(),
        name: name.to_string(),
        is_bot,
        is_admin: false,
        deleted: false,
        profile: Some(SlackUserProfile {
            real_name: Some(format!("Real {name}")),
            display_name: Some(name.to_string()),
            email: email.map(std::string::ToString::to_string),
            status_text: None,
            status_emoji: None,
            title: None,
            avatar: None,
            timezone: None,
        }),
    }
}

fn setup_cache() -> SqliteCache {
    SqliteCache::new(uuid::Uuid::new_v4().to_string())
}

fn names(users: &[SlackUser]) -> Vec<String> {
    users.iter().map(|u| u.name.clone()).collect()
}

#[test]
fn test_save_users_empty_vec() {
    let mut cache = setup_cache();
    let result = cache.save_users_internal(vec![]);

    assert!(result.is_err());
    assert_eq!(result.unwrap_err().message(), "Invalid input: No users to save");
}

#[test]
fn test_save_users_single_user() {
    let mut cache = setup_cache();
    let user = create_test_user("U123", "alice", Some("alice@example.com"), false);

    let result = cache.save_users_internal(vec![user.clone()]);
    assert!(result.is_ok());

    let retrieved = cache.get_user_by_id("U123").unwrap();
    assert!(retrieved.is_some());
    let retrieved_user = retrieved.unwrap();
    assert_eq!(retrieved_user.id, "U123");
    assert_eq!(retrieved_user.name, "alice");
}

#[test]
fn test_save_users_multiple_users() {
    let mut cache = setup_cache();
    let users = vec![
        create_test_user("U123", "alice", Some("alice@example.com"), false),
        create_test_user("U456", "bob", Some("bob@example.com"), false),
        create_test_user("U789", "charlie", Some("charlie@example.com"), false),
    ];

    let result = cache.save_users_internal(users);
    assert!(result.is_ok());

    let all_users = cache.get_users().unwrap();
    assert_eq!(all_users.len(), 3);
}

#[test]
fn test_save_users_replaces_existing() {
    let mut cache = setup_cache();

    let users_v1 = vec![
        create_test_user("U123", "alice", Some("alice@example.com"), false),
        create_test_user("U456", "bob", Some("bob@example.com"), false),
    ];
    cache.save_users_internal(users_v1).unwrap();

    let users_v2 = vec![
        create_test_user("U123", "alice_updated", Some("alice.new@example.com"), false),
        create_test_user("U789", "charlie", Some("charlie@example.com"), false),
    ];
    cache.save_users_internal(users_v2).unwrap();

    let all_users = cache.get_users().unwrap();
    assert_eq!(all_users.len(), 2);

    let alice = cache.get_user_by_id("U123").unwrap().unwrap();
    assert_eq!(alice.name, "alice_updated");

    let bob = cache.get_user_by_id("U456").unwrap();
    assert!(bob.is_none());
}

#[test]
fn test_get_users_filters_bots() {
    let mut cache = setup_cache();
    let users = vec![
        create_test_user("U123", "alice", Some("alice@example.com"), false),
        create_test_user("B456", "slackbot", None, true),
        create_test_user("U789", "charlie", Some("charlie@example.com"), false),
    ];
    cache.save_users_internal(users).unwrap();

    let human_users = cache.get_users().unwrap();
    assert_eq!(human_users.len(), 2);
    assert!(human_users.iter().all(|u| !u.is_bot));
}

#[test]
fn test_get_users_sorted_by_name() {
    let mut cache = setup_cache();
    let users = vec![
        create_test_user("U123", "charlie", Some("charlie@example.com"), false),
        create_test_user("U456", "alice", Some("alice@example.com"), false),
        create_test_user("U789", "bob", Some("bob@example.com"), false),
    ];
    cache.save_users_internal(users).unwrap();

    let sorted_users = cache.get_users().unwrap();
    assert_eq!(sorted_users.len(), 3);
    assert_eq!(sorted_users[0].name, "alice");
    assert_eq!(sorted_users[1].name, "bob");
    assert_eq!(sorted_users[2].name, "charlie");
}

#[test]
fn test_get_user_by_id_found() {
    let mut cache = setup_cache();
    let user = create_test_user("U123", "alice", Some("alice@example.com"), false);
    cache.save_users_internal(vec![user]).unwrap();

    let result = cache.get_user_by_id("U123").unwrap();
    assert!(result.is_some());
    let retrieved = result.unwrap();
    assert_eq!(retrieved.id, "U123");
    assert_eq!(retrieved.name, "alice");
}

#[test]
fn test_get_user_by_id_not_found() {
    let cache = setup_cache();
    let result = cache.get_user_by_id("U999").unwrap();
    assert!(result.is_none());
}

#[test]
fn test_get_user_by_id_with_bot() {
    let mut cache = setup_cache();
    let bot = create_test_user("B123", "slackbot", None, true);
    cache.save_users_internal(vec![bot]).unwrap();

    let result = cache.get_user_by_id("B123").unwrap();
    assert!(result.is_some());
    assert!(result.unwrap().is_bot);
}

fn search_by_name_case(query: &str, expected_count: usize) {
    let mut cache = setup_cache();
    let users = vec![
        create_test_user("U123", "alice", Some("alice@example.com"), false),
        create_test_user("U456", "bob", Some("bob@example.com"), false),
    ];
    cache.save_users_internal(users).unwrap();

    let results = cache.search_users(query, 10, false).unwrap();
    assert_eq!(results.len(), expected_count);
}

#[test]
fn test_search_users_by_name() {
    search_by_name_case("alice", 1);
    search_by_name_case("bob", 1);
    search_by_name_case("test", 0);
}

#[test]
fn test_search_users_by_email() {
    let mut cache = setup_cache();
    let users = vec![
        create_test_user("U123", "alice", Some("alice@example.com"), false),
        create_test_user("U456", "bob", Some("bob@company.com"), false),
    ];
    cache.save_users_internal(users).unwrap();

    let results = cache.search_users("example.com", 10, false).unwrap();
    assert_eq!(results.len(), 1);
    assert_eq!(results[0].name, "alice");
}

#[test]
fn test_search_users_empty_query() {
    let mut cache = setup_cache();
    let users = vec![
        create_test_user("U123", "alice", Some("alice@example.com"), false),
        create_test_user("U456", "bob", Some("bob@example.com"), false),
    ];
    cache.save_users_internal(users).unwrap();

    let results = cache.search_users("", 10, false).unwrap();
    assert_eq!(results.len(), 2);
}

#[test]
fn test_search_users_with_limit() {
    let mut cache = setup_cache();
    let users = vec![
        create_test_user("U123", "alice", Some("alice@example.com"), false),
        create_test_user("U456", "bob", Some("bob@example.com"), false),
        create_test_user("U789", "charlie", Some("charlie@example.com"), false),
    ];
    cache.save_users_internal(users).unwrap();

    let results = cache.search_users("", 2, false).unwrap();
    assert_eq!(results.len(), 2);
}

#[test]
fn test_search_users_filters_bots() {
    let mut cache = setup_cache();
    let users = vec![
        create_test_user("U123", "alice", Some("alice@example.com"), false),
        create_test_user("B456", "testbot", None, true),
    ];
    cache.save_users_internal(users).unwrap();

    let results = cache.search_users("test", 10, false).unwrap();
    assert_eq!(results.len(), 0);
}

#[test]
fn test_search_users_fts5_with_special_chars() {
    let mut cache = setup_cache();
    let users = vec![create_test_user("U123", "alice", Some("alice@example.com"), false)];
    cache.save_users_internal(users).unwrap();

    let results = cache.search_users("alice*@#$", 10, false).unwrap();
    assert_eq!(results.len(), 1);
    assert_eq!(results[0].name, "alice");
}

#[test]
fn test_search_users_case_sensitivity() {
    let mut cache = setup_cache();
    let users = vec![
        create_test_user("U123", "Alice", Some("alice@example.com"), false),
        create_test_user("U456", "BOB", Some("bob@example.com"), false),
    ];
    cache.save_users_internal(users).unwrap();

    let results = cache.search_users("alice", 10, false).unwrap();
    assert_eq!(results.len(), 1);

    let results = cache.search_users("bob", 10, false).unwrap();
    assert_eq!(results.len(), 1);
}

#[test]
fn test_search_users_exact_match_priority() {
    let mut cache = setup_cache();
    let users = vec![
        create_test_user("U123", "john", Some("john@example.com"), false),
        create_test_user("U456", "john.smith", Some("john.smith@example.com"), false),
        create_test_user("U789", "johnny", Some("johnny@example.com"), false),
    ];
    cache.save_users_internal(users).unwrap();

    let results = cache.search_users("john", 10, false).unwrap();
    assert_eq!(results.len(), 3);
    assert_eq!(results[0].name, "john");
}

#[test]
fn test_search_users_with_include_bots() {
    let mut cache = setup_cache();
    let users = vec![
        create_test_user("U123", "alice", Some("alice@example.com"), false),
        create_test_user("B456", "testbot", None, true),
    ];
    cache.save_users_internal(users).unwrap();

    let results = cache.search_users("test", 10, true).unwrap();
    assert_eq!(results.len(), 1);
    assert_eq!(results[0].name, "testbot");
    assert!(results[0].is_bot);
}

#[test]
fn test_search_users_substring_before_fuzzy() {
    let mut cache = setup_cache();
    let users = vec![
        create_test_user("U123", "junyeong.eom", Some("junyeong@example.com"), false),
        create_test_user("U456", "seungryoung.lee", Some("seungryoung@example.com"), false),
    ];
    cache.save_users_internal(users).unwrap();

    let results = cache.search_users("junyeong", 10, false).unwrap();
    assert_eq!(results.len(), 1);
    assert_eq!(results[0].name, "junyeong.eom");
}

#[test]
fn test_search_users_fallback_to_fts5() {
    let mut cache = setup_cache();
    let users = vec![
        create_test_user("U123", "alice", Some("alice@example.com"), false),
        create_test_user("U456", "alicia", Some("alicia@example.com"), false),
    ];
    cache.save_users_internal(users).unwrap();

    let results = cache.search_users("xyz", 10, false).unwrap();
    assert_eq!(results.len(), 0);
}

#[test]
fn test_concurrent_save_users() {
    let cache = setup_cache();
    let db = cache.into_db();
    let mut first = SqliteCache::attach(db, "first".to_string());
    let result1 = first.save_users_internal(vec![create_test_user(
        "U123",
        "alice",
        Some("alice@example.com"),
        false,
    )]);
    let mut second = SqliteCache::attach(first.into_db(), "second".to_string());
    let result2 = second.save_users_internal(vec![create_test_user(
        "U456",
        "bob",
        Some("bob@example.com"),
        false,
    )]);

    assert!(result1.is_ok() || result2.is_ok());
    // the table holds one whole snapshot, never a mix of the two
    assert_eq!(names(&second.get_users().unwrap()), vec!["bob"]);
}

#[test]
fn exact_match_on_display_name_ranks_before_name_substrings() {
    let mut cache = setup_cache();
    let mut carol = create_test_user("U1", "carol", Some("c@example.com"), false);
    if let Some(p) = carol.profile.as_mut() {
        p.display_name = Some("sam".to_string());
    }
    let users = vec![
        create_test_user("U2", "samantha", Some("s@example.com"), false),
        create_test_user("U3", "sam.adams", Some("a@example.com"), false),
        carol,
    ];
    cache.save_users_internal(users).unwrap();

    let results = cache.search_users("SAM", 10, false).unwrap();
    assert_eq!(names(&results), vec!["carol", "sam.adams", "samantha"]);
}

#[test]
fn duplicate_ids_keep_first_occurrence() {
    let mut cache = setup_cache();
    let users = vec![
        create_test_user("U1", "first", None, false),
        create_test_user("U1", "second", None, false),
        create_test_user("U2", "other", None, false),
    ];
    cache.save_users_internal(users).unwrap();
    assert_eq!(cache.get_counts().unwrap(), (2, 0));
    assert_eq!(cache.get_user_by_id("U1").unwrap().unwrap().name, "first");
}

#[test]
fn phrase_fallback_matches_across_punctuation() {
    let mut cache = setup_cache();
    let users = vec![
        create_test_user("U1", "john-doe", Some("jd@example.com"), false),
        create_test_user("U2", "jane", Some("jane@example.com"), false),
    ];
    cache.save_users_internal(users).unwrap();

    // no field contains "john doe" literally, but its words do
    let results = cache.search_users("John Doe", 10, false).unwrap();
    assert_eq!(names(&results), vec!["john-doe"]);

    let none = cache.search_users("doe john", 10, false).unwrap();
    assert!(none.is_empty());
}

#[test]
fn blank_query_lists_by_name_and_honours_limit() {
    let mut cache = setup_cache();
    let users = vec![
        create_test_user("U1", "delta", None, false),
        create_test_user("U2", "Bravo", None, false),
        create_test_user("U3", "alpha", None, false),
        create_test_user("B4", "botty", None, true),
    ];
    cache.save_users_internal(users).unwrap();

    // byte order: upper case sorts before lower case
    let results = cache.search_users("   ", 10, false).unwrap();
    assert_eq!(names(&results), vec!["Bravo", "alpha", "delta"]);
    let capped = cache.search_users("", 2, false).unwrap();
    assert_eq!(names(&capped), vec!["Bravo", "alpha"]);
    let with_bots = cache.search_users("", 10, true).unwrap();
    assert_eq!(names(&with_bots), vec!["Bravo", "alpha", "botty", "delta"]);
    let zero = cache.search_users("", 0, true).unwrap();
    assert!(zero.is_empty());
}

#[test]
fn exact_email_match_ranks_before_partial_matches() {
    let mut cache = setup_cache();
    let users = vec![
        create_test_user("U1", "zed", Some("ops@example.com"), false),
        create_test_user("U2", "amy", Some("ops@example.com.au"), false),
    ];
    cache.save_users_internal(users).unwrap();

    let results = cache.search_users("OPS@example.com", 10, false).unwrap();
    assert_eq!(names(&results), vec!["zed", "amy"]);
}

#[test]
fn all_exact_field_matches_share_the_first_tier() {
    let mut cache = setup_cache();
    let mut by_real = create_test_user("U1", "zoe", None, false);
    if let Some(p) = by_real.profile.as_mut() {
        p.real_name = Some("kim".to_string());
    }
    let users = vec![by_real, create_test_user("U2", "kim", None, false), create_test_user("U3", "akim", None, false)];
    cache.save_users_internal(users).unwrap();

    // both exact matches come first, then by name; the partial match last
    let results = cache.search_users("kim", 10, false).unwrap();
    assert_eq!(names(&results), vec!["kim", "zoe", "akim"]);
}
