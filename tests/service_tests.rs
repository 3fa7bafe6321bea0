use mcp_slack::service::{choose_token, emoji_from_entry, name_matches, search_emoji, search_query};

fn s(x: &str) -> Option<String> {
    Some(x.to_string())
}

#[test]
fn token_preference() {
    assert_eq!(choose_token(true, &s("xoxb"), &s("xoxp")), s("xoxp"));
    assert_eq!(choose_token(false, &s("xoxb"), &s("xoxp")), s("xoxb"));
    assert_eq!(choose_token(true, &s("xoxb"), &None), s("xoxb"));
    assert_eq!(choose_token(false, &None, &s("xoxp")), s("xoxp"));
    assert_eq!(choose_token(false, &None, &None), None);
}

#[test]
fn message_search_query() {
    assert_eq!(search_query("deploy", None, None), "deploy");
    assert_eq!(search_query("deploy", Some("#ops"), None), "deploy in:#ops");
    assert_eq!(search_query("deploy", Some("#ops"), Some("@alice")), "deploy in:#ops from:@alice");
    assert_eq!(search_query("deploy", None, Some("@alice")), "deploy from:@alice");
}

#[test]
fn emoji_aliases_are_recognised() {
    let alias = emoji_from_entry("shipit".to_string(), "alias:squirrel".to_string());
    assert!(alias.is_alias);
    assert_eq!(alias.url, "");
    assert_eq!(alias.alias_for.as_deref(), Some("squirrel"));

    let image = emoji_from_entry("party".to_string(), "https://emoji.example/party.png".to_string());
    assert!(!image.is_alias);
    assert_eq!(image.url, "https://emoji.example/party.png");
    assert_eq!(image.alias_for, None);

    let short = emoji_from_entry("x".to_string(), "alias".to_string());
    assert!(!short.is_alias);
}

#[test]
fn emoji_search_ignores_case() {
    let all = vec![
        emoji_from_entry("PartyParrot".to_string(), "https://e/p.gif".to_string()),
        emoji_from_entry("thumbsup_all".to_string(), "alias:+1".to_string()),
        emoji_from_entry("parrot_wave".to_string(), "https://e/w.gif".to_string()),
    ];
    let found = search_emoji(all, "PARROT");
    let names: Vec<&str> = found.iter().map(|e| e.name.as_str()).collect();
    assert_eq!(names, vec!["PartyParrot", "parrot_wave"]);
    assert!(name_matches("partyparrot", "rrot"));
    assert!(!name_matches("partyparrot", "PARROT"));
}
