use mcp_slack::api_config::{get_api_config, ApiConfig, ApiMethod};
use mcp_slack::config::{
    default_channels_fields, default_users_fields, mask_token, CacheConfig, ConnectionConfig,
    OutputConfig,
};

#[test]
fn masks_short_token() {
    assert_eq!(mask_token("abc"), "***");
    assert_eq!(mask_token("12345678"), "********");
}

#[test]
fn masks_long_token_with_ellipsis() {
    assert_eq!(mask_token("xoxb-123456789"), "xoxb...6789");
    assert_eq!(mask_token("123456789"), "1234...6789");
}

#[test]
fn handles_empty_token() {
    assert_eq!(mask_token(""), "");
}

#[test]
fn handles_exact_boundary() {
    assert_eq!(mask_token("12345678"), "********");
    assert_eq!(mask_token("123456789"), "1234...6789");
}

#[test]
fn cache_config_defaults() {
    let config = CacheConfig::default();
    assert_eq!(config.ttl_users_hours, 168);
    assert_eq!(config.ttl_channels_hours, 168);
    assert_eq!(config.refresh_threshold_percent, 10);
    assert!(config.data_path.is_none());
}

#[test]
fn connection_config_defaults() {
    let config = ConnectionConfig::default();
    assert_eq!(config.timeout_seconds, 30);
    assert_eq!(config.max_idle_per_host, 10);
    assert_eq!(config.pool_idle_timeout_seconds, 90);
    assert_eq!(config.rate_limit_per_minute, 20);
}

#[test]
fn output_config_defaults() {
    let config = OutputConfig::default();
    assert_eq!(config.users_fields, vec!["id", "name", "real_name", "email"]);
    assert_eq!(config.channels_fields, vec!["id", "name", "type", "members"]);
    assert_eq!(default_users_fields(), config.users_fields);
    assert_eq!(default_channels_fields(), config.channels_fields);
}

#[test]
fn api_config_known_methods() {
    let history = get_api_config("conversations.history").unwrap();
    assert_eq!(history.method, ApiMethod::Get);
    assert!(history.prefer_user_token);
    let users = get_api_config("users.list").unwrap();
    assert_eq!(users.method, ApiMethod::Get);
    assert!(!users.prefer_user_token);
    let post = get_api_config("chat.postMessage").unwrap();
    assert_eq!(post.method, ApiMethod::PostJson);
    assert!(!post.prefer_user_token);
    let profile = get_api_config("users.profile.set").unwrap();
    assert_eq!(profile.method, ApiMethod::PostJson);
    assert!(profile.prefer_user_token);
    let search = get_api_config("search.messages").unwrap();
    assert_eq!(search.method, ApiMethod::PostForm);
    assert!(search.prefer_user_token);
}

#[test]
fn api_config_unknown_method() {
    assert!(get_api_config("no.such.method").is_none());
    assert!(get_api_config("").is_none());
}

#[test]
fn api_config_new_keeps_fields() {
    let c = ApiConfig::new(ApiMethod::PostForm, true);
    assert_eq!(c.method, ApiMethod::PostForm);
    assert!(c.prefer_user_token);
}
