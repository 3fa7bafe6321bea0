use mcp_slack::cache::SqliteCache;
use mcp_slack::format::{
    get_channel_field, get_channel_type, get_user_field, merge_fields, render_created,
    resolve_channel,
};
use mcp_slack::text::decimal_string;
use mcp_slack::types::{ChannelPurpose, SlackChannel, SlackUser, SlackUserProfile};

fn profile() -> SlackUserProfile {
    SlackUserProfile {
        real_name: Some("Alice Liddell".to_string()),
        display_name: Some("".to_string()),
        email: Some("alice@example.com".to_string()),
        status_text: Some("in a meeting".to_string()),
        status_emoji: Some(":calendar:".to_string()),
        title: None,
        avatar: None,
        timezone: Some("Europe/London".to_string()),
    }
}

fn alice() -> SlackUser {
    SlackUser {
        id: "U1".to_string(),
        name: "alice".to_string(),
        is_bot: false,
        is_admin: true,
        deleted: false,
        profile: Some(profile()),
    }
}

fn channel(id: &str, name: &str) -> SlackChannel {
    SlackChannel {
        id: id.to_string(),
        name: name.to_string(),
        is_channel: true,
        is_private: false,
        is_archived: false,
        is_general: false,
        is_im: false,
        is_mpim: false,
        is_group: false,
        is_member: true,
        created: None,
        creator: None,
        num_members: None,
        topic: None,
        purpose: None,
    }
}

#[test]
fn user_fields_render() {
    let u = alice();
    assert_eq!(get_user_field(&u, "id"), "U1");
    assert_eq!(get_user_field(&u, "name"), "alice");
    assert_eq!(get_user_field(&u, "real_name"), "Alice Liddell");
    assert_eq!(get_user_field(&u, "display_name"), "-");
    assert_eq!(get_user_field(&u, "email"), "alice@example.com");
    assert_eq!(get_user_field(&u, "status"), ":calendar: in a meeting");
    assert_eq!(get_user_field(&u, "status_emoji"), ":calendar:");
    assert_eq!(get_user_field(&u, "avatar"), "-");
    assert_eq!(get_user_field(&u, "title"), "-");
    assert_eq!(get_user_field(&u, "timezone"), "Europe/London");
    assert_eq!(get_user_field(&u, "is_admin"), "admin");
    assert_eq!(get_user_field(&u, "is_bot"), "-");
    assert_eq!(get_user_field(&u, "deleted"), "-");
    assert_eq!(get_user_field(&u, "unknown"), "-");
}

#[test]
fn user_status_falls_back() {
    let mut u = alice();
    if let Some(p) = u.profile.as_mut() {
        p.status_text = Some("".to_string());
    }
    assert_eq!(get_user_field(&u, "status"), ":calendar:");
    if let Some(p) = u.profile.as_mut() {
        p.status_emoji = None;
        p.status_text = Some("away".to_string());
    }
    assert_eq!(get_user_field(&u, "status"), "away");
    u.profile = None;
    assert_eq!(get_user_field(&u, "status"), "-");
    assert_eq!(get_user_field(&u, "email"), "-");
}

#[test]
fn channel_types() {
    let mut c = channel("C1", "general");
    assert_eq!(get_channel_type(&c), "Public");
    c.is_private = true;
    assert_eq!(get_channel_type(&c), "Private");
    c.is_mpim = true;
    assert_eq!(get_channel_type(&c), "Group");
    c.is_im = true;
    assert_eq!(get_channel_type(&c), "DM");
}

#[test]
fn channel_fields_render() {
    let mut c = channel("C1", "general");
    c.num_members = Some(-3);
    c.created = Some(0);
    c.purpose = Some(ChannelPurpose {
        value: "chat".to_string(),
        creator: "U1".to_string(),
        last_set: 0,
    });
    assert_eq!(get_channel_field(&c, "id"), "C1");
    assert_eq!(get_channel_field(&c, "type"), "Public");
    assert_eq!(get_channel_field(&c, "members"), "-3");
    assert_eq!(get_channel_field(&c, "topic"), "-");
    assert_eq!(get_channel_field(&c, "purpose"), "chat");
    assert_eq!(get_channel_field(&c, "created"), "1970-01-01");
    assert_eq!(get_channel_field(&c, "creator"), "-");
    assert_eq!(get_channel_field(&c, "is_member"), "member");
    assert_eq!(get_channel_field(&c, "is_archived"), "-");
    assert_eq!(get_channel_field(&c, "is_private"), "public");
    c.created = Some(1_700_000_000);
    assert_eq!(get_channel_field(&c, "created"), "2023-11-14");
    c.num_members = Some(1234);
    assert_eq!(get_channel_field(&c, "members"), "1234");
}

#[test]
fn created_without_date_shows_seconds() {
    assert_eq!(render_created(42, None), "42");
    assert_eq!(render_created(-7, None), "-7");
    assert_eq!(render_created(42, Some("2000-01-01".to_string())), "2000-01-01");
    assert_eq!(decimal_string(i64::MIN), "-9223372036854775808");
    assert_eq!(decimal_string(0), "0");
}

#[test]
fn merge_fields_appends_new_columns_once() {
    let defaults = vec!["id".to_string(), "name".to_string()];
    let extra = vec!["email".to_string(), "name".to_string(), "email".to_string(), "title".to_string()];
    assert_eq!(merge_fields(&defaults, Some(&extra)), vec!["id", "name", "email", "title"]);
    assert_eq!(merge_fields(&defaults, None), vec!["id", "name"]);
}

#[test]
fn resolve_channel_by_id_or_name() {
    let mut cache = SqliteCache::new(uuid::Uuid::new_v4().to_string());
    cache
        .save_channels_internal(vec![channel("C100", "general-dev"), channel("C200", "general")])
        .unwrap();
    assert_eq!(resolve_channel("C999", &cache), Some("C999".to_string()));
    assert_eq!(resolve_channel("#general", &cache), Some("C200".to_string()));
    assert_eq!(resolve_channel("##@general", &cache), Some("C200".to_string()));
    assert_eq!(resolve_channel("#nothing", &cache), None);
}
