use mcp_slack::records::{channel_json_fields, user_json_fields, FieldValue};
use mcp_slack::render::{attachment_lines, message_author, pin_preview, Attachment, AttachmentField};
use mcp_slack::types::{SlackChannel, SlackUser, SlackUserProfile};

fn s(x: &str) -> Option<String> {
    Some(x.to_string())
}

fn empty_attachment() -> Attachment {
    Attachment {
        pretext: None,
        author_name: None,
        title: None,
        text: None,
        fields: vec![],
        footer: None,
        fallback: None,
    }
}

#[test]
fn attachment_renders_parts_in_order() {
    let att = Attachment {
        pretext: s("Deploy report"),
        author_name: s("ci"),
        title: s("build 42"),
        text: s("  line one  \r\n\n   \nline two\n"),
        fields: vec![
            AttachmentField { title: s("Status"), value: s("passed\nall green") },
            AttachmentField { title: s("Ignored"), value: None },
            AttachmentField { title: None, value: s("") },
        ],
        footer: s("bot"),
        fallback: s("never shown"),
    };
    assert_eq!(
        attachment_lines(&att),
        vec![
            "  │ Deploy report",
            "  │ ci: build 42",
            "  │ line one",
            "  │ line two",
            "  │ Status: passed",
            "  │ ",
            "  │ bot",
        ]
    );
}

#[test]
fn attachment_falls_back_when_nothing_else() {
    let mut att = empty_attachment();
    att.fallback = s("plain fallback");
    att.pretext = s("");
    assert_eq!(attachment_lines(&att), vec!["  │ plain fallback"]);

    att.title = s("only title");
    assert_eq!(attachment_lines(&att), vec!["  │ only title"]);

    assert!(attachment_lines(&empty_attachment()).is_empty());
}

#[test]
fn attachment_with_blank_text_counts_as_rendered() {
    let mut att = empty_attachment();
    att.text = s("   \n  ");
    att.fallback = s("fb");
    assert!(attachment_lines(&att).is_empty());
}

#[test]
fn author_priority() {
    assert_eq!(message_author(&s("U1"), &s("bot"), &s("B1")), "U1");
    assert_eq!(message_author(&None, &s("bot"), &s("B1")), "bot");
    assert_eq!(message_author(&None, &None, &s("B1")), "B1");
    assert_eq!(message_author(&None, &None, &None), "system");
}

#[test]
fn pin_preview_cuts_at_sixty() {
    let short = "a".repeat(60);
    assert_eq!(pin_preview(&short), short);
    let long = format!("{}é", "b".repeat(60));
    assert_eq!(pin_preview(&long), format!("{}...", "b".repeat(60)));
    assert_eq!(pin_preview(""), "");
}

#[test]
fn user_json_fields_in_requested_order() {
    let user = SlackUser {
        id: "U1".to_string(),
        name: "alice".to_string(),
        is_bot: false,
        is_admin: true,
        deleted: false,
        profile: Some(SlackUserProfile {
            real_name: s("Alice"),
            display_name: None,
            email: s("a@example.com"),
            status_text: None,
            status_emoji: None,
            title: None,
            avatar: None,
            timezone: None,
        }),
    };
    let fields: Vec<String> =
        ["email", "bogus", "id", "status", "display_name", "is_admin"].iter().map(|f| f.to_string()).collect();
    let pairs = user_json_fields(&user, &fields);
    let names: Vec<&str> = pairs.iter().map(|(n, _)| n.as_str()).collect();
    assert_eq!(names, vec!["email", "id", "status", "display_name", "is_admin"]);
    assert!(matches!(&pairs[0].1, FieldValue::MaybeText(Some(e)) if e == "a@example.com"));
    assert!(matches!(&pairs[1].1, FieldValue::Text(i) if i == "U1"));
    assert!(matches!(&pairs[2].1, FieldValue::Text(t) if t.is_empty()));
    assert!(matches!(&pairs[3].1, FieldValue::MaybeText(None)));
    assert!(matches!(&pairs[4].1, FieldValue::Flag(true)));
}

#[test]
fn channel_json_fields_types() {
    let ch = SlackChannel {
        id: "D1".to_string(),
        name: "dm".to_string(),
        is_channel: false,
        is_private: false,
        is_archived: false,
        is_general: false,
        is_im: true,
        is_mpim: false,
        is_group: false,
        is_member: true,
        created: Some(7),
        creator: None,
        num_members: Some(2),
        topic: None,
        purpose: None,
    };
    let fields: Vec<String> = ["type", "members", "created", "topic", "is_private"].iter().map(|f| f.to_string()).collect();
    let pairs = channel_json_fields(&ch, &fields);
    assert_eq!(pairs.len(), 5);
    assert!(matches!(&pairs[0].1, FieldValue::Text(t) if t == "DM"));
    assert!(matches!(&pairs[1].1, FieldValue::MaybeNumber(Some(2))));
    assert!(matches!(&pairs[2].1, FieldValue::MaybeNumber(Some(7))));
    assert!(matches!(&pairs[3].1, FieldValue::MaybeText(None)));
    assert!(matches!(&pairs[4].1, FieldValue::Flag(false)));
}
