//! The directory service's entities as the cache stores them, and the
//! smaller records that the service hands back for messages and channels.
use vstd::prelude::*;

verus! {

/// A copy of an optional string, equal to it.
pub fn copy_opt_string(s: &Option<String>) -> (r: Option<String>)
    ensures
        r == *s,
{
    match s {
        Some(v) => Some(v.clone()),
        None => None,
    }
}

/// The profile part of a user as the directory service describes it.
#[derive(Debug)]
pub struct SlackUserProfile {
    pub real_name: Option<String>,
    pub display_name: Option<String>,
    pub email: Option<String>,
    pub status_text: Option<String>,
    pub status_emoji: Option<String>,
    pub title: Option<String>,
    pub avatar: Option<String>,
    pub timezone: Option<String>,
}

impl SlackUserProfile {
    /// A copy equal to `self`, field for field.
    pub fn copy(&self) -> (r: SlackUserProfile)
        ensures
            r == *self,
    {
        SlackUserProfile {
            real_name: copy_opt_string(&self.real_name),
            display_name: copy_opt_string(&self.display_name),
            email: copy_opt_string(&self.email),
            status_text: copy_opt_string(&self.status_text),
            status_emoji: copy_opt_string(&self.status_emoji),
            title: copy_opt_string(&self.title),
            avatar: copy_opt_string(&self.avatar),
            timezone: copy_opt_string(&self.timezone),
        }
    }
}

impl Clone for SlackUserProfile {
    fn clone(&self) -> (r: Self)
        ensures
            r == *self,
    {
        self.copy()
    }
}

/// A user of the workspace.
#[derive(Debug)]
pub struct SlackUser {
    pub id: String,
    pub name: String,
    pub is_bot: bool,
    pub is_admin: bool,
    pub deleted: bool,
    pub profile: Option<SlackUserProfile>,
}

impl SlackUser {
    /// A copy equal to `self`, field for field.
    pub fn copy(&self) -> (r: SlackUser)
        ensures
            r == *self,
    {
        SlackUser {
            id: self.id.clone(),
            name: self.name.clone(),
            is_bot: self.is_bot,
            is_admin: self.is_admin,
            deleted: self.deleted,
            profile: match &self.profile {
                Some(p) => Some(p.copy()),
                None => None,
            },
        }
    }
}

impl Clone for SlackUser {
    fn clone(&self) -> (r: Self)
        ensures
            r == *self,
    {
        self.copy()
    }
}

/// A channel's topic, with who set it and when.
#[derive(Debug)]
pub struct ChannelTopic {
    pub value: String,
    pub creator: String,
    pub last_set: i64,
}

impl ChannelTopic {
    /// A copy equal to `self`, field for field.
    pub fn copy(&self) -> (r: ChannelTopic)
        ensures
            r == *self,
    {
        ChannelTopic { value: self.value.clone(), creator: self.creator.clone(), last_set: self.last_set }
    }
}

impl Clone for ChannelTopic {
    fn clone(&self) -> (r: Self)
        ensures
            r == *self,
    {
        self.copy()
    }
}

/// A channel's purpose, with who set it and when.
#[derive(Debug)]
pub struct ChannelPurpose {
    pub value: String,
    pub creator: String,
    pub last_set: i64,
}

impl ChannelPurpose {
    /// A copy equal to `self`, field for field.
    pub fn copy(&self) -> (r: ChannelPurpose)
        ensures
            r == *self,
    {
        ChannelPurpose {
            value: self.value.clone(),
            creator: self.creator.clone(),
            last_set: self.last_set,
        }
    }
}

impl Clone for ChannelPurpose {
    fn clone(&self) -> (r: Self)
        ensures
            r == *self,
    {
        self.copy()
    }
}

/// A conversation: public or private channel, direct message or group DM.
#[derive(Debug)]
pub struct SlackChannel {
    pub id: String,
    pub name: String,
    pub is_channel: bool,
    pub is_private: bool,
    pub is_archived: bool,
    pub is_general: bool,
    pub is_im: bool,
    pub is_mpim: bool,
    pub is_group: bool,
    pub is_member: bool,
    pub created: Option<i64>,
    pub creator: Option<String>,
    pub num_members: Option<i32>,
    pub topic: Option<ChannelTopic>,
    pub purpose: Option<ChannelPurpose>,
}

impl SlackChannel {
    /// A copy equal to `self`, field for field.
    pub fn copy(&self) -> (r: SlackChannel)
        ensures
            r == *self,
    {
        SlackChannel {
            id: self.id.clone(),
            name: self.name.clone(),
            is_channel: self.is_channel,
            is_private: self.is_private,
            is_archived: self.is_archived,
            is_general: self.is_general,
            is_im: self.is_im,
            is_mpim: self.is_mpim,
            is_group: self.is_group,
            is_member: self.is_member,
            created: self.created,
            creator: copy_opt_string(&self.creator),
            num_members: self.num_members,
            topic: match &self.topic {
                Some(t) => Some(t.copy()),
                None => None,
            },
            purpose: match &self.purpose {
                Some(p) => Some(p.copy()),
                None => None,
            },
        }
    }
}

impl Clone for SlackChannel {
    fn clone(&self) -> (r: Self)
        ensures
            r == *self,
    {
        self.copy()
    }
}

/// The channel a message was found in.
#[derive(Debug, Clone)]
pub struct MessageChannel {
    pub id: String,
    pub name: String,
}

/// Who last edited a message, and when.
#[derive(Debug, Clone)]
pub struct EditedInfo {
    pub user: String,
    pub ts: String,
}

/// An emoji reaction on a message.
#[derive(Debug, Clone)]
pub struct Reaction {
    pub name: String,
    pub users: Vec<String>,
    pub count: i32,
}

/// One reaction in the reactions of a message.
#[derive(Debug, Clone)]
pub struct ReactionInfo {
    pub name: String,
    pub users: Vec<String>,
    pub count: i32,
}

/// All reactions on one message.
#[derive(Debug, Clone)]
pub struct MessageReactions {
    pub channel: String,
    pub ts: String,
    pub reactions: Vec<ReactionInfo>,
}

/// A link bookmarked in a channel.
#[derive(Debug, Clone)]
pub struct Bookmark {
    pub id: String,
    pub channel_id: String,
    pub title: String,
    pub link: String,
    pub bookmark_type: String,
    pub emoji: Option<String>,
    pub date_created: i64,
    pub date_updated: i64,
}

/// A custom emoji: an image, or an alias of another emoji.
#[derive(Debug, Clone)]
pub struct CustomEmoji {
    pub name: String,
    pub url: String,
    pub is_alias: bool,
    pub alias_for: Option<String>,
}

/// A message pinned in a channel.
#[derive(Debug, Clone)]
pub struct PinnedMessage {
    pub channel: String,
    pub ts: String,
    pub text: Option<String>,
    pub user: Option<String>,
    pub created: i64,
    pub created_by: String,
}

/// The timestamp that identifies a posted message.
#[derive(Debug, Clone)]
pub struct SendMessageResponse {
    pub ts: String,
}

} // verus!
