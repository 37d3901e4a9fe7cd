//! Data models for the remote chat service.

use vstd::prelude::*;
use crate::text::str_eq;

verus! {

/// Type of conversation.
#[derive(Debug, Clone, Copy, PartialEq, Eq, Structural)]
pub enum ConversationType {
    /// One-on-one chat.
    Chat,
    /// Group chat.
    Group,
    /// Channel conversation.
    Channel,
    /// Meeting conversation.
    Meeting,
}

/// A member of a conversation.
#[derive(Debug, Clone)]
pub struct ConversationMember {
    /// User ID.
    pub id: String,
    /// Display name.
    pub display_name: String,
    /// Email address.
    pub email: Option<String>,
    /// User principal name.
    pub upn: Option<String>,
    /// Tenant ID.
    pub tenant_id: Option<String>,
}

/// Message content type.
#[derive(Debug, Clone, Copy, PartialEq, Eq, Structural)]
pub enum ContentType {
    /// HTML formatted content.
    Html,
    /// Plain text content.
    Text,
}

/// Message importance level.
#[derive(Debug, Clone, Copy, PartialEq, Eq, Structural)]
pub enum MessageImportance {
    /// Normal importance.
    Normal,
    /// High importance.
    High,
    /// Urgent importance.
    Urgent,
}

/// A reaction to a message.
#[derive(Debug, Clone)]
pub struct Reaction {
    /// Reaction type (like, heart, laugh, etc.).
    pub reaction_type: String,
    /// User who reacted.
    pub user_id: String,
    /// Timestamp of reaction.
    pub timestamp: i64,
}

/// A file attachment.
#[derive(Debug, Clone)]
pub struct Attachment {
    /// Attachment ID.
    pub id: String,
    /// File name.
    pub name: String,
    /// MIME type.
    pub content_type: String,
    /// File size in bytes.
    pub size: Option<u64>,
    /// Download URL.
    pub url: Option<String>,
}

/// Information about a team.
#[derive(Debug, Clone)]
pub struct TeamInfo {
    /// Team ID.
    pub id: String,
    /// Team name.
    pub name: String,
    /// Team description.
    pub description: Option<String>,
    /// Display name for the team.
    pub display_name: String,
}

/// Information about a channel within a team.
#[derive(Debug, Clone)]
pub struct ChannelInfo {
    /// Channel ID.
    pub id: String,
    /// Channel name.
    pub name: String,
    /// Channel description.
    pub description: Option<String>,
    /// Parent team ID.
    pub team_id: String,
    /// Whether this is the default channel.
    pub is_general: bool,
}

/// A message in a conversation.
#[derive(Debug, Clone)]
pub struct Message {
    /// Unique message ID.
    pub id: String,
    /// Conversation ID this message belongs to.
    pub conversation_id: String,
    /// Sender information.
    pub from: Option<ConversationMember>,
    /// Message content (HTML or text).
    pub content: String,
    /// Message content type.
    pub content_type: ContentType,
    /// Timestamp when the message was sent (Unix milliseconds).
    pub timestamp: i64,
    /// Message importance.
    pub importance: Option<MessageImportance>,
    /// Reactions to the message.
    pub reactions: Vec<Reaction>,
    /// Attachments in the message.
    pub attachments: Vec<Attachment>,
    /// Reply thread ID for channel messages.
    pub reply_to_id: Option<String>,
}

/// A conversation (chat, channel, or meeting thread).
#[derive(Debug, Clone)]
pub struct Conversation {
    /// Unique conversation ID.
    pub id: String,
    /// Conversation type.
    pub conversation_type: ConversationType,
    /// Display title of the conversation.
    pub title: Option<String>,
    /// Topic for group chats.
    pub topic: Option<String>,
    /// List of conversation members.
    pub members: Vec<ConversationMember>,
    /// Last message in the conversation.
    pub last_message: Option<Message>,
    /// Timestamp of last activity (Unix milliseconds).
    pub last_activity: Option<i64>,
    /// Number of unread messages.
    pub unread_count: Option<u32>,
    /// Team context for channels.
    pub team: Option<TeamInfo>,
    /// Channel context for channel conversations.
    pub channel: Option<ChannelInfo>,
}

/// User presence status.
#[derive(Debug, Clone, Copy, PartialEq, Eq, Structural)]
pub enum PresenceStatus {
    /// Available.
    Available,
    /// Busy.
    Busy,
    /// Do not disturb.
    DoNotDisturb,
    /// Away.
    Away,
    /// Offline.
    Offline,
    /// Unknown or unspecified.
    Unknown,
}

/// How a presence availability tag maps to a status.
pub open spec fn spec_presence_status(s: Seq<char>) -> PresenceStatus {
    if s == "Available"@ {
        PresenceStatus::Available
    } else if s == "Busy"@ {
        PresenceStatus::Busy
    } else if s == "DoNotDisturb"@ {
        PresenceStatus::DoNotDisturb
    } else if s == "Away"@ {
        PresenceStatus::Away
    } else if s == "Offline"@ {
        PresenceStatus::Offline
    } else {
        PresenceStatus::Unknown
    }
}

/// Map a presence availability tag to a status; anything unrecognized is
/// `Unknown`.
pub fn presence_status_from(s: &str) -> (r: PresenceStatus)
    ensures
        r == spec_presence_status(s@),
{
    if str_eq(s, "Available") {
        PresenceStatus::Available
    } else if str_eq(s, "Busy") {
        PresenceStatus::Busy
    } else if str_eq(s, "DoNotDisturb") {
        PresenceStatus::DoNotDisturb
    } else if str_eq(s, "Away") {
        PresenceStatus::Away
    } else if str_eq(s, "Offline") {
        PresenceStatus::Offline
    } else {
        PresenceStatus::Unknown
    }
}

/// User presence information.
#[derive(Debug, Clone)]
pub struct UserPresence {
    /// User ID.
    pub user_id: String,
    /// Current availability.
    pub availability: PresenceStatus,
    /// Activity status.
    pub activity: Option<String>,
    /// Status message.
    pub status_message: Option<String>,
    /// Last active timestamp.
    pub last_active: Option<i64>,
}

/// The credential bundle: scoped access tokens issued together with one
/// shared expiry, plus the identity claims extracted from them.
#[derive(Debug)]
pub struct TeamsTokens {
    /// Access token for the chat APIs.
    pub skype_token: String,
    /// Access token for the chat aggregation service.
    pub chat_token: String,
    /// Access token for the graph API.
    pub graph_token: String,
    /// Access token for the presence API.
    pub presence_token: String,
    /// Tenant ID.
    pub tenant_id: String,
    /// User object ID.
    pub user_id: String,
    /// User principal name.
    pub user_principal_name: String,
    /// Expiry of the whole bundle, as an epoch second.
    pub expires_at: i64,
}

/// Mathematical view of a credential bundle.
pub ghost struct TokensView {
    pub skype_token: Seq<char>,
    pub chat_token: Seq<char>,
    pub graph_token: Seq<char>,
    pub presence_token: Seq<char>,
    pub tenant_id: Seq<char>,
    pub user_id: Seq<char>,
    pub user_principal_name: Seq<char>,
    pub expires_at: int,
}

impl View for TeamsTokens {
    type V = TokensView;

    open spec fn view(&self) -> TokensView {
        TokensView {
            skype_token: self.skype_token@,
            chat_token: self.chat_token@,
            graph_token: self.graph_token@,
            presence_token: self.presence_token@,
            tenant_id: self.tenant_id@,
            user_id: self.user_id@,
            user_principal_name: self.user_principal_name@,
            expires_at: self.expires_at as int,
        }
    }
}

impl Clone for TeamsTokens {
    /// The clone is field-for-field equal to the original.
    fn clone(&self) -> (r: Self)
        ensures
            r@ == self@,
    {
        TeamsTokens {
            skype_token: self.skype_token.clone(),
            chat_token: self.chat_token.clone(),
            graph_token: self.graph_token.clone(),
            presence_token: self.presence_token.clone(),
            tenant_id: self.tenant_id.clone(),
            user_id: self.user_id.clone(),
            user_principal_name: self.user_principal_name.clone(),
            expires_at: self.expires_at,
        }
    }
}

} // verus!
