//! The data model of the pipeline: devices, preferences, notification
//! kinds and payloads, and the normalized firehose event with its typed
//! record. Records are modeled as plain values (no dynamic JSON access),
//! so all classification logic over them can be verified.

use vstd::prelude::*;

verus! {

/// A registered device: the token is globally unique and belongs to at
/// most one actor at a time (enforced by the device store).
#[derive(Debug, PartialEq)]
pub struct UserDevice {
    pub id: u64,
    pub did: String,
    pub device_token: String,
    pub created_at: i64,
    pub updated_at: i64,
}

impl Clone for UserDevice {
    fn clone(&self) -> (res: Self)
        ensures
            res == *self,
    {
        UserDevice {
            id: self.id,
            did: self.did.clone(),
            device_token: self.device_token.clone(),
            created_at: self.created_at,
            updated_at: self.updated_at,
        }
    }
}

/// Per-device notification preferences; every flag defaults to true.
#[derive(Debug, Clone, Copy, PartialEq)]
pub struct NotificationPreference {
    pub user_id: u64,
    pub mentions: bool,
    pub replies: bool,
    pub likes: bool,
    pub follows: bool,
    pub reposts: bool,
    pub quotes: bool,
}

/// The classified kind of a notification-worthy event.
#[derive(Debug, Clone, Copy, PartialEq, Eq, Structural)]
pub enum NotificationType {
    Mention,
    Reply,
    Like,
    Follow,
    Repost,
    Quote,
}

/// A mention feature inside a facet (`$type` and `did` of the feature).
#[derive(Debug, Clone, PartialEq)]
pub struct FacetFeature {
    pub feature_type: Option<String>,
    pub did: Option<String>,
}

/// A text-span annotation on a post; only its features matter here.
#[derive(Debug, Clone, PartialEq)]
pub struct Facet {
    pub features: Vec<FacetFeature>,
}

/// The reply reference of a post; `parent_uri` is absent when the reply
/// object carries no usable parent record.
#[derive(Debug, Clone, PartialEq)]
pub struct ReplyData {
    pub parent_uri: Option<String>,
}

/// The record reference inside an embed: `uri` for the flat layout,
/// `inner_uri` for the nested record-within-record layout.
#[derive(Debug, Clone, PartialEq)]
pub struct EmbedRecord {
    pub uri: Option<String>,
    pub inner_uri: Option<String>,
}

/// A post embed, possibly a quoted record.
#[derive(Debug, Clone, PartialEq)]
pub struct EventEmbed {
    pub embed_type: Option<String>,
    pub record: Option<EmbedRecord>,
}

/// The deserialized content of an op's block, normalized to the fields
/// the classifier reads. Fields that the record's collection does not
/// carry stay `None` (or empty, for facets).
#[derive(Debug, Clone, PartialEq)]
pub struct RecordData {
    pub text: Option<String>,
    pub reply: Option<ReplyData>,
    pub facets: Vec<Facet>,
    pub embed: Option<EventEmbed>,
    pub subject_uri: Option<String>,
    pub subject_actor: Option<String>,
}

/// A normalized firehose event: one create/update op of a commit.
#[derive(Debug, Clone, PartialEq)]
pub struct BlueskyEvent {
    pub op: String,
    pub path: String,
    pub cid: String,
    pub author: String,
    pub record: RecordData,
    pub timestamp: i64,
}

/// A notification ready for the push gateway. `data_uri` / `data_kind`
/// carry the deep link when one exists; they are set together.
#[derive(Debug, Clone, PartialEq)]
pub struct NotificationPayload {
    pub user_did: String,
    pub device_token: String,
    pub notification_type: NotificationType,
    pub title: String,
    pub body: String,
    pub data_uri: Option<String>,
    pub data_kind: Option<String>,
}

/// One persisted cursor row; the store is insert-only history.
#[derive(Debug, Clone, PartialEq)]
pub struct FirehoseCursor {
    pub id: u64,
    pub cursor: u64,
    pub updated_at: i64,
}

/// The preference flag that gates a notification of the given kind.
pub open spec fn spec_pref_allows(prefs: NotificationPreference, kind: NotificationType) -> bool {
    match kind {
        NotificationType::Mention => prefs.mentions,
        NotificationType::Reply => prefs.replies,
        NotificationType::Like => prefs.likes,
        NotificationType::Follow => prefs.follows,
        NotificationType::Repost => prefs.reposts,
        NotificationType::Quote => prefs.quotes,
    }
}

/// Whether the given preferences allow the given notification kind.
pub fn pref_allows(prefs: &NotificationPreference, kind: NotificationType) -> (r: bool)
    ensures
        r == spec_pref_allows(*prefs, kind),
{
    match kind {
        NotificationType::Mention => prefs.mentions,
        NotificationType::Reply => prefs.replies,
        NotificationType::Like => prefs.likes,
        NotificationType::Follow => prefs.follows,
        NotificationType::Repost => prefs.reposts,
        NotificationType::Quote => prefs.quotes,
    }
}

/// Default preferences for a new device: everything on.
pub fn default_preferences(user_id: u64) -> (r: NotificationPreference)
    ensures
        r.user_id == user_id,
        r.mentions && r.replies && r.likes && r.follows && r.reposts && r.quotes,
{
    NotificationPreference {
        user_id,
        mentions: true,
        replies: true,
        likes: true,
        follows: true,
        reposts: true,
        quotes: true,
    }
}

/// The name of a notification kind, as it is placed under the payload's
/// `data_kind` for deep linking.
pub fn kind_name(kind: NotificationType) -> (r: String)
    ensures
        r@ == spec_kind_name(kind),
{
    match kind {
        NotificationType::Mention => "Mention".to_owned(),
        NotificationType::Reply => "Reply".to_owned(),
        NotificationType::Like => "Like".to_owned(),
        NotificationType::Follow => "Follow".to_owned(),
        NotificationType::Repost => "Repost".to_owned(),
        NotificationType::Quote => "Quote".to_owned(),
    }
}

/// The name of a notification kind.
pub open spec fn spec_kind_name(kind: NotificationType) -> Seq<char> {
    match kind {
        NotificationType::Mention => "Mention"@,
        NotificationType::Reply => "Reply"@,
        NotificationType::Like => "Like"@,
        NotificationType::Follow => "Follow"@,
        NotificationType::Repost => "Repost"@,
        NotificationType::Quote => "Quote"@,
    }
}

} // verus!
