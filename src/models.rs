use crate::types::{IntermediarySource, MediaType, Source};
use vstd::prelude::*;

verus! {

/// Who wrote a stored post, as far as the store knows.
#[derive(Clone, Debug)]
pub enum Authorship {
    /// Bulk-imported record that has not been hydrated yet: its fields are
    /// incomplete and must not be treated as authoritative.
    Placeholder,
    /// The author is unknown (the remote post carried no author, or the post
    /// turned out to be gone upstream).
    Unattributed,
    /// The post's author account.
    By { user_id: u64, name: String, screen_name: String },
}

impl Authorship {
    pub open spec fn is_placeholder(&self) -> bool {
        self is Placeholder
    }

    /// The account id of the author, when known.
    pub open spec fn user(&self) -> Option<u64> {
        match self {
            Authorship::By { user_id, .. } => Some(*user_id),
            _ => None,
        }
    }

    pub fn duplicate(&self) -> (r: Authorship)
        ensures
            r == *self,
    {
        match self {
            Authorship::Placeholder => Authorship::Placeholder,
            Authorship::Unattributed => Authorship::Unattributed,
            Authorship::By { user_id, name, screen_name } => Authorship::By {
                user_id: *user_id,
                name: name.clone(),
                screen_name: screen_name.clone(),
            },
        }
    }

    pub fn is_authored_by(&self, uid: u64) -> (r: bool)
        ensures
            r == (self.user() == Some(uid)),
    {
        match self {
            Authorship::By { user_id, .. } => *user_id == uid,
            _ => false,
        }
    }
}

/// A copy of an optional text, equal to it.
pub fn duplicate_text(t: &Option<String>) -> (r: Option<String>)
    ensures
        r == *t,
{
    match t {
        Some(s) => Some(s.clone()),
        None => None,
    }
}

/// One archived remote post. Times are seconds since the Unix epoch.
#[derive(Clone, Debug)]
pub struct Status {
    /// Store-assigned identifier.
    pub id: u64,
    pub text: String,
    pub author: Authorship,
    pub posted_at: i64,
    pub fetched_at: i64,
    pub fetched_via: Option<IntermediarySource>,
    pub deleted_at: Option<i64>,
    pub is_repost: bool,
    pub reposted_at: Option<i64>,
    pub is_marked: bool,
    pub marked_at: Option<i64>,
    pub source: Source,
    /// The platform's native id of the post; unique within `source`.
    pub source_id: u64,
    pub source_app: String,
    pub in_reply_to_status: Option<u64>,
    pub in_reply_to_user: Option<u64>,
    pub quoting_status: Option<u64>,
    pub public: bool,
}

impl Status {
    pub fn duplicate(&self) -> (r: Status)
        ensures
            r == *self,
    {
        Status {
            id: self.id,
            text: self.text.clone(),
            author: self.author.duplicate(),
            posted_at: self.posted_at,
            fetched_at: self.fetched_at,
            fetched_via: self.fetched_via,
            deleted_at: self.deleted_at,
            is_repost: self.is_repost,
            reposted_at: self.reposted_at,
            is_marked: self.is_marked,
            marked_at: self.marked_at,
            source: self.source,
            source_id: self.source_id,
            source_app: self.source_app.clone(),
            in_reply_to_status: self.in_reply_to_status,
            in_reply_to_user: self.in_reply_to_user,
            quoting_status: self.quoting_status,
            public: self.public,
        }
    }
}

/// One media attachment of a status.
#[derive(Clone, Debug)]
pub struct Entity {
    pub id: u64,
    pub fetched_at: i64,
    /// The owning status's store id.
    pub status_id: u64,
    pub ordering: Option<u64>,
    pub media_type: MediaType,
    /// The platform's native id of the media; unique over all entities.
    pub source_id: u64,
    pub source_url: String,
    pub original_status_source_id: Option<u64>,
    pub original_status_source_url: Option<String>,
    /// Content hash in the blob store, once the media bytes are kept locally.
    pub blob_hash: Option<String>,
}

impl TwitterUser {
    pub fn duplicate(&self) -> (r: TwitterUser)
        ensures
            r == *self,
    {
        TwitterUser {
            id: self.id,
            source_id: self.source_id,
            placeholder: self.placeholder,
            screen_name: self.screen_name.clone(),
            name: self.name.clone(),
            description: duplicate_text(&self.description),
            location: duplicate_text(&self.location),
            url: duplicate_text(&self.url),
            is_verified: self.is_verified,
            is_protected: self.is_protected,
            statuses_count: self.statuses_count,
            following_count: self.following_count,
            followers_count: self.followers_count,
            likes_count: self.likes_count,
            listed_count: self.listed_count,
            created_at: self.created_at,
            fetched_at: self.fetched_at,
            blocked_at: self.blocked_at,
            muted_at: self.muted_at,
            missing: self.missing,
        }
    }
}

/// A durable request to delete a status at or after a time.
#[derive(Clone, Debug)]
pub struct Deletion {
    pub id: u64,
    pub status_id: u64,
    pub created_at: i64,
    pub not_before: i64,
    /// Unset while the request is pending.
    pub executed_at: Option<i64>,
    pub sponsor: String,
}

/// Cached profile of a remote account.
#[derive(Clone, Debug)]
pub struct TwitterUser {
    pub id: u64,
    /// The platform's native id of the account; unique over all users.
    pub source_id: u64,
    /// Set while only the account id is known.
    pub placeholder: bool,
    pub screen_name: String,
    pub name: String,
    pub description: Option<String>,
    pub location: Option<String>,
    pub url: Option<String>,
    pub is_verified: bool,
    pub is_protected: bool,
    pub statuses_count: i32,
    pub following_count: i32,
    pub followers_count: i32,
    pub likes_count: i32,
    pub listed_count: i32,
    pub created_at: i64,
    pub fetched_at: i64,
    pub blocked_at: Option<i64>,
    pub muted_at: Option<i64>,
    /// Set once the account was found to be gone upstream.
    pub missing: bool,
}

} // verus!
