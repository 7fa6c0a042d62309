use crate::types::MediaType;
use vstd::prelude::*;

verus! {

/// The author of a remote post, as the feed reports it.
#[derive(Clone, Debug)]
pub struct RemoteAuthor {
    pub id: u64,
    pub name: String,
    pub screen_name: String,
    pub protected: bool,
}

/// One encoding of a video or animated GIF.
#[derive(Clone, Debug)]
pub struct VideoVariant {
    pub bitrate: Option<i32>,
    pub url: String,
}

/// A media attachment of a remote post.
#[derive(Clone, Debug)]
pub struct RemoteMedia {
    pub id: u64,
    pub media_type: MediaType,
    pub media_url_https: String,
    /// The short link under which the media is shown in the post.
    pub url: String,
    /// Set when the media was itself re-shared from another post.
    pub source_status_id: Option<u64>,
    pub variants: Vec<VideoVariant>,
}

/// A post as the remote feed hands it out.
#[derive(Debug)]
pub struct RemotePost {
    /// The feed item's own id (for a repost, the id of the repost).
    pub id: u64,
    pub text: String,
    pub created_at: i64,
    pub user: Option<RemoteAuthor>,
    /// For a repost, the post that was reposted.
    pub retweeted_status: Option<Box<RemotePost>>,
    pub favorited: Option<bool>,
    pub source_name: String,
    pub source_url: String,
    pub in_reply_to_status_id: Option<u64>,
    pub in_reply_to_user_id: Option<u64>,
    pub quoted_status_id: Option<u64>,
    /// Media attachments, in the order the post shows them.
    pub media: Vec<RemoteMedia>,
}

impl RemotePost {
    /// The post whose content is archived: the reposted post for a repost,
    /// the post itself otherwise.
    pub open spec fn origin(self) -> RemotePost {
        match self.retweeted_status {
            Some(b) => *b,
            None => self,
        }
    }

    /// The native id under which this feed item is stored.
    pub open spec fn stored_id(self) -> u64 {
        self.origin().id
    }
}

/// An account profile as the remote lookup hands it out.
#[derive(Clone, Debug)]
pub struct RemoteUser {
    pub id: u64,
    pub screen_name: String,
    pub name: String,
    pub description: Option<String>,
    pub location: Option<String>,
    pub url: Option<String>,
    pub verified: bool,
    pub protected: bool,
    pub statuses_count: i32,
    pub friends_count: i32,
    pub followers_count: i32,
    pub favourites_count: i32,
    pub listed_count: i32,
    pub created_at: i64,
}

} // verus!
