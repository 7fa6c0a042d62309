use crate::models::{duplicate_text, Authorship, Deletion, Entity, Status, TwitterUser};
use crate::remote::{RemoteMedia, RemotePost, RemoteUser, VideoVariant};
use crate::types::{IntermediarySource, MediaType, Source};
use vstd::prelude::*;
use vstd::string::StringExecFns;

verus! {

/// Sponsor tag of the deletion requests that the trigger scan creates.
pub const SPONSOR: &'static str = "omelette";

/// A status to be stored; the store assigns its id.
#[derive(Clone, Debug)]
pub struct NewStatus {
    pub text: String,
    pub author: Authorship,
    pub posted_at: i64,
    pub fetched_at: i64,
    pub fetched_via: Option<IntermediarySource>,
    pub deleted_at: Option<i64>,
    pub is_repost: bool,
    pub reposted_at: Option<i64>,
    pub is_marked: bool,
    pub marked_at: Option<i64>,
    pub source: Source,
    pub source_id: u64,
    pub source_app: String,
    pub in_reply_to_status: Option<u64>,
    pub in_reply_to_user: Option<u64>,
    pub quoting_status: Option<u64>,
    pub public: bool,
}

impl NewStatus {
    /// The stored record that this row becomes under store id `id`.
    pub open spec fn row(self, id: u64) -> Status {
        Status {
            id,
            text: self.text,
            author: self.author,
            posted_at: self.posted_at,
            fetched_at: self.fetched_at,
            fetched_via: self.fetched_via,
            deleted_at: self.deleted_at,
            is_repost: self.is_repost,
            reposted_at: self.reposted_at,
            is_marked: self.is_marked,
            marked_at: self.marked_at,
            source: self.source,
            source_id: self.source_id,
            source_app: self.source_app,
            in_reply_to_status: self.in_reply_to_status,
            in_reply_to_user: self.in_reply_to_user,
            quoting_status: self.quoting_status,
            public: self.public,
        }
    }

    pub fn to_row(&self, id: u64) -> (r: Status)
        ensures
            r == self.row(id),
    {
        Status {
            id,
            text: self.text.clone(),
            author: self.author.duplicate(),
            posted_at: self.posted_at,
            fetched_at: self.fetched_at,
            fetched_via: self.fetched_via,
            deleted_at: self.deleted_at,
            is_repost: self.is_repost,
            reposted_at: self.reposted_at,
            is_marked: self.is_marked,
            marked_at: self.marked_at,
            source: self.source,
            source_id: self.source_id,
            source_app: self.source_app.clone(),
            in_reply_to_status: self.in_reply_to_status,
            in_reply_to_user: self.in_reply_to_user,
            quoting_status: self.quoting_status,
            public: self.public,
        }
    }

    /// `self` is the row archiving feed item `p`, fetched at `now`: the
    /// content comes from the reposted post for a repost.
    pub open spec fn archives_post(self, p: RemotePost, now: i64) -> bool {
        let o = p.origin();
        &&& self.text == o.text
        &&& self.author == match o.user {
            Some(u) => Authorship::By { user_id: u.id, name: u.name, screen_name: u.screen_name },
            None => Authorship::Unattributed,
        }
        &&& self.posted_at == o.created_at
        &&& self.fetched_at == now
        &&& self.fetched_via is None
        &&& self.deleted_at is None
        &&& self.is_repost == (p.retweeted_status is Some)
        &&& self.reposted_at == if p.retweeted_status is Some {
            Some(p.created_at)
        } else {
            None
        }
        &&& self.is_marked == (p.favorited == Some(true))
        &&& self.marked_at is None
        &&& self.source == Source::Twitter
        &&& self.source_id == o.id
        &&& self.source_app@ == o.source_name@ + " <"@ + o.source_url@ + ">"@
        &&& self.in_reply_to_status == o.in_reply_to_status_id
        &&& self.in_reply_to_user == o.in_reply_to_user_id
        &&& self.quoting_status == o.quoted_status_id
        &&& self.public == match o.user {
            Some(u) => !u.protected,
            None => false,
        }
    }

    /// The row that archives feed item `p`, fetched at `now`.
    pub fn from_post(p: &RemotePost, now: i64) -> (r: NewStatus)
        ensures
            r.archives_post(*p, now),
    {
        let o: &RemotePost = match &p.retweeted_status {
            Some(b) => b,
            None => p,
        };
        let author = match &o.user {
            Some(u) => Authorship::By {
                user_id: u.id,
                name: u.name.clone(),
                screen_name: u.screen_name.clone(),
            },
            None => Authorship::Unattributed,
        };
        let public = match &o.user {
            Some(u) => !u.protected,
            None => false,
        };
        let is_repost = p.retweeted_status.is_some();
        let is_marked = match p.favorited {
            Some(f) => f,
            None => false,
        };
        let source_app = o.source_name.clone().concat(" <").concat(o.source_url.as_str()).concat(
            ">",
        );
        NewStatus {
            text: o.text.clone(),
            author,
            posted_at: o.created_at,
            fetched_at: now,
            fetched_via: None,
            deleted_at: None,
            is_repost,
            reposted_at: if is_repost {
                Some(p.created_at)
            } else {
                None
            },
            is_marked,
            marked_at: None,
            source: Source::Twitter,
            source_id: o.id,
            source_app,
            in_reply_to_status: o.in_reply_to_status_id,
            in_reply_to_user: o.in_reply_to_user_id,
            quoting_status: o.quoted_status_id,
            public,
        }
    }
}

/// Ordering key of a video encoding: its bitrate, or zero when unknown.
pub open spec fn bitrate_key(v: VideoVariant) -> int {
    match v.bitrate {
        Some(b) => b as int,
        None => 0,
    }
}

/// `vs[i]` is the first of the encodings with the highest bitrate.
pub open spec fn is_best_variant(vs: Seq<VideoVariant>, i: int) -> bool {
    &&& 0 <= i < vs.len()
    &&& forall|j: int| 0 <= j < vs.len() ==> bitrate_key(#[trigger] vs[j]) <= bitrate_key(vs[i])
    &&& forall|j: int| 0 <= j < i ==> bitrate_key(#[trigger] vs[j]) < bitrate_key(vs[i])
}

/// `vs[i]` is the first encoding with a zero bitrate (the looping file of a GIF).
pub open spec fn is_still_variant(vs: Seq<VideoVariant>, i: int) -> bool {
    &&& 0 <= i < vs.len()
    &&& vs[i].bitrate == Some(0i32)
    &&& forall|j: int| 0 <= j < i ==> (#[trigger] vs[j]).bitrate != Some(0i32)
}

/// `url` is the address from which media `m` is archived: the image for a
/// photo, the zero-bitrate encoding for a GIF and the highest-bitrate one for
/// a video, falling back to the image when there is no such encoding.
pub open spec fn is_media_url(m: RemoteMedia, url: String) -> bool {
    let vs = m.variants@;
    match m.media_type {
        MediaType::Photo => url == m.media_url_https,
        MediaType::Gif => if exists|i: int| is_still_variant(vs, i) {
            exists|i: int| is_still_variant(vs, i) && url == vs[i].url
        } else {
            url == m.media_url_https
        },
        MediaType::Video => if vs.len() > 0 {
            exists|i: int| is_best_variant(vs, i) && url == vs[i].url
        } else {
            url == m.media_url_https
        },
    }
}

fn best_variant(vs: &Vec<VideoVariant>) -> (r: usize)
    requires
        vs.len() > 0,
    ensures
        is_best_variant(vs@, r as int),
{
    let mut best: usize = 0;
    let mut best_key: i32 = match vs[0].bitrate {
        Some(b) => b,
        None => 0,
    };
    let mut i: usize = 1;
    while i < vs.len()
        invariant
            1 <= i <= vs.len(),
            best < i,
            best_key as int == bitrate_key(vs@[best as int]),
            forall|j: int| 0 <= j < i ==> bitrate_key(#[trigger] vs@[j]) <= best_key,
            forall|j: int| 0 <= j < best ==> bitrate_key(#[trigger] vs@[j]) < best_key,
        decreases vs.len() - i,
    {
        let k: i32 = match vs[i].bitrate {
            Some(b) => b,
            None => 0,
        };
        if k > best_key {
            best = i;
            best_key = k;
        }
        i = i + 1;
    }
    best
}

fn still_variant(vs: &Vec<VideoVariant>) -> (r: Option<usize>)
    ensures
        match r {
            Some(i) => is_still_variant(vs@, i as int),
            None => forall|i: int| 0 <= i < vs@.len() ==> (#[trigger] vs@[i]).bitrate != Some(0i32),
        },
{
    let mut i: usize = 0;
    while i < vs.len()
        invariant
            i <= vs.len(),
            forall|j: int| 0 <= j < i ==> (#[trigger] vs@[j]).bitrate != Some(0i32),
        decreases vs.len() - i,
    {
        if vs[i].bitrate == Some(0i32) {
            return Some(i);
        }
        i = i + 1;
    }
    None
}

/// A media attachment to be stored; the store assigns its id.
#[derive(Clone, Debug)]
pub struct NewEntity {
    pub fetched_at: i64,
    pub status_id: u64,
    pub ordering: Option<u64>,
    pub media_type: MediaType,
    pub source_id: u64,
    pub source_url: String,
    pub original_status_source_id: Option<u64>,
    pub original_status_source_url: Option<String>,
}

impl NewEntity {
    /// The stored record that this row becomes under store id `id`.
    pub open spec fn row(self, id: u64) -> Entity {
        Entity {
            id,
            fetched_at: self.fetched_at,
            status_id: self.status_id,
            ordering: self.ordering,
            media_type: self.media_type,
            source_id: self.source_id,
            source_url: self.source_url,
            original_status_source_id: self.original_status_source_id,
            original_status_source_url: self.original_status_source_url,
            blob_hash: None,
        }
    }

    pub fn to_row(&self, id: u64) -> (r: Entity)
        ensures
            r == self.row(id),
    {
        Entity {
            id,
            fetched_at: self.fetched_at,
            status_id: self.status_id,
            ordering: self.ordering,
            media_type: self.media_type,
            source_id: self.source_id,
            source_url: self.source_url.clone(),
            original_status_source_id: self.original_status_source_id,
            original_status_source_url: duplicate_text(&self.original_status_source_url),
            blob_hash: None,
        }
    }

    /// This row, tied to the status with store id `id`.
    pub fn tagged(&self, id: u64) -> (r: NewEntity)
        ensures
            r == (NewEntity { status_id: id, ..*self }),
    {
        NewEntity {
            fetched_at: self.fetched_at,
            status_id: id,
            ordering: self.ordering,
            media_type: self.media_type,
            source_id: self.source_id,
            source_url: self.source_url.clone(),
            original_status_source_id: self.original_status_source_id,
            original_status_source_url: duplicate_text(&self.original_status_source_url),
        }
    }

    /// `self` describes media `m`, fetched at `now` and not yet tied to a
    /// status (its position in the post aside).
    pub open spec fn archives_media(self, m: RemoteMedia, now: i64) -> bool {
        &&& self.fetched_at == now
        &&& self.status_id == 0
        &&& self.media_type == m.media_type
        &&& self.source_id == m.id
        &&& is_media_url(m, self.source_url)
        &&& self.original_status_source_id == m.source_status_id
        &&& self.original_status_source_url == Some(m.url)
    }

    /// The row for media `m`, fetched at `now`, with no position.
    pub fn from_media(m: &RemoteMedia, now: i64) -> (r: NewEntity)
        ensures
            r.archives_media(*m, now),
            r.ordering is None,
    {
        let source_url = match m.media_type {
            MediaType::Photo => m.media_url_https.clone(),
            MediaType::Gif => match still_variant(&m.variants) {
                Some(k) => m.variants[k].url.clone(),
                None => m.media_url_https.clone(),
            },
            MediaType::Video => if m.variants.len() > 0 {
                let k = best_variant(&m.variants);
                m.variants[k].url.clone()
            } else {
                m.media_url_https.clone()
            },
        };
        NewEntity {
            fetched_at: now,
            status_id: 0,
            ordering: None,
            media_type: m.media_type,
            source_id: m.id,
            source_url,
            original_status_source_id: m.source_status_id,
            original_status_source_url: Some(m.url.clone()),
        }
    }

    /// `rows` are the rows for the attachments `media` of one post, in
    /// order and numbered by position.
    pub open spec fn archive_all(rows: Seq<NewEntity>, media: Seq<RemoteMedia>, now: i64) -> bool {
        &&& rows.len() == media.len()
        &&& forall|i: int|
            0 <= i < rows.len() ==> (#[trigger] rows[i]).archives_media(media[i], now) && rows[i].ordering
                == Some(i as u64)
    }

    /// The rows for a post's media attachments, numbered in order.
    pub fn from_extended(media: &Vec<RemoteMedia>, now: i64) -> (r: Vec<NewEntity>)
        ensures
            NewEntity::archive_all(r@, media@, now),
    {
        let mut r: Vec<NewEntity> = Vec::new();
        let mut i: usize = 0;
        while i < media.len()
            invariant
                i <= media.len(),
                r@.len() == i,
                forall|j: int|
                    0 <= j < i ==> (#[trigger] r@[j]).archives_media(media@[j], now) && r@[j].ordering == Some(
                        j as u64,
                    ),
            decreases media.len() - i,
        {
            let mut e = NewEntity::from_media(&media[i], now);
            e.ordering = Some(i as u64);
            r.push(e);
            i = i + 1;
        }
        r
    }
}

/// A deletion request to be stored; the store assigns its id.
#[derive(Clone, Debug)]
pub struct NewDeletion {
    pub not_before: i64,
    pub status_id: u64,
    pub sponsor: String,
}

impl NewDeletion {
    /// The stored record that this request becomes under store id `id`,
    /// created at `now`.
    pub open spec fn row(self, id: u64, now: i64) -> Deletion {
        Deletion {
            id,
            status_id: self.status_id,
            created_at: now,
            not_before: self.not_before,
            executed_at: None,
            sponsor: self.sponsor,
        }
    }

    pub fn to_row(&self, id: u64, now: i64) -> (r: Deletion)
        ensures
            r == self.row(id, now),
    {
        Deletion {
            id,
            status_id: self.status_id,
            created_at: now,
            not_before: self.not_before,
            executed_at: None,
            sponsor: self.sponsor.clone(),
        }
    }

    /// A request to delete `status` from `not_before` on.
    pub fn from_status(status: &Status, not_before: i64) -> (r: NewDeletion)
        ensures
            r.not_before == not_before,
            r.status_id == status.id,
            r.sponsor@ == SPONSOR@,
    {
        NewDeletion { not_before, status_id: status.id, sponsor: String::from_str(SPONSOR) }
    }
}

/// A full account profile to be stored.
#[derive(Clone, Debug)]
pub struct NewTwitterUser {
    pub source_id: u64,
    pub screen_name: String,
    pub name: String,
    pub description: Option<String>,
    pub location: Option<String>,
    pub url: Option<String>,
    pub is_verified: bool,
    pub is_protected: bool,
    pub statuses_count: i32,
    pub following_count: i32,
    pub followers_count: i32,
    pub likes_count: i32,
    pub listed_count: i32,
    pub created_at: i64,
    pub fetched_at: i64,
    pub blocked_at: Option<i64>,
    pub muted_at: Option<i64>,
}

impl NewTwitterUser {
    /// The stored record that this profile becomes under store id `id`.
    pub open spec fn row(self, id: u64) -> TwitterUser {
        TwitterUser {
            id,
            source_id: self.source_id,
            placeholder: false,
            screen_name: self.screen_name,
            name: self.name,
            description: self.description,
            location: self.location,
            url: self.url,
            is_verified: self.is_verified,
            is_protected: self.is_protected,
            statuses_count: self.statuses_count,
            following_count: self.following_count,
            followers_count: self.followers_count,
            likes_count: self.likes_count,
            listed_count: self.listed_count,
            created_at: self.created_at,
            fetched_at: self.fetched_at,
            blocked_at: self.blocked_at,
            muted_at: self.muted_at,
            missing: false,
        }
    }

    pub fn to_row(&self, id: u64) -> (r: TwitterUser)
        ensures
            r == self.row(id),
    {
        TwitterUser {
            id,
            source_id: self.source_id,
            placeholder: false,
            screen_name: self.screen_name.clone(),
            name: self.name.clone(),
            description: duplicate_text(&self.description),
            location: duplicate_text(&self.location),
            url: duplicate_text(&self.url),
            is_verified: self.is_verified,
            is_protected: self.is_protected,
            statuses_count: self.statuses_count,
            following_count: self.following_count,
            followers_count: self.followers_count,
            likes_count: self.likes_count,
            listed_count: self.listed_count,
            created_at: self.created_at,
            fetched_at: self.fetched_at,
            blocked_at: self.blocked_at,
            muted_at: self.muted_at,
            missing: false,
        }
    }

    /// `self` is the profile of `u` as fetched at `now`, with no moderation
    /// marks.
    pub open spec fn describes_user(self, u: RemoteUser, now: i64) -> bool {
        &&& self.source_id == u.id
        &&& self.screen_name == u.screen_name
        &&& self.name == u.name
        &&& self.description == u.description
        &&& self.location == u.location
        &&& self.url == u.url
        &&& self.is_verified == u.verified
        &&& self.is_protected == u.protected
        &&& self.statuses_count == u.statuses_count
        &&& self.following_count == u.friends_count
        &&& self.followers_count == u.followers_count
        &&& self.likes_count == u.favourites_count
        &&& self.listed_count == u.listed_count
        &&& self.created_at == u.created_at
        &&& self.fetched_at == now
        &&& self.blocked_at is None
        &&& self.muted_at is None
    }

    pub fn from_user(u: &RemoteUser, now: i64) -> (r: NewTwitterUser)
        ensures
            r.describes_user(*u, now),
    {
        NewTwitterUser {
            source_id: u.id,
            screen_name: u.screen_name.clone(),
            name: u.name.clone(),
            description: duplicate_text(&u.description),
            location: duplicate_text(&u.location),
            url: duplicate_text(&u.url),
            is_verified: u.verified,
            is_protected: u.protected,
            statuses_count: u.statuses_count,
            following_count: u.friends_count,
            followers_count: u.followers_count,
            likes_count: u.favourites_count,
            listed_count: u.listed_count,
            created_at: u.created_at,
            fetched_at: now,
            blocked_at: None,
            muted_at: None,
        }
    }
}

/// An account known only by its id (from a block list), to be hydrated later.
#[derive(Clone, Debug)]
pub struct NewTwitterUserID {
    pub source_id: u64,
    pub screen_name: String,
    pub name: String,
    pub created_at: i64,
    pub fetched_at: i64,
}

impl NewTwitterUserID {
    pub fn new(source_id: u64, now: i64) -> (r: NewTwitterUserID)
        ensures
            r.source_id == source_id,
            r.screen_name@.len() == 0,
            r.name@.len() == 0,
            r.created_at == now,
            r.fetched_at == now,
    {
        NewTwitterUserID {
            source_id,
            screen_name: String::new(),
            name: String::new(),
            created_at: now,
            fetched_at: now,
        }
    }

    /// The stored placeholder record under store id `id`.
    pub open spec fn row(self, id: u64) -> TwitterUser {
        TwitterUser {
            id,
            source_id: self.source_id,
            placeholder: true,
            screen_name: self.screen_name,
            name: self.name,
            description: None,
            location: None,
            url: None,
            is_verified: false,
            is_protected: false,
            statuses_count: 0,
            following_count: 0,
            followers_count: 0,
            likes_count: 0,
            listed_count: 0,
            created_at: self.created_at,
            fetched_at: self.fetched_at,
            blocked_at: None,
            muted_at: None,
            missing: false,
        }
    }

    pub fn to_row(&self, id: u64) -> (r: TwitterUser)
        ensures
            r == self.row(id),
    {
        TwitterUser {
            id,
            source_id: self.source_id,
            placeholder: true,
            screen_name: self.screen_name.clone(),
            name: self.name.clone(),
            description: None,
            location: None,
            url: None,
            is_verified: false,
            is_protected: false,
            statuses_count: 0,
            following_count: 0,
            followers_count: 0,
            likes_count: 0,
            listed_count: 0,
            created_at: self.created_at,
            fetched_at: self.fetched_at,
            blocked_at: None,
            muted_at: None,
            missing: false,
        }
    }
}

} // verus!
