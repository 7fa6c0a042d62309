use omelette::archive::{app_of_link, slim_load, ArchiveError, ArchiveRecord, ImportError};
use omelette::inserts::{NewDeletion, NewEntity, NewTwitterUserID, SPONSOR};
use omelette::models::{Authorship, Entity, Status};
use omelette::queries::{pending_media, write_hash};
use omelette::records::RecordStore;
use omelette::remote::{RemoteMedia, VideoVariant};
use omelette::types::{MediaType, Source};
use omelette::{slim, SLIM_MARK};

fn record(id: &str, reply: &str, time: &str) -> ArchiveRecord {
    ArchiveRecord {
        tweet_id: id.to_string(),
        in_reply_to_status_id: reply.to_string(),
        timestamp: time.to_string(),
        source: "<a href=\"http://twitter.com\" rel=\"nofollow\">Twitter Web Client</a>".to_string(),
        text: "hello".to_string(),
    }
}

#[test]
fn archive_rows_become_placeholders() {
    let mut store = RecordStore::new();
    let rows = vec![
        record("200", "", "2018-03-01 12:00:00 +0000"),
        record("201", "200", "2018-03-01 13:00:00 +0100"),
        record("200", "", "2018-03-01 12:00:00 +0000"),
    ];
    assert_eq!(slim_load(&mut store, &rows, 9), Ok(vec![1, 2]));
    let s = &store.statuses[1];
    assert!(matches!(s.author, Authorship::Placeholder));
    assert_eq!(s.source_id, 201);
    assert_eq!(s.in_reply_to_status, Some(200));
    assert_eq!(s.posted_at, 1519905600);
    assert_eq!(store.statuses[0].posted_at, 1519905600);
    assert_eq!(store.statuses[0].in_reply_to_status, None);
    assert_eq!(s.source_app, "Twitter Web Client <http://twitter.com>");
    assert_eq!(s.fetched_at, 9);
}

#[test]
fn bad_archive_rows_are_refused() {
    let mut store = RecordStore::new();
    let rows = vec![record("200", "", "2018-03-01 12:00:00 +0000"), record("x", "", "2018-03-01 12:00:00 +0000")];
    assert_eq!(slim_load(&mut store, &rows, 9), Err(ImportError::Row(1, ArchiveError::BadId)));
    assert!(store.statuses.is_empty());
    let rows = vec![record("200", "-", "2018-03-01 12:00:00 +0000")];
    assert_eq!(slim_load(&mut store, &rows, 9), Err(ImportError::Row(0, ArchiveError::BadReplyId)));
    let rows = vec![record("200", "", "yesterday")];
    assert_eq!(slim_load(&mut store, &rows, 9), Err(ImportError::Row(0, ArchiveError::BadDate)));
}

#[test]
fn app_links() {
    assert_eq!(app_of_link("<a href=\"https://x.y\">App</a>"), "App <https://x.y>");
    assert_eq!(app_of_link("<a href=\"u\" a=\">\">N>M</a>"), "M <u>");
    assert_eq!(app_of_link("plain"), "");
    assert_eq!(app_of_link("<a href=\"\">App</a>"), "");
    assert_eq!(app_of_link("<a href=\"u\"></a>"), "");
}

fn entity(id: u64, status_id: u64, fetched_at: i64) -> Entity {
    Entity {
        id,
        fetched_at,
        status_id,
        ordering: None,
        media_type: MediaType::Photo,
        source_id: id + 1000,
        source_url: "u".to_string(),
        original_status_source_id: None,
        original_status_source_url: None,
        blob_hash: None,
    }
}

fn stored(id: u64, sid: u64) -> Status {
    Status {
        id,
        text: String::new(),
        author: Authorship::Unattributed,
        posted_at: 0,
        fetched_at: 0,
        fetched_via: None,
        deleted_at: None,
        is_repost: false,
        reposted_at: None,
        is_marked: false,
        marked_at: None,
        source: Source::Twitter,
        source_id: sid,
        source_app: String::new(),
        in_reply_to_status: None,
        in_reply_to_user: None,
        quoting_status: None,
        public: true,
    }
}

#[test]
fn media_to_fetch_and_recorded_hash() {
    let mut store = RecordStore::new();
    store.statuses.push(stored(1, 10));
    let mut gone = stored(2, 11);
    gone.deleted_at = Some(3);
    store.statuses.push(gone);
    store.entities.push(entity(3, 1, 30));
    store.entities.push(entity(4, 2, 5));
    store.entities.push(entity(5, 1, 10));
    store.entities.push(entity(6, 1, 10));
    store.next_id = 7;
    assert_eq!(pending_media(&store), vec![2, 3, 0]);
    write_hash(&mut store, 2, "hash".to_string());
    assert_eq!(store.entities[2].blob_hash, Some("hash".to_string()));
    assert_eq!(pending_media(&store), vec![3, 0]);
}

#[test]
fn media_urls_by_kind() {
    let gif = RemoteMedia {
        id: 1,
        media_type: MediaType::Gif,
        media_url_https: "https://img/thumb.jpg".to_string(),
        url: "https://t.co/g".to_string(),
        source_status_id: Some(77),
        variants: vec![
            VideoVariant { bitrate: None, url: "https://v/list.m3u8".to_string() },
            VideoVariant { bitrate: Some(0), url: "https://v/loop.mp4".to_string() },
        ],
    };
    let rows = NewEntity::from_extended(&vec![gif], 4);
    assert_eq!(rows[0].source_url, "https://v/loop.mp4");
    assert_eq!(rows[0].original_status_source_id, Some(77));
    assert_eq!(rows[0].original_status_source_url, Some("https://t.co/g".to_string()));
    let bare_video = RemoteMedia {
        id: 2,
        media_type: MediaType::Video,
        media_url_https: "https://img/poster.jpg".to_string(),
        url: "https://t.co/v".to_string(),
        source_status_id: None,
        variants: vec![],
    };
    let row = NewEntity::from_media(&bare_video, 4);
    assert_eq!(row.source_url, "https://img/poster.jpg");
    assert_eq!(row.ordering, None);
    assert_eq!(row.status_id, 0);
    assert_eq!(rows[0].ordering, Some(0));
}

#[test]
fn small_constructors() {
    assert_eq!(slim(), SLIM_MARK);
    let d = NewDeletion::from_status(&stored(5, 50), 99);
    assert_eq!(d.status_id, 5);
    assert_eq!(d.not_before, 99);
    assert_eq!(d.sponsor, SPONSOR);
    let u = NewTwitterUserID::new(44, 3);
    assert_eq!(u.source_id, 44);
    assert!(u.screen_name.is_empty());
}
