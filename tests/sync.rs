use omelette::inserts::NewStatus;
use omelette::models::{Authorship, Status};
use omelette::records::RecordStore;
use omelette::remote::{RemoteAuthor, RemoteMedia, RemotePost, VideoVariant};
use omelette::sync::{latest_2_ids, sync_pages, SyncRun, MAX_HISTORY};
use omelette::types::{MediaType, Source};

fn stored(id: u64, sid: u64) -> Status {
    Status {
        id,
        text: format!("post {}", sid),
        author: Authorship::By { user_id: 7, name: "Me".to_string(), screen_name: "me".to_string() },
        posted_at: 0,
        fetched_at: 0,
        fetched_via: None,
        deleted_at: None,
        is_repost: false,
        reposted_at: None,
        is_marked: false,
        marked_at: None,
        source: Source::Twitter,
        source_id: sid,
        source_app: String::new(),
        in_reply_to_status: None,
        in_reply_to_user: None,
        quoting_status: None,
        public: true,
    }
}

fn store_with(sids: &[u64]) -> RecordStore {
    let mut store = RecordStore::new();
    for (k, sid) in sids.iter().enumerate() {
        store.statuses.push(stored(k as u64 + 1, *sid));
    }
    store.next_id = sids.len() as u64 + 1;
    store
}

fn post(id: u64) -> RemotePost {
    RemotePost {
        id,
        text: format!("post {}", id),
        created_at: id as i64,
        user: Some(RemoteAuthor { id: 7, name: "Me".to_string(), screen_name: "me".to_string(), protected: false }),
        retweeted_status: None,
        favorited: None,
        source_name: "Web".to_string(),
        source_url: "https://example.com".to_string(),
        in_reply_to_status_id: None,
        in_reply_to_user_id: None,
        quoted_status_id: None,
        media: vec![],
    }
}

fn sids(store: &RecordStore) -> Vec<u64> {
    store.statuses.iter().map(|s| s.source_id).collect()
}

#[test]
fn sync_inserts_only_new_head_post() {
    let mut store = store_with(&[100, 101, 102]);
    let pages = vec![vec![post(103), post(102)], vec![post(101), post(100)]];
    let report = sync_pages(&mut store, Source::Twitter, pages, 5000).unwrap();
    assert_eq!(report.inserted, 1);
    assert_eq!(report.fetched, 2);
    assert!(report.as_expected());
    assert_eq!(sids(&store), vec![100, 101, 102, 103]);
    assert_eq!(store.statuses[3].id, 4);
    assert_eq!(store.statuses[3].fetched_at, 5000);
}

#[test]
fn sync_again_without_new_posts_inserts_nothing() {
    let mut store = store_with(&[100, 101, 102]);
    let pages = vec![vec![post(103), post(102)], vec![post(101), post(100)]];
    sync_pages(&mut store, Source::Twitter, pages, 5000).unwrap();
    let again = vec![vec![post(103), post(102)], vec![post(101), post(100)]];
    let report = sync_pages(&mut store, Source::Twitter, again, 6000).unwrap();
    assert_eq!(report.inserted, 0);
    assert_eq!(store.statuses.len(), 4);
}

#[test]
fn anchors_compare_ids_as_numbers() {
    let mut store = store_with(&[9, 100, 10]);
    let mut repost = stored(4, 500);
    repost.is_repost = true;
    store.statuses.push(repost);
    let mut gone = stored(5, 400);
    gone.deleted_at = Some(1);
    store.statuses.push(gone);
    store.next_id = 6;
    assert_eq!(latest_2_ids(&store, Source::Twitter), (Some(10), Some(100)));
    assert_eq!(latest_2_ids(&store, Source::Mastodon), (None, None));
}

#[test]
fn run_on_empty_store_reads_until_an_empty_page() {
    let mut store = RecordStore::new();
    let mut run = SyncRun::start(&store, Source::Twitter);
    assert_eq!(run.latest, 0);
    assert_eq!(run.cursor, None);
    assert!(run.take_page(vec![post(2), post(1)]));
    assert!(!run.take_page(vec![]));
    let report = run.finish(&mut store, 10).unwrap();
    assert_eq!(report.inserted, 2);
    assert_eq!(sids(&store), vec![1, 2]);
}

#[test]
fn single_stored_post_is_both_anchors() {
    let store = store_with(&[42]);
    let run = SyncRun::start(&store, Source::Twitter);
    assert_eq!(run.latest, 42);
    assert_eq!(run.cursor, Some(42));
}

#[test]
fn run_stops_at_history_cap() {
    let store = store_with(&[1, 2]);
    let mut run = SyncRun::start(&store, Source::Twitter);
    let page: Vec<RemotePost> = (0..MAX_HISTORY as u64).map(|k| post(10_000 - k)).collect();
    assert!(!run.take_page(page));
    assert!(run.done);
}

#[test]
fn repost_is_stored_under_the_original_id_with_its_media() {
    let mut store = store_with(&[100, 101]);
    let mut original = post(50);
    original.user = Some(RemoteAuthor { id: 9, name: "Other".to_string(), screen_name: "other".to_string(), protected: true });
    let mut rt = post(102);
    rt.retweeted_status = Some(Box::new(original));
    rt.media = vec![RemoteMedia {
        id: 900,
        media_type: MediaType::Video,
        media_url_https: "https://img/poster.jpg".to_string(),
        url: "https://t.co/x".to_string(),
        source_status_id: Some(50),
        variants: vec![
            VideoVariant { bitrate: Some(320), url: "https://v/low.mp4".to_string() },
            VideoVariant { bitrate: Some(2176), url: "https://v/high.mp4".to_string() },
            VideoVariant { bitrate: None, url: "https://v/list.m3u8".to_string() },
        ],
    }];
    let pages = vec![vec![rt, post(101)]];
    let report = sync_pages(&mut store, Source::Twitter, pages, 7).unwrap();
    assert_eq!(report.inserted, 1);
    let s = &store.statuses[2];
    assert_eq!(s.source_id, 50);
    assert!(s.is_repost);
    assert_eq!(s.reposted_at, Some(102));
    assert!(!s.public);
    assert_eq!(store.entities.len(), 1);
    assert_eq!(store.entities[0].status_id, s.id);
    assert_eq!(store.entities[0].source_url, "https://v/high.mp4");
    assert_eq!(store.entities[0].ordering, Some(0));
}

#[test]
fn row_from_post_formats_source_app() {
    let p = post(5);
    let row = NewStatus::from_post(&p, 11);
    assert_eq!(row.source_app, "Web <https://example.com>");
    assert_eq!(row.source_id, 5);
    assert_eq!(row.fetched_at, 11);
    assert!(row.public);
    assert!(!row.is_repost);
}

#[test]
fn latest_deleted_upstream_is_tolerated() {
    let mut store = store_with(&[100, 101, 102]);
    let pages = vec![vec![post(104), post(103), post(101)], vec![]];
    let report = sync_pages(&mut store, Source::Twitter, pages, 1).unwrap();
    assert_eq!(report.fetched, 3);
    assert_eq!(report.inserted, 2);
    assert!(report.as_expected());
    assert_eq!(sids(&store), vec![100, 101, 102, 103, 104]);
}

#[test]
fn exhausted_ids_store_nothing() {
    let mut store = store_with(&[100]);
    store.next_id = u64::MAX - 1;
    let pages = vec![vec![post(102), post(101)], vec![]];
    let r = sync_pages(&mut store, Source::Twitter, pages, 1);
    assert_eq!(r, Err(omelette::records::StoreError::IdsExhausted));
    let report = omelette::sync::SyncReport { fetched: 3, inserted: 0 };
    assert!(!report.as_expected());
    assert_eq!(store.statuses.len(), 1);
}
