use omelette::hydrate::{
    hydrate_estimate, hydrate_status, hydrate_user, pause_before_next, reconcile_status, HydrateError, Lookup,
};
use omelette::inserts::{NewEntity, NewStatus};
use omelette::models::{Authorship, Status, TwitterUser};
use omelette::queries::{insert_block_ids, lookup_ids, slim_status_ids, slim_user_ids, user_lookup_ids};
use omelette::records::{RecordStore, StagedPost};
use omelette::remote::{RemoteAuthor, RemoteMedia, RemotePost, RemoteUser};
use omelette::types::{IntermediarySource, MediaType, Source};

fn placeholder(id: u64, sid: u64) -> Status {
    Status {
        id,
        text: "archived".to_string(),
        author: Authorship::Placeholder,
        posted_at: 0,
        fetched_at: 0,
        fetched_via: Some(IntermediarySource::TwitterArchive),
        deleted_at: None,
        is_repost: false,
        reposted_at: None,
        is_marked: false,
        marked_at: None,
        source: Source::Twitter,
        source_id: sid,
        source_app: String::new(),
        in_reply_to_status: None,
        in_reply_to_user: None,
        quoting_status: None,
        public: true,
    }
}

fn post(id: u64) -> RemotePost {
    RemotePost {
        id,
        text: format!("full {}", id),
        created_at: 77,
        user: Some(RemoteAuthor { id: 7, name: "Me".to_string(), screen_name: "me".to_string(), protected: false }),
        retweeted_status: None,
        favorited: Some(true),
        source_name: "Web".to_string(),
        source_url: "https://example.com".to_string(),
        in_reply_to_status_id: None,
        in_reply_to_user_id: None,
        quoted_status_id: None,
        media: vec![RemoteMedia {
            id: id * 10,
            media_type: MediaType::Photo,
            media_url_https: format!("https://img/{}.jpg", id),
            url: "https://t.co/p".to_string(),
            source_status_id: None,
            variants: vec![],
        }],
    }
}

fn staged(p: &RemotePost, now: i64) -> StagedPost {
    let mut status = NewStatus::from_post(p, now);
    status.fetched_via = Some(IntermediarySource::TwitterArchive);
    StagedPost { status, entities: NewEntity::from_extended(&p.media, now) }
}

#[test]
fn collapse_keeps_one_canonical_status() {
    let mut store = RecordStore::new();
    store.statuses.push(placeholder(1, 500));
    store.next_id = 2;
    let mut rt = post(500);
    rt.retweeted_status = Some(Box::new(post(400)));
    let found = Some(staged(&rt, 9));
    reconcile_status(&mut store, 0, &found, 9).unwrap();
    let with_b: Vec<&Status> = store.statuses.iter().filter(|s| s.source_id == 400).collect();
    assert_eq!(with_b.len(), 1);
    assert!(store.statuses.iter().all(|s| s.source_id != 500));
    assert_eq!(store.entities.len(), 1);
    assert_eq!(store.entities[0].status_id, with_b[0].id);
    assert_eq!(with_b[0].id, 2);
}

#[test]
fn collapse_onto_stored_canonical_status() {
    let mut store = RecordStore::new();
    store.statuses.push(placeholder(1, 400));
    store.statuses.push(placeholder(2, 500));
    store.next_id = 3;
    let mut rt = post(500);
    rt.retweeted_status = Some(Box::new(post(400)));
    reconcile_status(&mut store, 1, &Some(staged(&rt, 9)), 9).unwrap();
    assert_eq!(store.statuses.len(), 1);
    assert_eq!(store.statuses[0].source_id, 400);
    assert_eq!(store.entities[0].status_id, 1);
}

#[test]
fn same_identity_is_updated_in_place() {
    let mut store = RecordStore::new();
    store.statuses.push(placeholder(1, 600));
    store.next_id = 2;
    let lookup = vec![Lookup { source_id: 600, post: Some(post(600)) }];
    assert_eq!(hydrate_status(&mut store, 1, &lookup, 50), Ok(true));
    let s = &store.statuses[0];
    assert_eq!(s.id, 1);
    assert_eq!(s.text, "full 600");
    assert!(s.is_marked);
    assert_eq!(s.fetched_via, Some(IntermediarySource::TwitterArchive));
    assert!(matches!(s.author, Authorship::By { user_id: 7, .. }));
    assert_eq!(store.entities.len(), 1);
    assert_eq!(store.entities[0].status_id, 1);
    assert_eq!(store.entities[0].source_url, "https://img/600.jpg");
}

#[test]
fn post_gone_upstream_is_marked_deleted() {
    let mut store = RecordStore::new();
    store.statuses.push(placeholder(1, 600));
    store.next_id = 2;
    let lookup = vec![Lookup { source_id: 600, post: None }];
    assert_eq!(hydrate_status(&mut store, 1, &lookup, 50), Ok(true));
    assert_eq!(store.statuses[0].deleted_at, Some(50));
    assert!(matches!(store.statuses[0].author, Authorship::Unattributed));
    assert!(slim_status_ids(&store, Source::Twitter).is_empty());
}

#[test]
fn lookup_without_requested_id_is_fatal() {
    let mut store = RecordStore::new();
    store.statuses.push(placeholder(1, 600));
    store.next_id = 2;
    let lookup = vec![Lookup { source_id: 601, post: None }];
    assert_eq!(hydrate_status(&mut store, 1, &lookup, 50), Err(HydrateError::Mismatch(600)));
    assert_eq!(store.statuses[0].deleted_at, None);
    assert_eq!(hydrate_status(&mut store, 9, &lookup, 50), Ok(false));
}

#[test]
fn placeholder_queries() {
    let mut store = RecordStore::new();
    store.statuses.push(placeholder(1, 600));
    let mut full = placeholder(2, 601);
    full.author = Authorship::Unattributed;
    store.statuses.push(full);
    store.statuses.push(placeholder(3, 602));
    store.next_id = 4;
    assert_eq!(slim_status_ids(&store, Source::Twitter), vec![1, 3]);
    assert_eq!(slim_status_ids(&store, Source::Mastodon), Vec::<u64>::new());
    assert_eq!(lookup_ids(&store, &vec![3, 1]), vec![600, 602]);
}

fn remote_user(id: u64) -> RemoteUser {
    RemoteUser {
        id,
        screen_name: "someone".to_string(),
        name: "Some One".to_string(),
        description: Some("hi".to_string()),
        location: None,
        url: None,
        verified: false,
        protected: true,
        statuses_count: 10,
        friends_count: 11,
        followers_count: 12,
        favourites_count: 13,
        listed_count: 14,
        created_at: 99,
    }
}

#[test]
fn user_hydration_keeps_block_time() {
    let mut store = RecordStore::new();
    assert_eq!(insert_block_ids(&mut store, &vec![70, 71, 70], 5), Ok(2));
    assert_eq!(insert_block_ids(&mut store, &vec![71, 72], 6), Ok(1));
    assert_eq!(slim_user_ids(&store), vec![1, 2, 3]);
    assert_eq!(user_lookup_ids(&store, &vec![3, 1]), vec![70, 72]);
    store.users[0].blocked_at = Some(4);
    assert!(hydrate_user(&mut store, 1, &vec![remote_user(71), remote_user(70)], 8));
    let u: &TwitterUser = &store.users[0];
    assert!(!u.placeholder);
    assert_eq!(u.screen_name, "someone");
    assert_eq!(u.following_count, 11);
    assert_eq!(u.blocked_at, Some(4));
    assert_eq!(u.fetched_at, 8);
    assert!(hydrate_user(&mut store, 2, &vec![remote_user(70)], 9));
    assert!(store.users[1].missing);
    assert_eq!(store.users[1].fetched_at, 9);
    assert_eq!(slim_user_ids(&store), vec![3]);
    assert!(!hydrate_user(&mut store, 42, &vec![], 9));
}

#[test]
fn estimate_and_pause() {
    assert_eq!(hydrate_estimate(100_000), (1, 23));
    assert_eq!(hydrate_estimate(10), (0, 1));
    assert_eq!(hydrate_estimate(2_000), (0, 2));
    assert_eq!(pause_before_next(5000, 1200), 3800);
    assert_eq!(pause_before_next(5000, 7000), 0);
}

#[test]
fn collapse_carries_placeholder_entities() {
    let mut store = RecordStore::new();
    store.statuses.push(placeholder(1, 500));
    store.entities.push(omelette::models::Entity {
        id: 2,
        fetched_at: 0,
        status_id: 1,
        ordering: None,
        media_type: MediaType::Photo,
        source_id: 777,
        source_url: "https://img/old.jpg".to_string(),
        original_status_source_id: None,
        original_status_source_url: None,
        blob_hash: None,
    });
    store.next_id = 3;
    let mut rt = post(500);
    rt.retweeted_status = Some(Box::new(post(400)));
    reconcile_status(&mut store, 0, &Some(staged(&rt, 9)), 9).unwrap();
    assert_eq!(store.statuses.len(), 1);
    let survivor = store.statuses[0].id;
    assert_eq!(store.statuses[0].source_id, 400);
    assert_eq!(store.entities.len(), 2);
    assert!(store.entities.iter().all(|e| e.status_id == survivor));
}
