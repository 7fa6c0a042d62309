use omelette::cleanup::{schedule_deletions, scan_for_triggers, thread, Threading, own_parent};
use omelette::delay::{parse_delay, DelaySource};
use omelette::models::{Authorship, Entity, Status};
use omelette::records::RecordStore;
use omelette::text::has_trigger;
use omelette::types::{MediaType, Source};

const ME: u64 = 7;

fn stored(id: u64, sid: u64, text: &str, parent: Option<u64>) -> Status {
    Status {
        id,
        text: text.to_string(),
        author: Authorship::By { user_id: ME, name: "Me".to_string(), screen_name: "me".to_string() },
        posted_at: 0,
        fetched_at: 0,
        fetched_via: None,
        deleted_at: None,
        is_repost: false,
        reposted_at: None,
        is_marked: false,
        marked_at: None,
        source: Source::Twitter,
        source_id: sid,
        source_app: String::new(),
        in_reply_to_status: parent,
        in_reply_to_user: None,
        quoting_status: None,
        public: true,
    }
}

fn entity(id: u64, status_id: u64, sid: u64, hash: Option<&str>) -> Entity {
    Entity {
        id,
        fetched_at: 0,
        status_id,
        ordering: Some(0),
        media_type: MediaType::Photo,
        source_id: sid,
        source_url: "https://img/1.jpg".to_string(),
        original_status_source_id: None,
        original_status_source_url: None,
        blob_hash: hash.map(|h| h.to_string()),
    }
}

fn thread_store(p2_hash: Option<&str>) -> RecordStore {
    let mut store = RecordStore::new();
    store.statuses.push(stored(1, 1001, "first", None));
    store.statuses.push(stored(2, 1002, "second", Some(1001)));
    store.statuses.push(stored(3, 1003, "done here #cleanup", Some(1002)));
    store.entities.push(entity(4, 2, 9001, p2_hash));
    store.next_id = 5;
    store
}

#[test]
fn thin_ancestor_aborts_whole_thread() {
    let mut store = thread_store(None);
    let requests = scan_for_triggers(&store, ME, 1000);
    assert!(requests.is_empty());
    assert_eq!(schedule_deletions(&mut store, ME, 1000), Ok(0));
    assert!(store.deletions.is_empty());
}

#[test]
fn thread_is_scheduled_with_one_time() {
    let mut store = thread_store(Some("abc"));
    assert_eq!(schedule_deletions(&mut store, ME, 1000), Ok(3));
    let ids: Vec<u64> = store.deletions.iter().map(|d| d.status_id).collect();
    assert_eq!(ids, vec![3, 2, 1]);
    for d in &store.deletions {
        assert_eq!(d.not_before, 1900);
        assert_eq!(d.created_at, 1000);
        assert_eq!(d.executed_at, None);
        assert_eq!(d.sponsor, "omelette");
    }
    assert_eq!(store.next_id, 8);
}

#[test]
fn walk_stops_at_other_author_or_missing_parent() {
    let mut store = thread_store(Some("abc"));
    store.statuses[1].author = Authorship::By { user_id: 99, name: "X".to_string(), screen_name: "x".to_string() };
    let s3 = store.statuses[2].clone();
    assert!(matches!(own_parent(&store, ME, &s3), Threading::Stop));
    assert_eq!(thread(&store, ME, &s3).unwrap().len(), 0);
    let orphan = stored(9, 2000, "#cleanup", Some(5555));
    assert!(matches!(own_parent(&store, ME, &orphan), Threading::Stop));
}

#[test]
fn walk_reports_parent_and_abort() {
    let store = thread_store(None);
    let s3 = store.statuses[2].clone();
    assert!(matches!(own_parent(&store, ME, &s3), Threading::Abort));
    assert!(thread(&store, ME, &s3).is_none());
    let ok = thread_store(Some("h"));
    let s3 = ok.statuses[2].clone();
    match own_parent(&ok, ME, &s3) {
        Threading::Parent(p) => assert_eq!(p.source_id, 1002),
        _ => panic!("expected the parent"),
    }
}

#[test]
fn trigger_with_thin_media_of_its_own_is_left_alone() {
    let mut store = thread_store(Some("h"));
    store.entities.push(entity(5, 3, 9002, None));
    store.next_id = 6;
    assert!(scan_for_triggers(&store, ME, 0).is_empty());
}

#[test]
fn others_and_deleted_posts_do_not_trigger() {
    let mut store = RecordStore::new();
    let mut other = stored(1, 10, "#cleanup", None);
    other.author = Authorship::By { user_id: 8, name: "Y".to_string(), screen_name: "y".to_string() };
    store.statuses.push(other);
    let mut gone = stored(2, 11, "#cleanup", None);
    gone.deleted_at = Some(5);
    store.statuses.push(gone);
    let mut slim = stored(3, 12, "#cleanup", None);
    slim.author = Authorship::Placeholder;
    store.statuses.push(slim);
    store.next_id = 4;
    assert!(scan_for_triggers(&store, ME, 0).is_empty());
}

#[test]
fn delay_in_hours() {
    let d = parse_delay("bye #cleanup 2h");
    assert_eq!(d.seconds, 7200);
    assert_eq!(d.source, DelaySource::Given);
}

#[test]
fn bare_tag_waits_fifteen_minutes() {
    let d = parse_delay("bye #cleanup");
    assert_eq!(d.seconds, 900);
    assert_eq!(d.source, DelaySource::Default);
}

#[test]
fn unknown_unit_falls_back() {
    let d = parse_delay("#cleanup 99x");
    assert_eq!(d.seconds, 900);
    assert_eq!(d.source, DelaySource::Fallback);
}

#[test]
fn delay_units() {
    assert_eq!(parse_delay("#cleanup 10s").seconds, 10);
    assert_eq!(parse_delay("#cleanup 5m").seconds, 300);
    assert_eq!(parse_delay("#cleanup  3d later").seconds, 259200);
    assert_eq!(parse_delay("#cleanup 5").seconds, 300);
    assert_eq!(parse_delay("#cleanup 5").source, DelaySource::Given);
    assert_eq!(parse_delay("#cleanup\t1h").seconds, 3600);
    assert_eq!(parse_delay("#cleanup2h").seconds, 900);
}

#[test]
fn amount_too_large_falls_back() {
    let d = parse_delay("#cleanup 4294967296s");
    assert_eq!(d.seconds, 900);
    assert_eq!(d.source, DelaySource::Fallback);
    assert_eq!(parse_delay("#cleanup 4294967295s").seconds, 4294967295);
}

#[test]
fn scheduled_time_uses_the_delay() {
    let mut store = RecordStore::new();
    store.statuses.push(stored(1, 10, "#cleanup 2h", None));
    store.next_id = 2;
    let requests = scan_for_triggers(&store, ME, 100);
    assert_eq!(requests.len(), 1);
    assert_eq!(requests[0].not_before, 7300);
    assert_eq!(requests[0].status_id, 1);
}

#[test]
fn hashtag_must_be_a_true_tag() {
    assert!(has_trigger("all done #cleanup"));
    assert!(!has_trigger("see https://example.com/page#cleanup"));
    assert!(!has_trigger("#cleanups are fun"));
    assert!(!has_trigger("cleanup"));
    assert!(!has_trigger(""));
}

#[test]
fn rescan_adds_no_second_request() {
    let mut store = thread_store(Some("abc"));
    assert_eq!(schedule_deletions(&mut store, ME, 1000), Ok(3));
    assert_eq!(schedule_deletions(&mut store, ME, 2000), Ok(0));
    assert_eq!(store.deletions.len(), 3);
}

#[test]
fn chained_triggers_request_each_post_once() {
    let mut store = thread_store(Some("abc"));
    store.statuses.push(stored(5, 1004, "and this #cleanup 1m", Some(1003)));
    store.next_id = 6;
    let requests = scan_for_triggers(&store, ME, 0);
    let ids: Vec<u64> = requests.iter().map(|d| d.status_id).collect();
    assert_eq!(ids, vec![3, 2, 1, 5]);
    assert_eq!(requests[3].not_before, 60);
}
