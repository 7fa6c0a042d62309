use omelette::deletions::{
    classify_failure, delete_outcome, delete_request, due_deletions, plan_step, read_answer, settle, Answer,
    DeleteError, RemoteDelete, RemoteFailure, Step,
};
use omelette::models::{Authorship, Deletion, Status};
use omelette::records::RecordStore;
use omelette::sources::{Handler, Sources, Twitter, TwitterArchive};
use omelette::types::{ActionMode, Source};

fn stored(id: u64, sid: u64) -> Status {
    Status {
        id,
        text: "bye".to_string(),
        author: Authorship::By { user_id: 7, name: "Me".to_string(), screen_name: "me".to_string() },
        posted_at: 0,
        fetched_at: 0,
        fetched_via: None,
        deleted_at: None,
        is_repost: false,
        reposted_at: None,
        is_marked: false,
        marked_at: None,
        source: Source::Twitter,
        source_id: sid,
        source_app: String::new(),
        in_reply_to_status: None,
        in_reply_to_user: None,
        quoting_status: None,
        public: true,
    }
}

fn request(id: u64, status_id: u64, not_before: i64) -> Deletion {
    Deletion { id, status_id, created_at: 0, not_before, executed_at: None, sponsor: "omelette".to_string() }
}

fn one_request_store() -> RecordStore {
    let mut store = RecordStore::new();
    store.statuses.push(stored(1, 100));
    store.deletions.push(request(2, 1, 50));
    store.next_id = 3;
    store
}

#[test]
fn already_done_settles_request_and_status() {
    let mut store = one_request_store();
    let outcome = delete_outcome(Err(RemoteFailure::Api { codes: vec![144] }));
    assert!(matches!(outcome, Err(DeleteError::AlreadyDone)));
    assert!(!settle(&mut store, 0, &outcome, 60));
    assert_eq!(store.deletions[0].executed_at, Some(60));
    assert_eq!(store.statuses[0].deleted_at, Some(60));
}

#[test]
fn transient_failure_leaves_request_pending() {
    let mut store = one_request_store();
    let outcome = delete_outcome(Err(RemoteFailure::Transport));
    assert!(!settle(&mut store, 0, &outcome, 60));
    assert_eq!(store.deletions[0].executed_at, None);
    assert_eq!(store.statuses[0].deleted_at, None);
    assert_eq!(due_deletions(&store, 70), vec![0]);
}

#[test]
fn success_settles_request() {
    let mut store = one_request_store();
    assert!(settle(&mut store, 0, &Ok(()), 61));
    assert_eq!(store.deletions[0].executed_at, Some(61));
    assert_eq!(store.statuses[0].deleted_at, Some(61));
    assert!(due_deletions(&store, 70).is_empty());
}

#[test]
fn wrong_source_and_unimplemented_stay_pending() {
    let mut store = one_request_store();
    assert!(!settle(&mut store, 0, &Err(DeleteError::WrongSource), 60));
    assert!(!settle(&mut store, 0, &Err(DeleteError::Unimplemented), 60));
    assert_eq!(store.deletions[0].executed_at, None);
}

#[test]
fn failures_are_classified() {
    assert!(matches!(classify_failure(RemoteFailure::Api { codes: vec![88, 34] }), DeleteError::AlreadyDone));
    assert!(matches!(classify_failure(RemoteFailure::Api { codes: vec![88] }), DeleteError::Remote(_)));
    assert!(matches!(classify_failure(RemoteFailure::Transport), DeleteError::Remote(_)));
    assert!(matches!(delete_outcome(Ok(())), Ok(())));
}

#[test]
fn due_requests_come_oldest_first() {
    let mut store = RecordStore::new();
    store.statuses.push(stored(1, 100));
    store.deletions.push(request(5, 1, 300));
    store.deletions.push(request(4, 1, 100));
    store.deletions.push(request(3, 1, 300));
    store.deletions.push(request(6, 1, 900));
    let mut done = request(7, 1, 10);
    done.executed_at = Some(11);
    store.deletions.push(done);
    store.deletions.push(request(8, 42, 10));
    store.next_id = 9;
    assert_eq!(due_deletions(&store, 500), vec![1, 2, 0]);
    assert_eq!(due_deletions(&store, 0), Vec::<usize>::new());
}

#[test]
fn delete_request_is_repost_aware() {
    let s = stored(1, 100);
    assert_eq!(delete_request(&s).unwrap(), RemoteDelete::Delete(100));
    let mut rt = stored(2, 101);
    rt.is_repost = true;
    assert_eq!(delete_request(&rt).unwrap(), RemoteDelete::Unrepost(101));
    let mut gone = stored(3, 102);
    gone.deleted_at = Some(1);
    assert!(matches!(delete_request(&gone), Err(DeleteError::AlreadyDone)));
    let mut other = stored(4, 103);
    other.source = Source::Mastodon;
    assert!(matches!(delete_request(&other), Err(DeleteError::WrongSource)));
}

#[test]
fn steps_follow_mode() {
    assert_eq!(plan_step(ActionMode::Auto, true), Step::Act);
    assert_eq!(plan_step(ActionMode::DryRun, true), Step::Report);
    assert_eq!(plan_step(ActionMode::Interactive, true), Step::Ask);
    assert_eq!(plan_step(ActionMode::Auto, false), Step::Skip);
    assert_eq!(ActionMode::default(), ActionMode::Auto);
}

#[test]
fn operator_answers() {
    assert_eq!(read_answer("delete\n"), Answer::Delete);
    assert_eq!(read_answer("  d "), Answer::Delete);
    assert_eq!(read_answer("show\n"), Answer::Show);
    assert_eq!(read_answer("?"), Answer::Show);
    assert_eq!(read_answer("yes\n"), Answer::Skip);
    assert_eq!(read_answer(""), Answer::Skip);
    assert_eq!(read_answer("dd"), Answer::Skip);
}

#[test]
fn handlers_and_registry() {
    let tw = Twitter::load("12345").unwrap();
    assert_eq!(tw.id, 12345);
    assert!(Twitter::load("12a").is_err());
    assert!(Twitter::load("").is_err());
    assert!(Twitter::load("18446744073709551616").is_err());
    assert_eq!(Twitter::load("18446744073709551615").unwrap().id, u64::MAX);
    let archive = TwitterArchive::load(tw, "a.zip".to_string());
    assert_eq!(TwitterArchive::source(), Source::Twitter);
    let mut sources = Sources::new();
    assert!(sources.get(Source::Twitter).is_none());
    sources.insert(Handler::Twitter(tw));
    sources.insert(Handler::Archive(archive));
    assert_eq!(sources.handlers.len(), 1);
    let h = sources.get(Source::Twitter).unwrap();
    assert!(matches!(h.delete_request(&stored(1, 5)), Err(DeleteError::Unimplemented)));
    assert!(sources.get(Source::Mastodon).is_none());
}
