use crate::inserts::{NewEntity, NewStatus, NewTwitterUser};
use crate::models::{Authorship, Status, TwitterUser};
use crate::records::{
    retag,
    has_status, key_index, lemma_insert_tagged, status_key_at, tag_entities, RecordStore, StagedPost,
    StoreError, StoreView,
};
use crate::remote::{RemotePost, RemoteUser};
use crate::types::IntermediarySource;
use vstd::prelude::*;

verus! {

/// Posts looked up per remote call.
pub const BATCH_SIZE: usize = 100;

/// Least time between two lookups, in milliseconds.
pub const MIN_BATCH_INTERVAL_MS: u64 = 5000;

/// `s` after its post turned out to be gone upstream: deleted at `now`, and
/// no longer a placeholder, so that it is not looked up again.
pub open spec fn gone(s: Status, now: i64) -> Status {
    Status { deleted_at: Some(now), author: Authorship::Unattributed, ..s }
}

pub open spec fn same_identity_as(p: NewStatus, s: Status) -> bool {
    p.source == s.source && p.source_id == s.source_id
}

/// The store after reconciling the placeholder at position `i` with what the
/// lookup found for it (`None`: the post cannot be found upstream).
///
/// A found post with the placeholder's identity replaces it in place and
/// brings its entities. A found post with another identity (a placeholder
/// made for a repost, whose canonical form is the original post) is stored
/// unless already stored, its entities are tied to that canonical status,
/// the placeholder's own entities are carried over to that status, and the
/// placeholder is deleted.
pub open spec fn reconcile(v: StoreView, i: int, found: Option<StagedPost>, now: i64) -> StoreView {
    let s = v.statuses[i];
    match found {
        None => StoreView { statuses: v.statuses.update(i, gone(s, now)), ..v },
        Some(p) => if same_identity_as(p.status, s) {
            StoreView { statuses: v.statuses.update(i, p.status.row(s.id)), ..v }.insert_entities(
                tag_entities(p.entities@, s.id),
            )
        } else {
            let w = match key_index(v.statuses, p.status.source, p.status.source_id) {
                Some(c) => v,
                None => StoreView {
                    statuses: v.statuses.push(p.status.row(v.next_id)),
                    next_id: (v.next_id + 1) as u64,
                    ..v
                },
            };
            let cid = match key_index(v.statuses, p.status.source, p.status.source_id) {
                Some(c) => v.statuses[c].id,
                None => v.next_id,
            };
            let w2 = w.insert_entities(tag_entities(p.entities@, cid));
            let w3 = StoreView { entities: retag(w2.entities, s.id, cid), ..w2 };
            StoreView { statuses: w3.statuses.remove(i), ..w3 }
        },
    }
}

/// After a collapse: no status has identity `a`, no entity is tied to `a`'s
/// id, exactly one status has the identity of `p`, and every entity from
/// position `from` on is tied to it.
pub open spec fn collapsed(v: StoreView, a: Status, p: NewStatus, from: int) -> bool {
    &&& !has_status(v.statuses, a.source, a.source_id)
    &&& forall|k: int| 0 <= k < v.entities.len() ==> (#[trigger] v.entities[k]).status_id != a.id
    &&& exists|c: int|
        {
            &&& status_key_at(v.statuses, c, p.source, p.source_id)
            &&& forall|d: int| status_key_at(v.statuses, d, p.source, p.source_id) ==> d == c
            &&& forall|k: int| from <= k < v.entities.len() ==> (#[trigger] v.entities[k]).status_id == v.statuses[c].id
        }
}

#[verifier::rlimit(40)]
fn collapse(store: &mut RecordStore, i: usize, p: &StagedPost)
    requires
        old(store)@.wf(),
        i < old(store)@.statuses.len(),
        !same_identity_as(p.status, old(store)@.statuses[i as int]),
        old(store).next_id + 1 + p.entities@.len() <= u64::MAX,
    ensures
        final(store)@.wf(),
        final(store)@ == reconcile(old(store)@, i as int, Some(*p), 0),
        collapsed(final(store)@, old(store)@.statuses[i as int], p.status, old(store)@.entities.len() as int),
{
    let ghost v = store@;
    let cid = match store.find_status_by_key(p.status.source, p.status.source_id) {
        Some(c) => {
            proof {
                let k = choose|k: int| status_key_at(v.statuses, k, p.status.source, p.status.source_id);
                if k != c as int {
                    assert(v.statuses[k].source == v.statuses[c as int].source);
                }
            }
            store.statuses[c].id
        },
        None => store.push_status(&p.status),
    };
    let ghost w = store@;
    store.insert_entities_for(&p.entities, cid);
    let ghost w2 = store@;
    proof {
        lemma_insert_tagged(w, p.entities@, cid);
    }
    let a_id = store.statuses[i].id;
    proof {
        let c = if has_status(v.statuses, p.status.source, p.status.source_id) {
            choose|k: int| status_key_at(v.statuses, k, p.status.source, p.status.source_id)
        } else {
            v.statuses.len() as int
        };
        assert(w.statuses[c].id == cid);
        assert(c != i as int);
        assert(w.statuses[i as int] == v.statuses[i as int]);
        assert(cid != a_id);
    }
    store.retag_entities(a_id, cid);
    store.remove_status(i);
    proof {
        let a = v.statuses[i as int];
        let ss = store@.statuses;
        let c = if has_status(v.statuses, p.status.source, p.status.source_id) {
            choose|k: int| status_key_at(v.statuses, k, p.status.source, p.status.source_id)
        } else {
            v.statuses.len() as int
        };
        assert(status_key_at(w.statuses, c, p.status.source, p.status.source_id));
        assert(w.statuses[c].id == cid);
        assert(c != i as int);
        let nc = if c < i { c } else { c - 1 };
        assert(ss[nc] == w2.statuses[c]);
        assert(status_key_at(ss, nc, p.status.source, p.status.source_id));
        assert forall|d: int| status_key_at(ss, d, p.status.source, p.status.source_id) implies d == nc by {
            if d != nc {
                assert(ss[d].source == ss[nc].source);
            }
        }
        if has_status(ss, a.source, a.source_id) {
            let d = choose|d: int| status_key_at(ss, d, a.source, a.source_id);
            let od = if d < i { d } else { d + 1 };
            assert(ss[d] == w2.statuses[od]);
            assert(od != i as int);
            assert(w.statuses[od].source == w.statuses[i as int].source);
        }
    }
}

/// Reconciles the placeholder at position `i` with the lookup's answer.
///
/// When the answer has another identity than the placeholder, afterwards
/// exactly one status has the answer's identity, none has the
/// placeholder's, and every entity added is tied to the surviving status.
pub fn reconcile_status(store: &mut RecordStore, i: usize, found: &Option<StagedPost>, now: i64) -> (r:
    Result<(), StoreError>)
    requires
        old(store)@.wf(),
        i < old(store)@.statuses.len(),
    ensures
        final(store)@.wf(),
        match r {
            Ok(()) => final(store)@ == reconcile(old(store)@, i as int, *found, now),
            Err(e) => e == StoreError::IdsExhausted && final(store)@ == old(store)@,
        },
        r is Err <==> (found is Some && old(store).next_id + 1 + found->0.entities@.len() > u64::MAX),
        match found {
            Some(p) => (r is Ok && !same_identity_as(p.status, old(store)@.statuses[i as int])) ==> collapsed(
                final(store)@,
                old(store)@.statuses[i as int],
                p.status,
                old(store)@.entities.len() as int,
            ),
            None => true,
        },
{
    let s_id = store.statuses[i].id;
    let s_source = store.statuses[i].source;
    let s_sid = store.statuses[i].source_id;
    match found {
        None => {
            let mut row = store.statuses[i].duplicate();
            row.deleted_at = Some(now);
            row.author = Authorship::Unattributed;
            store.replace_status(i, row);
            Ok(())
        },
        Some(p) => {
            if p.entities.len() as u64 >= u64::MAX - store.next_id {
                return Err(StoreError::IdsExhausted);
            }
            if p.status.source == s_source && p.status.source_id == s_sid {
                let row = p.status.to_row(s_id);
                store.replace_status(i, row);
                store.insert_entities_for(&p.entities, s_id);
                Ok(())
            } else {
                collapse(store, i, p);
                Ok(())
            }
        },
    }
}

/// What a batch lookup answered for one native id.
#[derive(Debug)]
pub struct Lookup {
    pub source_id: u64,
    /// `None` when the post cannot be found upstream.
    pub post: Option<RemotePost>,
}

/// Why hydrating a status failed.
#[derive(Clone, Copy, Debug, PartialEq, Eq, Structural)]
pub enum HydrateError {
    /// The lookup's answer holds nothing for this requested native id: the
    /// remote contract was broken, and the run must stop.
    Mismatch(u64),
    Store(StoreError),
}

/// `sp` is the full record of `post`, fetched at `now` on behalf of an
/// archive import, with its media.
pub open spec fn hydrates_post(sp: StagedPost, post: RemotePost, now: i64) -> bool {
    &&& (NewStatus { fetched_via: None, ..sp.status }).archives_post(post, now)
    &&& sp.status.fetched_via == Some(IntermediarySource::TwitterArchive)
    &&& NewEntity::archive_all(sp.entities@, post.media@, now)
}

/// `k` is the first lookup answer for native id `sid`.
pub open spec fn first_answer(l: Seq<Lookup>, sid: u64, k: int) -> bool {
    &&& 0 <= k < l.len()
    &&& l[k].source_id == sid
    &&& forall|j: int| 0 <= j < k ==> (#[trigger] l[j]).source_id != sid
}

fn find_answer(l: &Vec<Lookup>, sid: u64) -> (r: Option<usize>)
    ensures
        match r {
            Some(k) => first_answer(l@, sid, k as int),
            None => forall|j: int| 0 <= j < l@.len() ==> (#[trigger] l@[j]).source_id != sid,
        },
{
    let mut k: usize = 0;
    while k < l.len()
        invariant
            k <= l@.len(),
            forall|j: int| 0 <= j < k ==> (#[trigger] l@[j]).source_id != sid,
        decreases l.len() - k,
    {
        if l[k].source_id == sid {
            return Some(k);
        }
        k = k + 1;
    }
    None
}

/// Hydrating the status with store id `id` from answers `l` would need more
/// record ids than the store has left.
pub open spec fn hydration_overflows(v: StoreView, id: u64, l: Seq<Lookup>) -> bool {
    exists|i: int, k: int|
        {
            &&& 0 <= i < v.statuses.len()
            &&& (#[trigger] v.statuses[i]).id == id
            &&& #[trigger] first_answer(l, v.statuses[i].source_id, k)
            &&& l[k].post is Some
            &&& v.next_id + 1 + l[k].post->0.media@.len() > u64::MAX
        }
}

/// Hydrates the status with store id `id` from the batch lookup's answers.
/// Returns whether such a status was stored.
pub fn hydrate_status(store: &mut RecordStore, id: u64, lookup: &Vec<Lookup>, now: i64) -> (r: Result<
    bool,
    HydrateError,
>)
    requires
        old(store)@.wf(),
    ensures
        final(store)@.wf(),
        r == Ok::<bool, HydrateError>(false) <==> forall|j: int|
            0 <= j < old(store)@.statuses.len() ==> (#[trigger] old(store)@.statuses[j]).id != id,
        r is Err ==> final(store)@ == old(store)@,
        r == Ok::<bool, HydrateError>(false) ==> final(store)@ == old(store)@,
        (r matches Err(HydrateError::Store(_))) <==> hydration_overflows(old(store)@, id, lookup@),
        forall|sid: u64|
            r == Err::<bool, HydrateError>(HydrateError::Mismatch(sid)) <==> exists|i: int|
                0 <= i < old(store)@.statuses.len() && (#[trigger] old(store)@.statuses[i]).id == id
                    && old(store)@.statuses[i].source_id == sid && forall|j: int|
                    0 <= j < lookup@.len() ==> (#[trigger] lookup@[j]).source_id != sid,
        r == Ok::<bool, HydrateError>(true) ==> exists|i: int, k: int|
            {
                &&& 0 <= i < old(store)@.statuses.len()
                &&& (#[trigger] old(store)@.statuses[i]).id == id
                &&& #[trigger] first_answer(lookup@, old(store)@.statuses[i].source_id, k)
                &&& match lookup@[k].post {
                    None => final(store)@ == reconcile(old(store)@, i, None, now),
                    Some(post) => exists|sp: StagedPost|
                        #[trigger] hydrates_post(sp, post, now) && final(store)@ == reconcile(
                            old(store)@,
                            i,
                            Some(sp),
                            now,
                        ),
                }
            },
{
    let i = match store.find_status(id) {
        None => {
            return Ok(false);
        },
        Some(i) => i,
    };
    proof {
        assert forall|j: int| 0 <= j < store@.statuses.len() && (#[trigger] store@.statuses[j]).id == id implies j
            == i as int by {
            if j != i as int {
                assert(store@.statuses[j].id != store@.statuses[i as int].id);
            }
        }
    }
    let sid = store.statuses[i].source_id;
    let k = match find_answer(lookup, sid) {
        None => {
            proof {
                if hydration_overflows(old(store)@, id, lookup@) {
                    let (i2, k2) = choose|i2: int, k2: int|
                        {
                            &&& 0 <= i2 < old(store)@.statuses.len()
                            &&& (#[trigger] old(store)@.statuses[i2]).id == id
                            &&& #[trigger] first_answer(lookup@, old(store)@.statuses[i2].source_id, k2)
                            &&& lookup@[k2].post is Some
                            &&& old(store)@.next_id + 1 + lookup@[k2].post->0.media@.len() > u64::MAX
                        };
                    assert(i2 == i as int);
                    assert(lookup@[k2].source_id == sid);
                }
            }
            return Err(HydrateError::Mismatch(sid));
        },
        Some(k) => k,
    };
    proof {
        assert forall|i2: int, k2: int|
            0 <= i2 < old(store)@.statuses.len() && (#[trigger] old(store)@.statuses[i2]).id == id
                && #[trigger] first_answer(lookup@, old(store)@.statuses[i2].source_id, k2) implies i2 == i
            && k2 == k by {
            assert(i2 == i as int);
            if k2 < k {
                assert(lookup@[k2].source_id != sid);
            } else if k2 > k {
                assert(lookup@[k as int].source_id != sid);
            }
        }
    }
    let found = match &lookup[k].post {
        None => None,
        Some(post) => {
            let mut status = NewStatus::from_post(post, now);
            status.fetched_via = Some(IntermediarySource::TwitterArchive);
            let entities = NewEntity::from_extended(&post.media, now);
            let sp = StagedPost { status, entities };
            assert(hydrates_post(sp, *post, now));
            Some(sp)
        },
    };
    match reconcile_status(store, i, &found, now) {
        Ok(()) => {
            assert(first_answer(lookup@, old(store)@.statuses[i as int].source_id, k as int));
            Ok(true)
        },
        Err(e) => {
            assert(first_answer(lookup@, old(store)@.statuses[i as int].source_id, k as int));
            Err(HydrateError::Store(e))
        },
    }
}

/// `u` after a profile lookup that answered `f` at `now`: a found profile
/// replaces the cached one, keeping the locally recorded block and mute
/// times; an account not found is marked missing for good.
pub open spec fn user_hydrated(u: TwitterUser, f: Option<RemoteUser>, now: i64) -> TwitterUser {
    match f {
        None => TwitterUser { missing: true, fetched_at: now, ..u },
        Some(r) => TwitterUser {
            id: u.id,
            source_id: u.source_id,
            placeholder: false,
            screen_name: r.screen_name,
            name: r.name,
            description: r.description,
            location: r.location,
            url: r.url,
            is_verified: r.verified,
            is_protected: r.protected,
            statuses_count: r.statuses_count,
            following_count: r.friends_count,
            followers_count: r.followers_count,
            likes_count: r.favourites_count,
            listed_count: r.listed_count,
            created_at: r.created_at,
            fetched_at: now,
            blocked_at: u.blocked_at,
            muted_at: u.muted_at,
            missing: false,
        },
    }
}

/// The profile among `found` for native id `sid`, the first one if several.
pub open spec fn profile_for(found: Seq<RemoteUser>, sid: u64) -> Option<RemoteUser> {
    if exists|k: int| 0 <= k < found.len() && found[k].id == sid {
        let k = choose|k: int|
            0 <= k < found.len() && found[k].id == sid && forall|j: int|
                0 <= j < k ==> (#[trigger] found[j]).id != sid;
        Some(found[k])
    } else {
        None
    }
}

/// Hydrates the user with store id `id` from the profiles that a batch
/// lookup returned (accounts that were not found are absent). Returns
/// whether such a user was stored.
pub fn hydrate_user(store: &mut RecordStore, id: u64, found: &Vec<RemoteUser>, now: i64) -> (r: bool)
    requires
        old(store)@.wf(),
    ensures
        final(store)@.wf(),
        !r ==> final(store)@ == old(store)@,
        r <==> exists|i: int| 0 <= i < old(store)@.users.len() && (#[trigger] old(store)@.users[i]).id == id,
        forall|i: int|
            0 <= i < old(store)@.users.len() && (#[trigger] old(store)@.users[i]).id == id ==> final(store)@
                == (StoreView {
                users: old(store)@.users.update(
                    i,
                    user_hydrated(old(store)@.users[i], profile_for(found@, old(store)@.users[i].source_id), now),
                ),
                ..old(store)@
            }),
{
    let i = match store.find_user(id) {
        None => {
            return false;
        },
        Some(i) => i,
    };
    proof {
        assert forall|j: int| 0 <= j < store@.users.len() && (#[trigger] store@.users[j]).id == id implies j
            == i as int by {
            if j != i as int {
                assert(store@.users[j].id != store@.users[i as int].id);
            }
        }
    }
    let u = &store.users[i];
    let sid = u.source_id;
    let mut k: usize = 0;
    while k < found.len() && found[k].id != sid
        invariant
            k <= found@.len(),
            forall|j: int| 0 <= j < k ==> (#[trigger] found@[j]).id != sid,
        decreases found.len() - k,
    {
        k = k + 1;
    }
    let row = if k < found.len() {
        let mut n = NewTwitterUser::from_user(&found[k], now);
        n.blocked_at = u.blocked_at;
        n.muted_at = u.muted_at;
        let row = n.to_row(u.id);
        proof {
            let c = choose|c: int|
                0 <= c < found@.len() && found@[c].id == sid && forall|j: int|
                    0 <= j < c ==> (#[trigger] found@[j]).id != sid;
            if c < k {
                assert(found@[c].id != sid);
            } else if c > k {
                assert(found@[k as int].id != sid);
            }
            assert(profile_for(found@, sid) == Some(found@[k as int]));
        }
        row
    } else {
        let mut row = u.duplicate();
        row.missing = true;
        row.fetched_at = now;
        row
    };
    assert(row == user_hydrated(store@.users[i as int], profile_for(found@, sid), now));
    store.replace_user(i, row);
    true
}

/// Rough time that hydrating `n` records takes, as (hours, minutes), at one
/// batch of a hundred per five seconds; never less than a minute.
pub fn hydrate_estimate(n: u64) -> (r: (u64, u64))
    ensures
        ({
            let secs = n as int * 5 / 100;
            let rest = secs % 3600;
            let m = rest / 60;
            &&& r.0 == secs / 3600
            &&& r.1 == if rest % 60 > 30 {
                m + 1
            } else if m == 0 {
                1
            } else {
                m
            }
        }),
{
    let secs: u64 = (n as u128 * 5 / 100) as u64;
    let hours = secs / 3600;
    let rest = secs % 3600;
    let mut minutes = rest / 60;
    if rest % 60 > 30 {
        minutes = minutes + 1;
    } else if minutes == 0 {
        minutes = 1;
    }
    (hours, minutes)
}

/// How long to wait before the next lookup, in milliseconds, when the last
/// one started `elapsed_ms` ago: what is left of the least interval, and
/// never more.
pub fn pause_before_next(min_ms: u64, elapsed_ms: u64) -> (r: u64)
    ensures
        r == if elapsed_ms < min_ms {
            min_ms - elapsed_ms
        } else {
            0
        },
{
    if elapsed_ms < min_ms {
        min_ms - elapsed_ms
    } else {
        0
    }
}

} // verus!
