use crate::delay::{parse_delay, trigger_delay, MAX_DELAY_SECS};
use crate::inserts::{NewDeletion, SPONSOR};
use crate::models::{Entity, Status};
use crate::records::{key_index, status_key_at, RecordStore, StoreError, StoreView};
use crate::text::{has_trigger, has_trigger_hashtag};
use vstd::prelude::*;

verus! {

/// Some entity of the status with store id `status_id` has no local copy of
/// its media yet.
pub open spec fn has_thin_media(es: Seq<Entity>, status_id: u64) -> bool {
    exists|k: int| 0 <= k < es.len() && (#[trigger] es[k]).status_id == status_id && es[k].blob_hash is None
}

/// Outcome of one step up a reply chain.
#[derive(Debug)]
pub enum Threading {
    /// The chain ends here: no parent link, or no such parent stored (not
    /// deleted, by the same author).
    Stop,
    /// The parent's media is not all kept locally: the whole thread must be
    /// left alone.
    Abort,
    /// The parent, which continues the chain.
    Parent(Status),
}

/// The step up from `s` in the reply chain of author `uid`.
pub open spec fn parent_link(v: StoreView, uid: u64, s: Status) -> Threading {
    match s.in_reply_to_status {
        None => Threading::Stop,
        Some(pid) => match key_index(v.statuses, s.source, pid) {
            None => Threading::Stop,
            Some(i) => {
                let p = v.statuses[i];
                if p.deleted_at is Some || p.author.user() != Some(uid) {
                    Threading::Stop
                } else if has_thin_media(v.entities, p.id) {
                    Threading::Abort
                } else {
                    Threading::Parent(p)
                }
            },
        },
    }
}

/// The ancestors of `s` in its author's reply chain, nearest first, taking
/// at most `fuel` steps; `None` when the chain reaches a post whose media is
/// not kept locally.
pub open spec fn thread_of(v: StoreView, uid: u64, s: Status, fuel: nat) -> Option<Seq<Status>>
    decreases fuel,
{
    if fuel == 0 {
        Some(Seq::empty())
    } else {
        match parent_link(v, uid, s) {
            Threading::Stop => Some(Seq::empty()),
            Threading::Abort => None,
            Threading::Parent(p) => match thread_of(v, uid, p, (fuel - 1) as nat) {
                None => None,
                Some(rest) => Some(seq![p] + rest),
            },
        }
    }
}

/// `s` asks to be deleted: it is stored, not deleted, written by `uid`,
/// carries the trigger hashtag, and its media is kept locally.
pub open spec fn is_trigger(v: StoreView, uid: u64, s: Status) -> bool {
    &&& s.deleted_at is None
    &&& s.author.user() == Some(uid)
    &&& has_trigger_hashtag(s.text@)
    &&& !has_thin_media(v.entities, s.id)
}

/// The (status id, not-before time) requests for the thread of trigger `s`:
/// `s` and its ancestors, all due at the same time; none when the walk
/// aborts. A chain can be no longer than the store, so the walk takes at
/// most that many steps.
pub open spec fn thread_requests(v: StoreView, uid: u64, s: Status, now: i64) -> Seq<(u64, i64)> {
    match thread_of(v, uid, s, v.statuses.len()) {
        None => Seq::empty(),
        Some(anc) => (seq![s] + anc).map_values(
            |x: Status| (x.id, (now + trigger_delay(s.text@).0) as i64),
        ),
    }
}

/// The status with store id `sid` has a pending deletion request.
pub open spec fn has_pending(v: StoreView, sid: u64) -> bool {
    exists|k: int|
        0 <= k < v.deletions.len() && (#[trigger] v.deletions[k]).status_id == sid && v.deletions[k].executed_at is None
}

/// Some request of `acc` is for status id `sid`.
pub open spec fn requested(acc: Seq<(u64, i64)>, sid: u64) -> bool {
    exists|k: int| 0 <= k < acc.len() && (#[trigger] acc[k]).0 == sid
}

/// `acc` followed by the requests of `q` whose status has neither a
/// pending request in the store nor one earlier in the list: at most one
/// request per post.
pub open spec fn add_requests(v: StoreView, acc: Seq<(u64, i64)>, q: Seq<(u64, i64)>) -> Seq<(u64, i64)>
    decreases q.len(),
{
    if q.len() == 0 {
        acc
    } else {
        let a = add_requests(v, acc, q.drop_last());
        let x = q.last();
        if has_pending(v, x.0) || requested(a, x.0) {
            a
        } else {
            a.push(x)
        }
    }
}

/// The requests for the triggers among the first `n` stored statuses, in
/// store order.
pub open spec fn scan_requests(v: StoreView, uid: u64, now: i64, n: int) -> Seq<(u64, i64)>
    decreases n,
{
    if n <= 0 {
        Seq::empty()
    } else if is_trigger(v, uid, v.statuses[n - 1]) {
        add_requests(v, scan_requests(v, uid, now, n - 1), thread_requests(v, uid, v.statuses[n - 1], now))
    } else {
        scan_requests(v, uid, now, n - 1)
    }
}

/// `r` are the deletion requests that `q` describes.
pub open spec fn requests_match(r: Seq<NewDeletion>, q: Seq<(u64, i64)>) -> bool {
    &&& r.len() == q.len()
    &&& forall|k: int|
        0 <= k < r.len() ==> (#[trigger] r[k]).status_id == q[k].0 && r[k].not_before == q[k].1
            && r[k].sponsor@ == SPONSOR@
}

fn thin_media(store: &RecordStore, status_id: u64) -> (r: bool)
    ensures
        r == has_thin_media(store.entities@, status_id),
{
    let mut k: usize = 0;
    while k < store.entities.len()
        invariant
            k <= store.entities@.len(),
            forall|j: int|
                0 <= j < k ==> !((#[trigger] store.entities@[j]).status_id == status_id
                    && store.entities@[j].blob_hash is None),
        decreases store.entities.len() - k,
    {
        if store.entities[k].status_id == status_id && store.entities[k].blob_hash.is_none() {
            return true;
        }
        k = k + 1;
    }
    false
}

fn pending_request(store: &RecordStore, sid: u64) -> (r: bool)
    ensures
        r == has_pending(store@, sid),
{
    let mut k: usize = 0;
    while k < store.deletions.len()
        invariant
            k <= store.deletions@.len(),
            forall|j: int|
                0 <= j < k ==> !((#[trigger] store.deletions@[j]).status_id == sid
                    && store.deletions@[j].executed_at is None),
        decreases store.deletions.len() - k,
    {
        if store.deletions[k].status_id == sid && store.deletions[k].executed_at.is_none() {
            assert(store@.deletions[k as int] == store.deletions@[k as int]);
            return true;
        }
        k = k + 1;
    }
    false
}

fn already_requested(r: &Vec<NewDeletion>, sid: u64) -> (found: bool)
    ensures
        found == exists|j: int| 0 <= j < r@.len() && (#[trigger] r@[j]).status_id == sid,
{
    let mut k: usize = 0;
    while k < r.len()
        invariant
            k <= r@.len(),
            forall|j: int| 0 <= j < k ==> (#[trigger] r@[j]).status_id != sid,
        decreases r.len() - k,
    {
        if r[k].status_id == sid {
            return true;
        }
        k = k + 1;
    }
    false
}

/// The step up from `s` in the reply chain of author `uid`.
pub fn own_parent(store: &RecordStore, uid: u64, s: &Status) -> (r: Threading)
    requires
        store@.wf(),
    ensures
        r == parent_link(store@, uid, *s),
{
    let pid = match s.in_reply_to_status {
        None => {
            return Threading::Stop;
        },
        Some(pid) => pid,
    };
    let i = match store.find_status_by_key(s.source, pid) {
        None => {
            return Threading::Stop;
        },
        Some(i) => i,
    };
    proof {
        let ss = store.statuses@;
        let j = choose|j: int| status_key_at(ss, j, s.source, pid);
        assert(status_key_at(ss, i as int, s.source, pid));
        if j != i as int {
            assert(ss[j].source == ss[i as int].source && ss[j].source_id == ss[i as int].source_id);
        }
        assert(key_index(ss, s.source, pid) == Some(i as int));
    }
    let p = &store.statuses[i];
    if p.deleted_at.is_some() || !p.author.is_authored_by(uid) {
        return Threading::Stop;
    }
    if thin_media(store, p.id) {
        return Threading::Abort;
    }
    Threading::Parent(p.duplicate())
}

/// The ancestors of `s` in its author's reply chain, nearest first, or
/// `None` when the chain reaches a post whose media is not kept locally.
pub fn thread(store: &RecordStore, uid: u64, s: &Status) -> (r: Option<Vec<Status>>)
    requires
        store@.wf(),
    ensures
        match r {
            Some(a) => thread_of(store@, uid, *s, store@.statuses.len()) == Some(a@),
            None => thread_of(store@, uid, *s, store@.statuses.len()) is None,
        },
{
    let ghost whole = thread_of(store@, uid, *s, store@.statuses.len());
    let mut acc: Vec<Status> = Vec::new();
    let mut cur = s.duplicate();
    let mut fuel: usize = store.statuses.len();
    loop
        invariant
            store@.wf(),
            whole == thread_of(store@, uid, *s, store@.statuses.len()),
            whole == match thread_of(store@, uid, cur, fuel as nat) {
                None => None,
                Some(rest) => Some(acc@ + rest),
            },
        decreases fuel,
    {
        if fuel == 0 {
            assert(thread_of(store@, uid, cur, 0) == Some(Seq::<Status>::empty()));
            assert(acc@ + Seq::<Status>::empty() =~= acc@);
            return Some(acc);
        }
        match own_parent(store, uid, &cur) {
            Threading::Stop => {
                assert(thread_of(store@, uid, cur, fuel as nat) == Some(Seq::<Status>::empty()));
                assert(acc@ + Seq::<Status>::empty() =~= acc@);
                return Some(acc);
            },
            Threading::Abort => {
                return None;
            },
            Threading::Parent(p) => {
                proof {
                    match thread_of(store@, uid, p, (fuel - 1) as nat) {
                        None => {},
                        Some(rest) => {
                            assert(acc@ + (seq![p] + rest) =~= acc@.push(p) + rest);
                        },
                    }
                }
                acc.push(p.duplicate());
                cur = p;
                fuel = fuel - 1;
            },
        }
    }
}

/// Deletion requests for every trigger in the store, in store order: for
/// each, the trigger and the ancestors of its reply chain, due after the
/// delay that its text asks for. A thread that reaches a post whose media is
/// not kept locally yields no request at all.
pub fn scan_for_triggers(store: &RecordStore, uid: u64, now: i64) -> (r: Vec<NewDeletion>)
    requires
        store@.wf(),
        now <= i64::MAX - MAX_DELAY_SECS,
    ensures
        requests_match(r@, scan_requests(store@, uid, now, store@.statuses.len() as int)),
{
    let mut r: Vec<NewDeletion> = Vec::new();
    let mut i: usize = 0;
    while i < store.statuses.len()
        invariant
            store@.wf(),
            i <= store@.statuses.len(),
            now <= i64::MAX - MAX_DELAY_SECS,
            requests_match(r@, scan_requests(store@, uid, now, i as int)),
        decreases store.statuses.len() - i,
    {
        let s = &store.statuses[i];
        let ghost prev = scan_requests(store@, uid, now, i as int);
        let trig = s.deleted_at.is_none() && s.author.is_authored_by(uid) && has_trigger(
            s.text.as_str(),
        ) && !thin_media(store, s.id);
        proof {
            assert(is_trigger(store@, uid, store@.statuses[i as int]) == trig);
        }
        if trig {
            let delay = parse_delay(s.text.as_str());
            let not_before = now + delay.seconds as i64;
            match thread(store, uid, s) {
                None => {
                    assert(scan_requests(store@, uid, now, i + 1) =~= prev);
                },
                Some(anc) => {
                    let ghost q = thread_requests(store@, uid, *s, now);
                    let ghost full = seq![*s] + anc@;
                    let mut k: usize = 0;
                    loop
                        invariant_except_break
                            requests_match(r@, add_requests(store@, prev, q.take(k as int))),
                        invariant
                            k <= anc@.len(),
                            full == seq![*s] + anc@,
                            q == full.map_values(|x: Status| (x.id, not_before)),
                        ensures
                            requests_match(r@, add_requests(store@, prev, q.take(anc@.len() as int + 1))),
                        decreases anc.len() - k,
                    {
                        let x: &Status = if k == 0 {
                            s
                        } else {
                            &anc[k - 1]
                        };
                        assert(*x == full[k as int]);
                        let ghost a = add_requests(store@, prev, q.take(k as int));
                        assert(q.take(k + 1).drop_last() =~= q.take(k as int));
                        assert(q.take(k + 1).last() == q[k as int]);
                        assert(q[k as int] == (x.id, not_before));
                        let ghost na = add_requests(store@, prev, q.take(k + 1));
                        assert(na == if has_pending(store@, x.id) || requested(a, x.id) {
                            a
                        } else {
                            a.push(q[k as int])
                        });
                        let pending = pending_request(store, x.id);
                        let again = already_requested(&r, x.id);
                        let dup = pending || again;
                        proof {
                            if again {
                                let j = choose|j: int| 0 <= j < r@.len() && (#[trigger] r@[j]).status_id == x.id;
                                assert(a[j].0 == x.id);
                            }
                            if requested(a, x.id) {
                                let j = choose|j: int| 0 <= j < a.len() && (#[trigger] a[j]).0 == x.id;
                                assert(r@[j].status_id == x.id);
                            }
                        }
                        if !dup {
                            let ghost before = r@;
                            r.push(NewDeletion::from_status(x, not_before));
                            proof {
                                let na = a.push(q[k as int]);
                                assert forall|j: int| 0 <= j < r@.len() implies (#[trigger] r@[j]).status_id
                                    == na[j].0 && r@[j].not_before == na[j].1 && r@[j].sponsor@ == SPONSOR@ by {
                                    if j < before.len() {
                                        assert(r@[j] == before[j]);
                                    }
                                }
                            }
                        }
                        assert(requests_match(r@, na));
                        if k == anc.len() {
                            assert(requests_match(
                                r@,
                                add_requests(store@, prev, q.take(anc@.len() as int + 1)),
                            ));
                            break;
                        }
                        k = k + 1;
                    }
                    assert(q.take(anc@.len() as int + 1) =~= q);
                    assert(scan_requests(store@, uid, now, i + 1) == add_requests(store@, prev, q));
                },
            }
        } else {
            assert(scan_requests(store@, uid, now, i + 1) =~= prev);
        }
        i = i + 1;
    }
    r
}

/// Scans the store for triggers written by `uid` and stores one deletion
/// request per post of each thread that can be deleted safely (none for a
/// post that has a pending request already), all at once once the scan is
/// complete. Returns how many requests were stored.
pub fn schedule_deletions(store: &mut RecordStore, uid: u64, now: i64) -> (r: Result<usize, StoreError>)
    requires
        old(store)@.wf(),
        now <= i64::MAX - MAX_DELAY_SECS,
    ensures
        final(store)@.wf(),
        exists|ds: Seq<NewDeletion>|
            {
                &&& #[trigger] requests_match(
                    ds,
                    scan_requests(old(store)@, uid, now, old(store)@.statuses.len() as int),
                )
                &&& match r {
                    Ok(n) => final(store)@ == old(store)@.add_deletions(ds, now) && n == ds.len(),
                    Err(e) => e == StoreError::IdsExhausted && final(store)@ == old(store)@,
                }
                &&& (r is Err <==> old(store).next_id + ds.len() > u64::MAX)
            },
{
    let ds = scan_for_triggers(store, uid, now);
    let r = store.insert_deletions(&ds, now);
    assert(requests_match(ds@, scan_requests(old(store)@, uid, now, old(store)@.statuses.len() as int)));
    r
}

} // verus!
