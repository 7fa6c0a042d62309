use crate::models::{Deletion, Status};
use crate::records::{RecordStore, StoreView};
use crate::text::chars_of;
use crate::types::{ActionMode, Source};
use vstd::prelude::*;

verus! {

/// Platform error code for a post that does not exist (any more).
pub const NO_STATUS_FOUND: i32 = 144;

/// Platform error code for a page that does not exist.
pub const PAGE_NOT_FOUND: i32 = 34;

/// How a remote call failed.
#[derive(Clone, Debug)]
pub enum RemoteFailure {
    /// The platform answered with these error codes.
    Api { codes: Vec<i32> },
    /// No usable answer came back (network, rate limit, authentication).
    Transport,
}

/// Why a deletion attempt did not delete the post.
#[derive(Clone, Debug)]
pub enum DeleteError {
    /// The post (or repost) no longer exists: nothing is left to do.
    AlreadyDone,
    /// The post belongs to another source than the handler's.
    WrongSource,
    /// The handler cannot delete posts.
    Unimplemented,
    /// The platform refused or could not be reached; worth a retry.
    Remote(RemoteFailure),
}

impl DeleteError {
    /// Whether a later attempt cannot achieve anything more, so that the
    /// request is settled.
    pub open spec fn is_terminal(self) -> bool {
        self is AlreadyDone
    }
}

/// The remote operation that deletes a stored post.
#[derive(Clone, Copy, Debug, PartialEq, Eq, Structural)]
pub enum RemoteDelete {
    /// Delete the post with this native id.
    Delete(u64),
    /// Undo the repost of the post with this native id.
    Unrepost(u64),
}

/// The remote operation that deletes `status` on the platform, or why none
/// is needed or possible: a post already marked deleted is done, and only
/// the platform's own posts can be deleted there.
pub fn delete_request(status: &Status) -> (r: Result<RemoteDelete, DeleteError>)
    ensures
        status.deleted_at is Some ==> r matches Err(DeleteError::AlreadyDone),
        status.deleted_at is None && status.source != Source::Twitter ==> r matches Err(
            DeleteError::WrongSource,
        ),
        status.deleted_at is None && status.source == Source::Twitter ==> r == Ok::<
            RemoteDelete,
            DeleteError,
        >(
            if status.is_repost {
                RemoteDelete::Unrepost(status.source_id)
            } else {
                RemoteDelete::Delete(status.source_id)
            },
        ),
{
    if status.deleted_at.is_some() {
        return Err(DeleteError::AlreadyDone);
    }
    if status.source != Source::Twitter {
        return Err(DeleteError::WrongSource);
    }
    if status.is_repost {
        Ok(RemoteDelete::Unrepost(status.source_id))
    } else {
        Ok(RemoteDelete::Delete(status.source_id))
    }
}

/// The platform reported that the post does not exist.
pub open spec fn reports_missing(codes: Seq<i32>) -> bool {
    exists|i: int| 0 <= i < codes.len() && (codes[i] == NO_STATUS_FOUND || codes[i] == PAGE_NOT_FOUND)
}

/// The deletion error that a failed remote delete amounts to: a post that
/// does not exist is already deleted; anything else is worth a retry.
pub fn classify_failure(f: RemoteFailure) -> (r: DeleteError)
    ensures
        match f {
            RemoteFailure::Api { codes } => if reports_missing(codes@) {
                r is AlreadyDone
            } else {
                r == DeleteError::Remote(f)
            },
            RemoteFailure::Transport => r == DeleteError::Remote(f),
        },
{
    let missing = match &f {
        RemoteFailure::Api { codes } => {
            let mut found = false;
            let mut i: usize = 0;
            while i < codes.len()
                invariant
                    i <= codes@.len(),
                    found == exists|j: int|
                        0 <= j < i && (codes@[j] == NO_STATUS_FOUND || codes@[j] == PAGE_NOT_FOUND),
                decreases codes.len() - i,
            {
                if codes[i] == NO_STATUS_FOUND || codes[i] == PAGE_NOT_FOUND {
                    found = true;
                }
                i = i + 1;
            }
            found
        },
        RemoteFailure::Transport => false,
    };
    if missing {
        DeleteError::AlreadyDone
    } else {
        DeleteError::Remote(f)
    }
}

/// What the executor does with one due request.
#[derive(Clone, Copy, Debug, PartialEq, Eq, Structural)]
pub enum Step {
    /// No handler for the status's source is loaded: report and leave the
    /// request pending.
    Skip,
    /// Report what would be done, change nothing.
    Report,
    /// Ask the operator first.
    Ask,
    /// Delete now.
    Act,
}

pub fn plan_step(mode: ActionMode, has_handler: bool) -> (r: Step)
    ensures
        !has_handler ==> r == Step::Skip,
        has_handler ==> r == match mode {
            ActionMode::DryRun => Step::Report,
            ActionMode::Interactive => Step::Ask,
            ActionMode::Auto => Step::Act,
        },
{
    if !has_handler {
        return Step::Skip;
    }
    match mode {
        ActionMode::DryRun => Step::Report,
        ActionMode::Interactive => Step::Ask,
        ActionMode::Auto => Step::Act,
    }
}

/// An operator's answer to a deletion prompt.
#[derive(Clone, Copy, Debug, PartialEq, Eq, Structural)]
pub enum Answer {
    Delete,
    Show,
    Skip,
}

pub open spec fn is_blank(c: char) -> bool {
    c == ' ' || c == '\t' || c == '\n' || c == '\r'
}

/// `w` is `t` without blanks at either end.
pub open spec fn trims_to(t: Seq<char>, w: Seq<char>) -> bool {
    exists|a: int, b: int|
        0 <= a <= b <= t.len() && w == t.subrange(a, b) && (forall|k: int|
            0 <= k < a ==> is_blank(#[trigger] t[k])) && (forall|k: int|
            b <= k < t.len() ==> is_blank(#[trigger] t[k])) && (a < b ==> !is_blank(t[a]) && !is_blank(
            t[b - 1],
        ))
}

/// The answer that a typed line gives: `delete` or `d` deletes, `show` or
/// `?` asks to see the post; anything else skips.
pub open spec fn answer_of(w: Seq<char>) -> Answer {
    if (w.len() == 6 && w[0] == 'd' && w[1] == 'e' && w[2] == 'l' && w[3] == 'e' && w[4] == 't' && w[5]
        == 'e') || (w.len() == 1 && w[0] == 'd') {
        Answer::Delete
    } else if (w.len() == 4 && w[0] == 's' && w[1] == 'h' && w[2] == 'o' && w[3] == 'w') || (w.len()
        == 1 && w[0] == '?') {
        Answer::Show
    } else {
        Answer::Skip
    }
}

fn is_blank_char(c: char) -> (r: bool)
    ensures
        r == is_blank(c),
{
    c == ' ' || c == '\t' || c == '\n' || c == '\r'
}

/// The answer that `line` gives, blanks at either end ignored.
pub fn read_answer(line: &str) -> (r: Answer)
    ensures
        exists|w: Seq<char>| trims_to(line@, w) && r == answer_of(w),
{
    let t = chars_of(line);
    let mut a: usize = 0;
    while a < t.len() && is_blank_char(t[a])
        invariant
            a <= t@.len(),
            forall|k: int| 0 <= k < a ==> is_blank(#[trigger] t@[k]),
        decreases t.len() - a,
    {
        a = a + 1;
    }
    let mut b: usize = t.len();
    while b > a && is_blank_char(t[b - 1])
        invariant
            a <= b <= t@.len(),
            forall|k: int| b <= k < t@.len() ==> is_blank(#[trigger] t@[k]),
        decreases b,
    {
        b = b - 1;
    }
    let ghost w = t@.subrange(a as int, b as int);
    assert(trims_to(t@, w));
    let n = b - a;
    assert(w.len() == n);
    assert(forall|k: int| 0 <= k < n ==> #[trigger] w[k] == t@[a + k]);
    let r = if (n == 6 && t[a] == 'd' && t[a + 1] == 'e' && t[a + 2] == 'l' && t[a + 3] == 'e' && t[a
        + 4] == 't' && t[a + 5] == 'e') || (n == 1 && t[a] == 'd') {
        Answer::Delete
    } else if (n == 4 && t[a] == 's' && t[a + 1] == 'h' && t[a + 2] == 'o' && t[a + 3] == 'w') || (n
        == 1 && t[a] == '?') {
        Answer::Show
    } else {
        Answer::Skip
    };
    assert(r == answer_of(w));
    r
}

/// Deletion request `a` comes before `b`: it is due earlier, or at the same
/// time with a smaller id.
pub open spec fn precedes(a: Deletion, b: Deletion) -> bool {
    a.not_before < b.not_before || (a.not_before == b.not_before && a.id < b.id)
}

pub open spec fn has_status_id(ss: Seq<Status>, id: u64) -> bool {
    exists|i: int| 0 <= i < ss.len() && (#[trigger] ss[i]).id == id
}

/// The request at position `k` is pending, due at `now`, and its status is
/// stored.
pub open spec fn is_due(v: StoreView, k: int, now: i64) -> bool {
    &&& 0 <= k < v.deletions.len()
    &&& v.deletions[k].executed_at is None
    &&& v.deletions[k].not_before <= now
    &&& has_status_id(v.statuses, v.deletions[k].status_id)
}

/// `r` lists the positions of exactly the requests due at `now`, oldest due
/// first.
pub open spec fn lists_due(v: StoreView, now: i64, r: Seq<usize>) -> bool {
    &&& forall|j: int| 0 <= j < r.len() ==> is_due(v, #[trigger] r[j] as int, now)
    &&& forall|j: int, l: int|
        0 <= j < l < r.len() ==> precedes(v.deletions[#[trigger] r[j] as int], v.deletions[#[trigger] r[l] as int])
    &&& forall|k: int| is_due(v, k, now) ==> exists|j: int| 0 <= j < r.len() && r[j] as int == k
}

fn status_stored(store: &RecordStore, id: u64) -> (r: bool)
    ensures
        r == has_status_id(store.statuses@, id),
{
    match store.find_status(id) {
        Some(i) => {
            assert(store.statuses@[i as int].id == id);
            true
        },
        None => false,
    }
}

fn precedes_exec(a: &Deletion, b: &Deletion) -> (r: bool)
    ensures
        r == precedes(*a, *b),
{
    a.not_before < b.not_before || (a.not_before == b.not_before && a.id < b.id)
}

/// Positions of the requests due at `now`, oldest due first.
pub fn due_deletions(store: &RecordStore, now: i64) -> (r: Vec<usize>)
    requires
        store@.wf(),
    ensures
        lists_due(store@, now, r@),
{
    let ghost v = store@;
    let ghost ds = store.deletions@;
    let mut r: Vec<usize> = Vec::new();
    let mut k: usize = 0;
    while k < store.deletions.len()
        invariant
            v == store@,
            ds == store.deletions@,
            v.wf(),
            k <= ds.len(),
            forall|j: int| 0 <= j < r@.len() ==> #[trigger] r@[j] < k,
            forall|j: int| 0 <= j < r@.len() ==> is_due(v, #[trigger] r@[j] as int, now),
            forall|j: int, l: int|
                0 <= j < l < r@.len() ==> precedes(ds[#[trigger] r@[j] as int], ds[#[trigger] r@[l] as int]),
            forall|q: int| 0 <= q < k && is_due(v, q, now) ==> exists|j: int| 0 <= j < r@.len() && r@[j] as int == q,
        decreases ds.len() - k,
    {
        let d = &store.deletions[k];
        if d.executed_at.is_none() && d.not_before <= now && status_stored(store, d.status_id) {
            let mut pos: usize = 0;
            while pos < r.len() && !precedes_exec(d, &store.deletions[r[pos]])
                invariant
                    pos <= r@.len(),
                    k < ds.len(),
                    ds == store.deletions@,
                    d == store.deletions@[k as int],
                    forall|j: int| 0 <= j < r@.len() ==> #[trigger] r@[j] < k,
                    forall|j: int| 0 <= j < pos ==> !precedes(ds[k as int], ds[#[trigger] r@[j] as int]),
                decreases r.len() - pos,
            {
                pos = pos + 1;
            }
            let ghost old_r = r@;
            r.insert(pos, k);
            proof {
                assert forall|j: int| 0 <= j < pos implies precedes(ds[#[trigger] old_r[j] as int], ds[k as int]) by {
                    let q = old_r[j] as int;
                    assert(q != k as int);
                    assert(ds[q].id != ds[k as int].id);
                }
                assert forall|j: int, l: int| 0 <= j < l < r@.len() implies precedes(
                    ds[#[trigger] r@[j] as int],
                    ds[#[trigger] r@[l] as int],
                ) by {
                    if l < pos {
                        assert(r@[j] == old_r[j] && r@[l] == old_r[l]);
                    } else if l == pos {
                        assert(r@[j] == old_r[j]);
                    } else if j < pos {
                        assert(r@[j] == old_r[j] && r@[l] == old_r[l - 1]);
                        assert(precedes(ds[old_r[j] as int], ds[k as int]));
                        assert(precedes(ds[k as int], ds[old_r[pos as int] as int]));
                        if l - 1 > pos {
                            assert(precedes(ds[old_r[pos as int] as int], ds[old_r[l - 1] as int]));
                        }
                    } else if j == pos {
                        assert(r@[l] == old_r[l - 1]);
                        assert(precedes(ds[k as int], ds[old_r[pos as int] as int]));
                        if l - 1 > pos {
                            assert(precedes(ds[old_r[pos as int] as int], ds[old_r[l - 1] as int]));
                        }
                    } else {
                        assert(r@[j] == old_r[j - 1] && r@[l] == old_r[l - 1]);
                    }
                }
                assert forall|j: int| 0 <= j < r@.len() implies is_due(v, #[trigger] r@[j] as int, now) by {
                    if j < pos {
                        assert(r@[j] == old_r[j]);
                    } else if j > pos {
                        assert(r@[j] == old_r[j - 1]);
                    }
                }
                assert forall|q: int| 0 <= q < k + 1 && is_due(v, q, now) implies exists|j: int|
                    0 <= j < r@.len() && r@[j] as int == q by {
                    if q == k {
                        assert(r@[pos as int] as int == q);
                    } else {
                        let j = choose|j: int| 0 <= j < old_r.len() && old_r[j] as int == q;
                        if j < pos {
                            assert(r@[j] == old_r[j]);
                        } else {
                            assert(r@[j + 1] == old_r[j]);
                        }
                    }
                }
            }
        } else {
            proof {
                assert(!is_due(v, k as int, now));
            }
        }
        k = k + 1;
    }
    r
}

/// The statuses `ss`, with the one of store id `sid` marked deleted at
/// `now` unless it was marked already.
pub open spec fn mark_deleted(ss: Seq<Status>, sid: u64, now: i64) -> Seq<Status> {
    ss.map_values(
        |s: Status|
            if s.id == sid && s.deleted_at is None {
                Status { deleted_at: Some(now), ..s }
            } else {
                s
            },
    )
}

/// Whether an attempt with this outcome leaves nothing to retry.
pub open spec fn settles(o: Result<(), DeleteError>) -> bool {
    o is Ok || o matches Err(DeleteError::AlreadyDone)
}

/// The store after the attempt on request `k` ended with `o` at `now`: a
/// settled request is marked executed and its status deleted; otherwise
/// nothing changes and the request stays pending for the next run.
pub open spec fn settled(v: StoreView, k: int, o: Result<(), DeleteError>, now: i64) -> StoreView {
    if settles(o) {
        StoreView {
            statuses: mark_deleted(v.statuses, v.deletions[k].status_id, now),
            deletions: v.deletions.update(k, Deletion { executed_at: Some(now), ..v.deletions[k] }),
            ..v
        }
    } else {
        v
    }
}

/// The outcome of a delete whose remote operation answered `remote`.
pub fn delete_outcome(remote: Result<(), RemoteFailure>) -> (r: Result<(), DeleteError>)
    ensures
        match remote {
            Ok(()) => r is Ok,
            Err(f) => exists|e: DeleteError| r == Err::<(), DeleteError>(e) && match f {
                RemoteFailure::Api { codes } => if reports_missing(codes@) {
                    e is AlreadyDone
                } else {
                    e == DeleteError::Remote(f)
                },
                RemoteFailure::Transport => e == DeleteError::Remote(f),
            },
        },
{
    match remote {
        Ok(()) => Ok(()),
        Err(f) => Err(classify_failure(f)),
    }
}

/// Records the outcome `o` of the attempt on the pending request at
/// position `k`. Returns whether the post was deleted by this attempt.
pub fn settle(store: &mut RecordStore, k: usize, o: &Result<(), DeleteError>, now: i64) -> (deleted:
    bool)
    requires
        old(store)@.wf(),
        k < old(store)@.deletions.len(),
        old(store)@.deletions[k as int].executed_at is None,
    ensures
        final(store)@.wf(),
        final(store)@ == settled(old(store)@, k as int, *o, now),
        deleted == o is Ok,
{
    let done = match o {
        Ok(()) => true,
        Err(DeleteError::AlreadyDone) => true,
        Err(_) => false,
    };
    if done {
        let sid = store.deletions[k].status_id;
        let ghost target = mark_deleted(old(store)@.statuses, sid, now);
        let mut i: usize = 0;
        while i < store.statuses.len()
            invariant
                i <= store.statuses@.len(),
                store.statuses@.len() == old(store)@.statuses.len(),
                target == mark_deleted(old(store)@.statuses, sid, now),
                forall|j: int| 0 <= j < i ==> #[trigger] store.statuses@[j] == target[j],
                forall|j: int| i <= j < store.statuses@.len() ==> #[trigger] store.statuses@[j] == old(store)@.statuses[j],
                store.deletions@ == old(store)@.deletions,
                store.entities@ == old(store)@.entities,
                store.users@ == old(store)@.users,
                store.next_id == old(store).next_id,
                k < store.deletions@.len(),
            decreases store.statuses.len() - i,
        {
            if store.statuses[i].id == sid && store.statuses[i].deleted_at.is_none() {
                store.statuses[i].deleted_at = Some(now);
            }
            i = i + 1;
        }
        store.deletions[k].executed_at = Some(now);
        proof {
            assert(store.statuses@ =~= target);
            let v = store@;
            let w = old(store)@;
            assert forall|a: int, b: int|
                0 <= a < v.statuses.len() && 0 <= b < v.statuses.len() && a != b implies {
                    &&& (#[trigger] v.statuses[a]).id != (#[trigger] v.statuses[b]).id
                    &&& !(v.statuses[a].source == v.statuses[b].source && v.statuses[a].source_id
                        == v.statuses[b].source_id)
                } by {
                assert(w.statuses[a].id == v.statuses[a].id && w.statuses[b].id == v.statuses[b].id);
            }
            assert forall|a: int| 0 <= a < v.statuses.len() implies (#[trigger] v.statuses[a]).id < v.next_id by {
                assert(w.statuses[a].id == v.statuses[a].id);
            }
            assert forall|a: int, b: int|
                0 <= a < v.deletions.len() && 0 <= b < v.deletions.len() && a != b implies (#[trigger] v.deletions[a]).id
                != (#[trigger] v.deletions[b]).id by {
                assert(w.deletions[a].id == v.deletions[a].id && w.deletions[b].id == v.deletions[b].id);
            }
            assert forall|a: int| 0 <= a < v.deletions.len() implies (#[trigger] v.deletions[a]).id < v.next_id by {
                assert(w.deletions[a].id == v.deletions[a].id);
            }
            assert(store.deletions@ =~= old(store)@.deletions.update(
                k as int,
                Deletion { executed_at: Some(now), ..old(store)@.deletions[k as int] },
            ));
        }
    }
    o.is_ok()
}

} // verus!
