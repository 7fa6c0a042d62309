use crate::inserts::NewTwitterUserID;
use crate::models::{Entity, Status, TwitterUser};
use crate::records::{has_user, user_key_at, RecordStore, StoreError, StoreView};
use crate::types::Source;
use vstd::prelude::*;

verus! {

/// The store ids of the placeholder statuses of `src`, in store order.
pub open spec fn placeholder_ids(ss: Seq<Status>, src: Source) -> Seq<u64>
    decreases ss.len(),
{
    if ss.len() == 0 {
        Seq::empty()
    } else {
        let s = ss.last();
        placeholder_ids(ss.drop_last(), src) + if s.source == src && s.author.is_placeholder() {
            seq![s.id]
        } else {
            Seq::empty()
        }
    }
}

/// Store ids of the statuses of `src` that still wait for hydration.
pub fn slim_status_ids(store: &RecordStore, src: Source) -> (r: Vec<u64>)
    ensures
        r@ == placeholder_ids(store.statuses@, src),
{
    let mut r: Vec<u64> = Vec::new();
    let mut i: usize = 0;
    while i < store.statuses.len()
        invariant
            i <= store.statuses@.len(),
            r@ == placeholder_ids(store.statuses@.take(i as int), src),
        decreases store.statuses.len() - i,
    {
        let s = &store.statuses[i];
        assert(store.statuses@.take(i + 1).drop_last() =~= store.statuses@.take(i as int));
        let slim = match s.author {
            crate::models::Authorship::Placeholder => true,
            _ => false,
        };
        if s.source == src && slim {
            r.push(s.id);
        }
        i = i + 1;
        assert(r@ =~= placeholder_ids(store.statuses@.take(i as int), src));
    }
    assert(store.statuses@.take(i as int) =~= store.statuses@);
    r
}

/// The store ids of the users known only by id, not found missing yet, in
/// store order.
pub open spec fn placeholder_user_ids(us: Seq<TwitterUser>) -> Seq<u64>
    decreases us.len(),
{
    if us.len() == 0 {
        Seq::empty()
    } else {
        let u = us.last();
        placeholder_user_ids(us.drop_last()) + if u.placeholder && !u.missing {
            seq![u.id]
        } else {
            Seq::empty()
        }
    }
}

/// Store ids of the users that still wait for hydration.
pub fn slim_user_ids(store: &RecordStore) -> (r: Vec<u64>)
    ensures
        r@ == placeholder_user_ids(store.users@),
{
    let mut r: Vec<u64> = Vec::new();
    let mut i: usize = 0;
    while i < store.users.len()
        invariant
            i <= store.users@.len(),
            r@ == placeholder_user_ids(store.users@.take(i as int)),
        decreases store.users.len() - i,
    {
        let u = &store.users[i];
        assert(store.users@.take(i + 1).drop_last() =~= store.users@.take(i as int));
        if u.placeholder && !u.missing {
            r.push(u.id);
        }
        i = i + 1;
        assert(r@ =~= placeholder_user_ids(store.users@.take(i as int)));
    }
    assert(store.users@.take(i as int) =~= store.users@);
    r
}

/// The native ids of the statuses whose store ids are in `ids`, in store
/// order.
pub open spec fn native_ids(ss: Seq<Status>, ids: Seq<u64>) -> Seq<u64>
    decreases ss.len(),
{
    if ss.len() == 0 {
        Seq::empty()
    } else {
        let s = ss.last();
        native_ids(ss.drop_last(), ids) + if ids.contains(s.id) {
            seq![s.source_id]
        } else {
            Seq::empty()
        }
    }
}

fn contains_id(ids: &Vec<u64>, id: u64) -> (r: bool)
    ensures
        r == ids@.contains(id),
{
    let mut k: usize = 0;
    while k < ids.len()
        invariant
            k <= ids@.len(),
            forall|j: int| 0 <= j < k ==> ids@[j] != id,
        decreases ids.len() - k,
    {
        if ids[k] == id {
            assert(ids@[k as int] == id);
            return true;
        }
        k = k + 1;
    }
    false
}

/// Native ids to look up for the statuses with store ids `ids`.
pub fn lookup_ids(store: &RecordStore, ids: &Vec<u64>) -> (r: Vec<u64>)
    ensures
        r@ == native_ids(store.statuses@, ids@),
{
    let mut r: Vec<u64> = Vec::new();
    let mut i: usize = 0;
    while i < store.statuses.len()
        invariant
            i <= store.statuses@.len(),
            r@ == native_ids(store.statuses@.take(i as int), ids@),
        decreases store.statuses.len() - i,
    {
        let s = &store.statuses[i];
        assert(store.statuses@.take(i + 1).drop_last() =~= store.statuses@.take(i as int));
        if contains_id(ids, s.id) {
            r.push(s.source_id);
        }
        i = i + 1;
        assert(r@ =~= native_ids(store.statuses@.take(i as int), ids@));
    }
    assert(store.statuses@.take(i as int) =~= store.statuses@);
    r
}

/// The native ids of the users whose store ids are in `ids`, in store order.
pub open spec fn user_native_ids(us: Seq<TwitterUser>, ids: Seq<u64>) -> Seq<u64>
    decreases us.len(),
{
    if us.len() == 0 {
        Seq::empty()
    } else {
        let u = us.last();
        user_native_ids(us.drop_last(), ids) + if ids.contains(u.id) {
            seq![u.source_id]
        } else {
            Seq::empty()
        }
    }
}

/// Native ids to look up for the users with store ids `ids`.
pub fn user_lookup_ids(store: &RecordStore, ids: &Vec<u64>) -> (r: Vec<u64>)
    ensures
        r@ == user_native_ids(store.users@, ids@),
{
    let mut r: Vec<u64> = Vec::new();
    let mut i: usize = 0;
    while i < store.users.len()
        invariant
            i <= store.users@.len(),
            r@ == user_native_ids(store.users@.take(i as int), ids@),
        decreases store.users.len() - i,
    {
        let u = &store.users[i];
        assert(store.users@.take(i + 1).drop_last() =~= store.users@.take(i as int));
        if contains_id(ids, u.id) {
            r.push(u.source_id);
        }
        i = i + 1;
        assert(r@ =~= user_native_ids(store.users@.take(i as int), ids@));
    }
    assert(store.users@.take(i as int) =~= store.users@);
    r
}

/// Block-list ids stored per batch.
pub const BLOCK_BATCH: usize = 4000;

/// Least time between two block-list batches, in milliseconds.
pub const BLOCK_BATCH_INTERVAL_MS: u64 = 60000;

/// The entity at position `k` still needs its media fetched: it has no
/// local copy, and its status is stored and not deleted.
pub open spec fn needs_media(v: StoreView, k: int) -> bool {
    &&& 0 <= k < v.entities.len()
    &&& v.entities[k].blob_hash is None
    &&& exists|i: int|
        0 <= i < v.statuses.len() && (#[trigger] v.statuses[i]).id == v.entities[k].status_id
            && v.statuses[i].deleted_at is None
}

/// Positions of the entities whose media still needs fetching, ordered by
/// fetch time (ties in store order).
pub open spec fn lists_pending_media(v: StoreView, r: Seq<usize>) -> bool {
    &&& forall|j: int| 0 <= j < r.len() ==> needs_media(v, #[trigger] r[j] as int)
    &&& forall|j: int, l: int|
        0 <= j < l < r.len() ==> {
            let a = v.entities[#[trigger] r[j] as int];
            let b = v.entities[#[trigger] r[l] as int];
            a.fetched_at < b.fetched_at || (a.fetched_at == b.fetched_at && r[j] < r[l])
        }
    &&& forall|k: int| needs_media(v, k) ==> exists|j: int| 0 <= j < r.len() && r[j] as int == k
}

fn live_status(store: &RecordStore, id: u64) -> (r: bool)
    ensures
        r == exists|i: int|
            0 <= i < store.statuses@.len() && (#[trigger] store.statuses@[i]).id == id
                && store.statuses@[i].deleted_at is None,
{
    let mut i: usize = 0;
    while i < store.statuses.len()
        invariant
            i <= store.statuses@.len(),
            forall|j: int|
                0 <= j < i ==> !((#[trigger] store.statuses@[j]).id == id && store.statuses@[j].deleted_at is None),
        decreases store.statuses.len() - i,
    {
        if store.statuses[i].id == id && store.statuses[i].deleted_at.is_none() {
            return true;
        }
        i = i + 1;
    }
    false
}

/// Positions of the entities whose media is still to be fetched into the
/// blob store, oldest fetched first.
pub fn pending_media(store: &RecordStore) -> (r: Vec<usize>)
    ensures
        lists_pending_media(store@, r@),
{
    let ghost v = store@;
    let ghost es = store.entities@;
    let mut r: Vec<usize> = Vec::new();
    let mut k: usize = 0;
    while k < store.entities.len()
        invariant
            v == store@,
            es == store.entities@,
            k <= es.len(),
            forall|j: int| 0 <= j < r@.len() ==> #[trigger] r@[j] < k,
            lists_pending_media(StoreView { entities: es.take(k as int), ..v }, r@),
            forall|j: int| 0 <= j < r@.len() ==> needs_media(v, #[trigger] r@[j] as int),
        decreases es.len() - k,
    {
        let e = &store.entities[k];
        let ghost vk = StoreView { entities: es.take(k as int), ..v };
        let ghost vk1 = StoreView { entities: es.take(k + 1), ..v };
        proof {
            assert forall|q: int| needs_media(vk1, q) && q < k implies needs_media(vk, q) by {
                assert(vk1.entities[q] == vk.entities[q]);
            }
            assert forall|q: int| needs_media(vk, q) implies needs_media(vk1, q) by {
                assert(vk1.entities[q] == vk.entities[q]);
            }
        }
        if e.blob_hash.is_none() && live_status(store, e.status_id) {
            let mut pos: usize = 0;
            while pos < r.len() && !(e.fetched_at < store.entities[r[pos]].fetched_at)
                invariant
                    pos <= r@.len(),
                    k < es.len(),
                    es == store.entities@,
                    e == store.entities@[k as int],
                    forall|j: int| 0 <= j < r@.len() ==> #[trigger] r@[j] < k,
                    forall|j: int| 0 <= j < pos ==> es[#[trigger] r@[j] as int].fetched_at <= es[k as int].fetched_at,
                decreases r.len() - pos,
            {
                pos = pos + 1;
            }
            let ghost old_r = r@;
            r.insert(pos, k);
            proof {
                assert(needs_media(vk1, k as int)) by {
                    assert(vk1.entities[k as int] == es[k as int]);
                }
                assert forall|j: int, l: int| 0 <= j < l < r@.len() implies ({
                    let a = vk1.entities[#[trigger] r@[j] as int];
                    let b = vk1.entities[#[trigger] r@[l] as int];
                    a.fetched_at < b.fetched_at || (a.fetched_at == b.fetched_at && r@[j] < r@[l])
                }) by {
                    let jj = if j < pos { j } else if j == pos { -1 } else { j - 1 };
                    let ll = if l < pos { l } else if l == pos { -1 } else { l - 1 };
                    if j != pos {
                        assert(r@[j] == old_r[jj]);
                        assert(vk1.entities[r@[j] as int] == vk.entities[old_r[jj] as int]);
                    }
                    if l != pos {
                        assert(r@[l] == old_r[ll]);
                        assert(vk1.entities[r@[l] as int] == vk.entities[old_r[ll] as int]);
                    }
                    if l > pos && j < pos {
                        assert(vk.entities[old_r[pos as int] as int] == es[old_r[pos as int] as int]);
                    }
                    if j == pos && l > pos + 1 {
                        assert(vk.entities[old_r[pos as int] as int] == es[old_r[pos as int] as int]);
                    }
                    if j < pos && l > pos {
                        assert(vk.entities[old_r[j] as int] == es[old_r[j] as int]);
                        assert(vk.entities[old_r[l - 1] as int] == es[old_r[l - 1] as int]);
                    }
                }
                assert forall|j: int| 0 <= j < r@.len() implies needs_media(vk1, #[trigger] r@[j] as int) by {
                    if j < pos {
                        assert(r@[j] == old_r[j]);
                    } else if j > pos {
                        assert(r@[j] == old_r[j - 1]);
                    }
                }
                assert forall|j: int| 0 <= j < r@.len() implies needs_media(v, #[trigger] r@[j] as int) by {
                    if j < pos {
                        assert(r@[j] == old_r[j]);
                    } else if j > pos {
                        assert(r@[j] == old_r[j - 1]);
                    }
                }
                assert forall|q: int| needs_media(vk1, q) implies exists|j: int|
                    0 <= j < r@.len() && r@[j] as int == q by {
                    if q == k {
                        assert(r@[pos as int] as int == q);
                    } else {
                        assert(needs_media(vk, q));
                        let j = choose|j: int| 0 <= j < old_r.len() && old_r[j] as int == q;
                        if j < pos {
                            assert(r@[j] == old_r[j]);
                        } else {
                            assert(r@[j + 1] == old_r[j]);
                        }
                    }
                }
            }
        } else {
            proof {
                assert(!needs_media(vk1, k as int));
                assert forall|q: int| needs_media(vk1, q) implies exists|j: int|
                    0 <= j < r@.len() && r@[j] as int == q by {
                    assert(needs_media(vk, q));
                }
                assert forall|j: int| 0 <= j < r@.len() implies needs_media(vk1, #[trigger] r@[j] as int) by {
                    assert(needs_media(vk, r@[j] as int));
                }
                assert forall|j: int, l: int| 0 <= j < l < r@.len() implies ({
                    let a = vk1.entities[#[trigger] r@[j] as int];
                    let b = vk1.entities[#[trigger] r@[l] as int];
                    a.fetched_at < b.fetched_at || (a.fetched_at == b.fetched_at && r@[j] < r@[l])
                }) by {
                    assert(vk1.entities[r@[j] as int] == vk.entities[r@[j] as int]);
                    assert(vk1.entities[r@[l] as int] == vk.entities[r@[l] as int]);
                }
            }
        }
        k = k + 1;
    }
    assert(es.take(k as int) =~= es);
    assert(StoreView { entities: es.take(k as int), ..v } == v);
    r
}

/// Records that the media of the entity at position `k` is kept in the
/// blob store under `hash`.
pub fn write_hash(store: &mut RecordStore, k: usize, hash: String)
    requires
        old(store)@.wf(),
        k < old(store)@.entities.len(),
    ensures
        final(store)@.wf(),
        final(store)@ == (StoreView {
            entities: old(store)@.entities.update(
                k as int,
                Entity { blob_hash: Some(hash), ..old(store)@.entities[k as int] },
            ),
            ..old(store)@
        }),
{
    store.entities[k].blob_hash = Some(hash);
    proof {
        let v = store@;
        let w = old(store)@;
        assert forall|a: int, b: int|
            0 <= a < v.entities.len() && 0 <= b < v.entities.len() && a != b implies {
                &&& (#[trigger] v.entities[a]).id != (#[trigger] v.entities[b]).id
                &&& v.entities[a].source_id != v.entities[b].source_id
            } by {
            assert(w.entities[a].id == v.entities[a].id && w.entities[b].id == v.entities[b].id);
            assert(w.entities[a].source_id == v.entities[a].source_id);
            assert(w.entities[b].source_id == v.entities[b].source_id);
        }
        assert forall|a: int| 0 <= a < v.entities.len() implies (#[trigger] v.entities[a]).id < v.next_id by {
            assert(w.entities[a].id == v.entities[a].id);
        }
    }
    assert(store.entities@ =~= old(store)@.entities.update(
        k as int,
        Entity { blob_hash: Some(hash), ..old(store)@.entities[k as int] },
    ));
}

/// `rows` are placeholder user rows for the account ids `ids`, made at
/// `now`.
pub open spec fn id_rows(rows: Seq<NewTwitterUserID>, ids: Seq<u64>, now: i64) -> bool {
    &&& rows.len() == ids.len()
    &&& forall|k: int|
        0 <= k < rows.len() ==> {
            &&& (#[trigger] rows[k]).source_id == ids[k]
            &&& rows[k].screen_name@.len() == 0
            &&& rows[k].name@.len() == 0
            &&& rows[k].created_at == now
            &&& rows[k].fetched_at == now
        }
}

fn push_user(store: &mut RecordStore, u: &NewTwitterUserID)
    requires
        old(store)@.wf(),
        old(store).next_id < u64::MAX,
        !has_user(old(store)@.users, u.source_id),
    ensures
        final(store)@ == old(store)@.insert_user_id(*u),
        final(store)@.wf(),
{
    let row = u.to_row(store.next_id);
    store.users.push(row);
    store.next_id = store.next_id + 1;
    proof {
        let n = old(store)@.users.len() as int;
        let us = store.users@;
        assert forall|i: int, j: int|
            0 <= i < us.len() && 0 <= j < us.len() && i != j implies {
                &&& (#[trigger] us[i]).id != (#[trigger] us[j]).id
                &&& us[i].source_id != us[j].source_id
            } by {
            if i == n {
                assert(!user_key_at(old(store)@.users, j, u.source_id));
                assert(old(store)@.users[j] == us[j]);
            } else if j == n {
                assert(!user_key_at(old(store)@.users, i, u.source_id));
                assert(old(store)@.users[i] == us[i]);
            } else {
                assert(old(store)@.users[i] == us[i]);
                assert(old(store)@.users[j] == us[j]);
            }
        }
        assert forall|i: int| 0 <= i < us.len() implies (#[trigger] us[i]).id < store.next_id by {
            if i < n {
                assert(old(store)@.users[i] == us[i]);
            }
        }
    }
    assert(store@ =~= old(store)@.insert_user_id(*u));
}

fn user_stored(store: &RecordStore, sid: u64) -> (r: bool)
    ensures
        r == has_user(store.users@, sid),
{
    let mut i: usize = 0;
    while i < store.users.len()
        invariant
            i <= store.users@.len(),
            forall|j: int| 0 <= j < i ==> !user_key_at(store.users@, j, sid),
        decreases store.users.len() - i,
    {
        if store.users[i].source_id == sid {
            assert(user_key_at(store.users@, i as int, sid));
            return true;
        }
        i = i + 1;
    }
    false
}

/// Stores a placeholder user for each account id in `ids` (from a block
/// list fetched at `now`) that is not stored yet. Returns how many users
/// were stored.
pub fn insert_block_ids(store: &mut RecordStore, ids: &Vec<u64>, now: i64) -> (r: Result<usize, StoreError>)
    requires
        old(store)@.wf(),
    ensures
        final(store)@.wf(),
        r is Err <==> old(store).next_id + ids@.len() > u64::MAX,
        match r {
            Ok(n) => {
                &&& exists|rows: Seq<NewTwitterUserID>|
                    #[trigger] id_rows(rows, ids@, now) && final(store)@ == old(store)@.insert_user_ids(rows)
                &&& n == final(store)@.users.len() - old(store)@.users.len()
            },
            Err(e) => e == StoreError::IdsExhausted && final(store)@ == old(store)@,
        },
{
    if ids.len() as u64 > u64::MAX - store.next_id {
        return Err(StoreError::IdsExhausted);
    }
    let before = store.users.len();
    let mut rows: Vec<NewTwitterUserID> = Vec::new();
    let mut i: usize = 0;
    while i < ids.len()
        invariant
            i <= ids@.len(),
            old(store).next_id + ids@.len() <= u64::MAX,
            store.next_id <= old(store).next_id + i,
            store@.wf(),
            before == old(store)@.users.len(),
            store@.users.len() >= before,
            id_rows(rows@, ids@.take(i as int), now),
            store@ == old(store)@.insert_user_ids(rows@),
        decreases ids.len() - i,
    {
        let u = NewTwitterUserID::new(ids[i], now);
        let ghost pre = rows@;
        if !user_stored(store, u.source_id) {
            push_user(store, &u);
        }
        rows.push(u);
        proof {
            assert(rows@.drop_last() =~= pre);
            assert(id_rows(rows@, ids@.take(i + 1), now)) by {
                assert forall|k: int| 0 <= k < rows@.len() implies (#[trigger] rows@[k]).source_id
                    == ids@.take(i + 1)[k] by {
                    if k < i {
                        assert(rows@[k] == pre[k]);
                    }
                }
            }
        }
        i = i + 1;
    }
    assert(ids@.take(i as int) =~= ids@);
    Ok(store.users.len() - before)
}

} // verus!
