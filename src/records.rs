use crate::inserts::{NewDeletion, NewEntity, NewStatus, NewTwitterUserID};
use crate::models::{Deletion, Entity, Status, TwitterUser};
use crate::types::Source;
use vstd::prelude::*;

verus! {

/// Transactional record store holding statuses, their media entities,
/// deletion requests and account profiles.
///
/// Every record gets an id from one counter. A status is identified by its
/// source and native id, an entity and a user by their native id: the store
/// never holds two records with the same identity.
pub struct RecordStore {
    pub statuses: Vec<Status>,
    pub entities: Vec<Entity>,
    pub deletions: Vec<Deletion>,
    pub users: Vec<TwitterUser>,
    pub next_id: u64,
}

/// The contents of a record store.
pub struct StoreView {
    pub statuses: Seq<Status>,
    pub entities: Seq<Entity>,
    pub deletions: Seq<Deletion>,
    pub users: Seq<TwitterUser>,
    pub next_id: u64,
}

impl View for RecordStore {
    type V = StoreView;

    open spec fn view(&self) -> StoreView {
        StoreView {
            statuses: self.statuses@,
            entities: self.entities@,
            deletions: self.deletions@,
            users: self.users@,
            next_id: self.next_id,
        }
    }
}

/// Failure of a store operation; the store is left as it was.
#[derive(Clone, Copy, Debug, PartialEq, Eq, Structural)]
pub enum StoreError {
    /// The record id counter cannot cover the records to create.
    IdsExhausted,
}

/// A post ready to be stored, with the rows of its media attachments.
#[derive(Clone, Debug)]
pub struct StagedPost {
    pub status: NewStatus,
    pub entities: Vec<NewEntity>,
}

pub open spec fn status_key_at(ss: Seq<Status>, i: int, src: Source, sid: u64) -> bool {
    0 <= i < ss.len() && ss[i].source == src && ss[i].source_id == sid
}

/// Some status in `ss` has source `src` and native id `sid`.
pub open spec fn has_status(ss: Seq<Status>, src: Source, sid: u64) -> bool {
    exists|i: int| status_key_at(ss, i, src, sid)
}

/// Position of the status with source `src` and native id `sid`, if stored.
pub open spec fn key_index(ss: Seq<Status>, src: Source, sid: u64) -> Option<int> {
    if has_status(ss, src, sid) {
        Some(choose|i: int| status_key_at(ss, i, src, sid))
    } else {
        None
    }
}

pub open spec fn entity_key_at(es: Seq<Entity>, i: int, sid: u64) -> bool {
    0 <= i < es.len() && es[i].source_id == sid
}

/// Some entity in `es` has native id `sid`.
pub open spec fn has_entity(es: Seq<Entity>, sid: u64) -> bool {
    exists|i: int| entity_key_at(es, i, sid)
}

pub open spec fn user_key_at(us: Seq<TwitterUser>, i: int, sid: u64) -> bool {
    0 <= i < us.len() && us[i].source_id == sid
}

/// Some user in `us` has native id `sid`.
pub open spec fn has_user(us: Seq<TwitterUser>, sid: u64) -> bool {
    exists|i: int| user_key_at(us, i, sid)
}

/// The entity rows `es`, each tied to the status with store id `id`.
pub open spec fn tag_entities(es: Seq<NewEntity>, id: u64) -> Seq<NewEntity> {
    es.map_values(|e: NewEntity| NewEntity { status_id: id, ..e })
}

pub proof fn lemma_rows_needed_prefix(b: Seq<StagedPost>, i: int)
    requires
        0 <= i <= b.len(),
    ensures
        0 <= rows_needed(b.take(i)) <= rows_needed(b),
    decreases b.len() - i,
{
    if i == b.len() {
        assert(b.take(i) =~= b);
        lemma_rows_needed_nonneg(b);
    } else {
        lemma_rows_needed_prefix(b, i + 1);
        assert(b.take(i + 1).drop_last() =~= b.take(i));
        lemma_rows_needed_nonneg(b.take(i));
    }
}

pub proof fn lemma_rows_needed_nonneg(b: Seq<StagedPost>)
    ensures
        rows_needed(b) >= 0,
    decreases b.len(),
{
    if b.len() > 0 {
        lemma_rows_needed_nonneg(b.drop_last());
    }
}

/// The entities `es`, with those tied to status id `from` tied to `to`
/// instead.
pub open spec fn retag(es: Seq<Entity>, from: u64, to: u64) -> Seq<Entity> {
    es.map_values(|e: Entity| if e.status_id == from { Entity { status_id: to, ..e } } else { e })
}

/// Number of records that storing `b` may create.
pub open spec fn rows_needed(b: Seq<StagedPost>) -> int
    decreases b.len(),
{
    if b.len() == 0 {
        0
    } else {
        rows_needed(b.drop_last()) + 1 + b.last().entities@.len()
    }
}

impl StoreView {
    /// Identities and ids are unique, and every id is below the counter.
    pub open spec fn wf(self) -> bool {
        &&& self.statuses_wf()
        &&& self.entities_wf()
        &&& self.deletions_wf()
        &&& self.users_wf()
    }

    pub open spec fn statuses_wf(self) -> bool {
        &&& forall|i: int, j: int|
            0 <= i < self.statuses.len() && 0 <= j < self.statuses.len() && i != j ==> {
                &&& (#[trigger] self.statuses[i]).id != (#[trigger] self.statuses[j]).id
                &&& !(self.statuses[i].source == self.statuses[j].source
                    && self.statuses[i].source_id == self.statuses[j].source_id)
            }
        &&& forall|i: int| 0 <= i < self.statuses.len() ==> (#[trigger] self.statuses[i]).id < self.next_id
    }

    pub open spec fn entities_wf(self) -> bool {
        &&& forall|i: int, j: int|
            0 <= i < self.entities.len() && 0 <= j < self.entities.len() && i != j ==> {
                &&& (#[trigger] self.entities[i]).id != (#[trigger] self.entities[j]).id
                &&& self.entities[i].source_id != self.entities[j].source_id
            }
        &&& forall|i: int| 0 <= i < self.entities.len() ==> (#[trigger] self.entities[i]).id < self.next_id
    }

    pub open spec fn deletions_wf(self) -> bool {
        &&& forall|i: int, j: int|
            0 <= i < self.deletions.len() && 0 <= j < self.deletions.len() && i != j
                ==> (#[trigger] self.deletions[i]).id != (#[trigger] self.deletions[j]).id
        &&& forall|i: int| 0 <= i < self.deletions.len() ==> (#[trigger] self.deletions[i]).id < self.next_id
    }

    pub open spec fn users_wf(self) -> bool {
        &&& forall|i: int, j: int|
            0 <= i < self.users.len() && 0 <= j < self.users.len() && i != j ==> {
                &&& (#[trigger] self.users[i]).id != (#[trigger] self.users[j]).id
                &&& self.users[i].source_id != self.users[j].source_id
            }
        &&& forall|i: int| 0 <= i < self.users.len() ==> (#[trigger] self.users[i]).id < self.next_id
    }

    /// Stores entity row `e` unless an entity with its native id is stored.
    pub open spec fn insert_entity(self, e: NewEntity) -> StoreView {
        if has_entity(self.entities, e.source_id) {
            self
        } else {
            StoreView {
                entities: self.entities.push(e.row(self.next_id)),
                next_id: (self.next_id + 1) as u64,
                ..self
            }
        }
    }

    /// Stores the entity rows `es` in order, each unless its native id is
    /// stored by then.
    pub open spec fn insert_entities(self, es: Seq<NewEntity>) -> StoreView
        decreases es.len(),
    {
        if es.len() == 0 {
            self
        } else {
            self.insert_entities(es.drop_last()).insert_entity(es.last())
        }
    }

    /// Stores post `p` unless a status with its identity is stored; a post
    /// that is stored brings its entities along, tied to its new id.
    pub open spec fn ingest_post(self, p: StagedPost) -> StoreView {
        if has_status(self.statuses, p.status.source, p.status.source_id) {
            self
        } else {
            let id = self.next_id;
            let with_status = StoreView {
                statuses: self.statuses.push(p.status.row(id)),
                next_id: (id + 1) as u64,
                ..self
            };
            with_status.insert_entities(tag_entities(p.entities@, id))
        }
    }

    /// Stores placeholder user `u` unless a user with its native id is
    /// stored.
    pub open spec fn insert_user_id(self, u: NewTwitterUserID) -> StoreView {
        if has_user(self.users, u.source_id) {
            self
        } else {
            StoreView { users: self.users.push(u.row(self.next_id)), next_id: (self.next_id + 1) as u64, ..self }
        }
    }

    /// Stores the placeholder users `us` in order, each unless its native id
    /// is stored by then.
    pub open spec fn insert_user_ids(self, us: Seq<NewTwitterUserID>) -> StoreView
        decreases us.len(),
    {
        if us.len() == 0 {
            self
        } else {
            self.insert_user_ids(us.drop_last()).insert_user_id(us.last())
        }
    }

    /// Stores the deletion requests `ds`, created at `now`, with consecutive
    /// ids.
    pub open spec fn add_deletions(self, ds: Seq<NewDeletion>, now: i64) -> StoreView {
        StoreView {
            deletions: self.deletions + Seq::new(
                ds.len(),
                |k: int| ds[k].row((self.next_id + k) as u64, now),
            ),
            next_id: (self.next_id + ds.len()) as u64,
            ..self
        }
    }

    /// Stores the posts of `b` in order, each unless its identity is stored
    /// by then.
    pub open spec fn ingest(self, b: Seq<StagedPost>) -> StoreView
        decreases b.len(),
    {
        if b.len() == 0 {
            self
        } else {
            self.ingest(b.drop_last()).ingest_post(b.last())
        }
    }
}

impl RecordStore {
    pub fn new() -> (r: RecordStore)
        ensures
            r@.wf(),
            r@.statuses.len() == 0,
            r@.entities.len() == 0,
            r@.deletions.len() == 0,
            r@.users.len() == 0,
    {
        RecordStore {
            statuses: Vec::new(),
            entities: Vec::new(),
            deletions: Vec::new(),
            users: Vec::new(),
            next_id: 1,
        }
    }

    /// Position of the status with source `src` and native id `sid`.
    pub fn find_status_by_key(&self, src: Source, sid: u64) -> (r: Option<usize>)
        ensures
            match r {
                Some(i) => status_key_at(self.statuses@, i as int, src, sid),
                None => !has_status(self.statuses@, src, sid),
            },
    {
        let mut i: usize = 0;
        while i < self.statuses.len()
            invariant
                i <= self.statuses@.len(),
                forall|j: int| 0 <= j < i ==> !status_key_at(self.statuses@, j, src, sid),
            decreases self.statuses.len() - i,
        {
            if self.statuses[i].source == src && self.statuses[i].source_id == sid {
                return Some(i);
            }
            i = i + 1;
        }
        None
    }

    /// Position of the status with store id `id`.
    pub fn find_status(&self, id: u64) -> (r: Option<usize>)
        ensures
            match r {
                Some(i) => i < self.statuses@.len() && self.statuses@[i as int].id == id,
                None => forall|j: int| 0 <= j < self.statuses@.len() ==> (#[trigger] self.statuses@[j]).id != id,
            },
    {
        let mut i: usize = 0;
        while i < self.statuses.len()
            invariant
                i <= self.statuses@.len(),
                forall|j: int| 0 <= j < i ==> (#[trigger] self.statuses@[j]).id != id,
            decreases self.statuses.len() - i,
        {
            if self.statuses[i].id == id {
                return Some(i);
            }
            i = i + 1;
        }
        None
    }

    pub(crate) fn push_status(&mut self, st: &NewStatus) -> (r: u64)
        requires
            old(self)@.wf(),
            old(self).next_id < u64::MAX,
            !has_status(old(self).statuses@, st.source, st.source_id),
        ensures
            final(self)@ == (StoreView {
                statuses: old(self)@.statuses.push(st.row(old(self).next_id)),
                next_id: (old(self).next_id + 1) as u64,
                ..old(self)@
            }),
            final(self)@.wf(),
            r == old(self).next_id,
    {
        let id = self.next_id;
        let row = st.to_row(id);
        self.statuses.push(row);
        self.next_id = self.next_id + 1;
        proof {
            let n = old(self).statuses@.len() as int;
            let ss = self.statuses@;
            assert forall|i: int, j: int|
                0 <= i < ss.len() && 0 <= j < ss.len() && i != j implies {
                    &&& (#[trigger] ss[i]).id != (#[trigger] ss[j]).id
                    &&& !(ss[i].source == ss[j].source && ss[i].source_id == ss[j].source_id)
                } by {
                if i == n {
                    assert(!status_key_at(old(self).statuses@, j, st.source, st.source_id));
                    assert(old(self).statuses@[j] == ss[j]);
                } else if j == n {
                    assert(!status_key_at(old(self).statuses@, i, st.source, st.source_id));
                    assert(old(self).statuses@[i] == ss[i]);
                } else {
                    assert(old(self).statuses@[i] == ss[i]);
                    assert(old(self).statuses@[j] == ss[j]);
                }
            }
            assert forall|i: int| 0 <= i < ss.len() implies (#[trigger] ss[i]).id < self.next_id by {
                if i < n {
                    assert(old(self).statuses@[i] == ss[i]);
                }
            }
        }
        id
    }

    /// Stores the entity rows `es`, tied to the status with store id `id`,
    /// each unless its native id is stored by then.
    pub fn insert_entities_for(&mut self, es: &Vec<NewEntity>, id: u64)
        requires
            old(self)@.wf(),
            old(self).next_id + es@.len() <= u64::MAX,
        ensures
            final(self)@ == old(self)@.insert_entities(tag_entities(es@, id)),
            final(self)@.wf(),
            final(self).next_id <= old(self).next_id + es@.len(),
            final(self).statuses@ == old(self).statuses@,
            final(self).deletions@ == old(self).deletions@,
            final(self).users@ == old(self).users@,
    {
        let ghost tagged = tag_entities(es@, id);
        let mut i: usize = 0;
        while i < es.len()
            invariant
                i <= es@.len(),
                tagged == tag_entities(es@, id),
                self@.wf(),
                self.next_id <= old(self).next_id + i,
                old(self).next_id + es@.len() <= u64::MAX,
                self@ == old(self)@.insert_entities(tagged.take(i as int)),
                self.statuses@ == old(self).statuses@,
                self.deletions@ == old(self).deletions@,
                self.users@ == old(self).users@,
            decreases es.len() - i,
        {
            let t = es[i].tagged(id);
            assert(tagged.take(i + 1).drop_last() =~= tagged.take(i as int));
            assert(tagged[i as int] == t);
            self.insert_entity_ignoring_conflict(&t);
            i = i + 1;
        }
        assert(tagged.take(es@.len() as int) =~= tagged);
    }

    /// The store can give ids to every record that storing `b` may create.
    pub fn has_room(&self, b: &Vec<StagedPost>) -> (r: bool)
        ensures
            r == (self.next_id + rows_needed(b@) <= u64::MAX),
    {
        let cap: u64 = u64::MAX - self.next_id;
        let mut total: u64 = 0;
        let mut i: usize = 0;
        while i < b.len()
            invariant
                i <= b@.len(),
                cap == u64::MAX - self.next_id,
                total == rows_needed(b@.take(i as int)),
                total <= cap,
            decreases b.len() - i,
        {
            assert(b@.take(i + 1).drop_last() =~= b@.take(i as int));
            let n = b[i].entities.len();
            if n as u64 >= cap - total {
                proof {
                    lemma_rows_needed_prefix(b@, i + 1);
                }
                return false;
            }
            total = total + 1 + n as u64;
            i = i + 1;
        }
        assert(b@.take(b@.len() as int) =~= b@);
        true
    }

    /// Stores the posts of `b` in order, each with its entities, unless a
    /// status with its identity is stored by then. Returns how many statuses
    /// were stored.
    pub fn ingest(&mut self, b: &Vec<StagedPost>) -> (r: Result<usize, StoreError>)
        requires
            old(self)@.wf(),
        ensures
            final(self)@.wf(),
            match r {
                Ok(n) => {
                    &&& final(self)@ == old(self)@.ingest(b@)
                    &&& n == final(self)@.statuses.len() - old(self)@.statuses.len()
                },
                Err(e) => {
                    &&& e == StoreError::IdsExhausted
                    &&& final(self)@ == old(self)@
                },
            },
            r is Err <==> old(self).next_id + rows_needed(b@) > u64::MAX,
    {
        if !self.has_room(b) {
            return Err(StoreError::IdsExhausted);
        }
        let ghost start = self.next_id;
        let before = self.statuses.len();
        let mut i: usize = 0;
        while i < b.len()
            invariant
                i <= b@.len(),
                self@.wf(),
                start == old(self).next_id,
                start + rows_needed(b@) <= u64::MAX,
                self.next_id <= start + rows_needed(b@.take(i as int)),
                self@ == old(self)@.ingest(b@.take(i as int)),
                self@.statuses.len() >= old(self)@.statuses.len(),
                before == old(self)@.statuses.len(),
            decreases b.len() - i,
        {
            proof {
                lemma_rows_needed_prefix(b@, i + 1);
                assert(b@.take(i + 1).drop_last() =~= b@.take(i as int));
                assert(b@.take(i + 1).last() == b@[i as int]);
            }
            let p = &b[i];
            match self.find_status_by_key(p.status.source, p.status.source_id) {
                Some(k) => {
                    assert(status_key_at(self.statuses@, k as int, p.status.source, p.status.source_id));
                },
                None => {
                    let id = self.push_status(&p.status);
                    self.insert_entities_for(&p.entities, id);
                },
            }
            i = i + 1;
        }
        assert(b@.take(b@.len() as int) =~= b@);
        Ok(self.statuses.len() - before)
    }

    /// Stores the deletion requests `ds`, created at `now`.
    pub fn insert_deletions(&mut self, ds: &Vec<NewDeletion>, now: i64) -> (r: Result<usize, StoreError>)
        requires
            old(self)@.wf(),
        ensures
            final(self)@.wf(),
            match r {
                Ok(n) => final(self)@ == old(self)@.add_deletions(ds@, now) && n == ds@.len(),
                Err(e) => e == StoreError::IdsExhausted && final(self)@ == old(self)@,
            },
            r is Err <==> old(self).next_id + ds@.len() > u64::MAX,
    {
        if ds.len() as u64 > u64::MAX - self.next_id {
            return Err(StoreError::IdsExhausted);
        }
        let mut i: usize = 0;
        while i < ds.len()
            invariant
                i <= ds@.len(),
                old(self).next_id + ds@.len() <= u64::MAX,
                self@.wf(),
                self@ == old(self)@.add_deletions(ds@.take(i as int), now),
            decreases ds.len() - i,
        {
            let row = ds[i].to_row(self.next_id, now);
            let ghost n = self.deletions@.len() as int;
            self.deletions.push(row);
            self.next_id = self.next_id + 1;
            proof {
                let dd = self.deletions@;
                let od = old(self)@.add_deletions(ds@.take(i as int), now).deletions;
                assert forall|a: int, b: int|
                    0 <= a < dd.len() && 0 <= b < dd.len() && a != b implies (#[trigger] dd[a]).id
                    != (#[trigger] dd[b]).id by {
                    if a < n {
                        assert(dd[a] == od[a]);
                    }
                    if b < n {
                        assert(dd[b] == od[b]);
                    }
                }
                assert forall|a: int| 0 <= a < dd.len() implies (#[trigger] dd[a]).id < self.next_id by {
                    if a < n {
                        assert(dd[a] == od[a]);
                    }
                }
                let nd = old(self)@.add_deletions(ds@.take(i + 1), now).deletions;
                assert(dd.len() == nd.len());
                assert forall|a: int| 0 <= a < dd.len() implies dd[a] == nd[a] by {
                    let m = old(self).deletions@.len() as int;
                    if a < n {
                        assert(dd[a] == od[a]);
                        if a >= m {
                            assert(ds@.take(i + 1)[a - m] == ds@.take(i as int)[a - m]);
                        }
                    } else {
                        assert(ds@.take(i + 1)[a - m] == ds@[i as int]);
                    }
                }
                assert(dd =~= nd);
                assert(self@ =~= old(self)@.add_deletions(ds@.take(i + 1), now));
            }
            i = i + 1;
        }
        assert(ds@.take(ds@.len() as int) =~= ds@);
        Ok(ds.len())
    }

    /// Replaces the status at position `i` by `row`, which keeps its id and
    /// identity.
    pub fn replace_status(&mut self, i: usize, row: Status)
        requires
            old(self)@.wf(),
            i < old(self)@.statuses.len(),
            row.id == old(self)@.statuses[i as int].id,
            row.source == old(self)@.statuses[i as int].source,
            row.source_id == old(self)@.statuses[i as int].source_id,
        ensures
            final(self)@ == (StoreView { statuses: old(self)@.statuses.update(i as int, row), ..old(self)@ }),
            final(self)@.wf(),
    {
        self.statuses.set(i, row);
        proof {
            let v = self@;
            let w = old(self)@;
            assert forall|a: int, b: int|
                0 <= a < v.statuses.len() && 0 <= b < v.statuses.len() && a != b implies {
                    &&& (#[trigger] v.statuses[a]).id != (#[trigger] v.statuses[b]).id
                    &&& !(v.statuses[a].source == v.statuses[b].source && v.statuses[a].source_id
                        == v.statuses[b].source_id)
                } by {
                assert(w.statuses[a].id == v.statuses[a].id && w.statuses[b].id == v.statuses[b].id);
                assert(w.statuses[a].source_id == v.statuses[a].source_id);
                assert(w.statuses[b].source_id == v.statuses[b].source_id);
            }
            assert forall|a: int| 0 <= a < v.statuses.len() implies (#[trigger] v.statuses[a]).id < v.next_id by {
                assert(w.statuses[a].id == v.statuses[a].id);
            }
        }
        assert(self@ =~= (StoreView { statuses: old(self)@.statuses.update(i as int, row), ..old(self)@ }));
    }

    /// Ties the entities of the status with store id `from` to the status
    /// with store id `to`.
    pub fn retag_entities(&mut self, from: u64, to: u64)
        requires
            old(self)@.wf(),
        ensures
            final(self)@ == (StoreView { entities: retag(old(self)@.entities, from, to), ..old(self)@ }),
            final(self)@.wf(),
    {
        let ghost target = retag(old(self)@.entities, from, to);
        let mut i: usize = 0;
        while i < self.entities.len()
            invariant
                i <= self.entities@.len(),
                self.entities@.len() == old(self)@.entities.len(),
                target == retag(old(self)@.entities, from, to),
                forall|j: int| 0 <= j < i ==> #[trigger] self.entities@[j] == target[j],
                forall|j: int| i <= j < self.entities@.len() ==> #[trigger] self.entities@[j] == old(self)@.entities[j],
                self.statuses@ == old(self)@.statuses,
                self.deletions@ == old(self)@.deletions,
                self.users@ == old(self)@.users,
                self.next_id == old(self).next_id,
            decreases self.entities.len() - i,
        {
            if self.entities[i].status_id == from {
                self.entities[i].status_id = to;
            }
            i = i + 1;
        }
        proof {
            assert(self.entities@ =~= target);
            let v = self@;
            let w = old(self)@;
            assert forall|a: int, b: int|
                0 <= a < v.entities.len() && 0 <= b < v.entities.len() && a != b implies {
                    &&& (#[trigger] v.entities[a]).id != (#[trigger] v.entities[b]).id
                    &&& v.entities[a].source_id != v.entities[b].source_id
                } by {
                assert(w.entities[a].id == v.entities[a].id && w.entities[b].id == v.entities[b].id);
                assert(w.entities[a].source_id == v.entities[a].source_id);
                assert(w.entities[b].source_id == v.entities[b].source_id);
            }
            assert forall|a: int| 0 <= a < v.entities.len() implies (#[trigger] v.entities[a]).id < v.next_id by {
                assert(w.entities[a].id == v.entities[a].id);
            }
        }
        assert(self@ =~= (StoreView { entities: retag(old(self)@.entities, from, to), ..old(self)@ }));
    }

    /// Deletes the status at position `i`.
    pub fn remove_status(&mut self, i: usize)
        requires
            old(self)@.wf(),
            i < old(self)@.statuses.len(),
        ensures
            final(self)@ == (StoreView { statuses: old(self)@.statuses.remove(i as int), ..old(self)@ }),
            final(self)@.wf(),
    {
        self.statuses.remove(i);
        proof {
            let v = self@;
            let w = old(self)@;
            assert forall|a: int, b: int|
                0 <= a < v.statuses.len() && 0 <= b < v.statuses.len() && a != b implies {
                    &&& (#[trigger] v.statuses[a]).id != (#[trigger] v.statuses[b]).id
                    &&& !(v.statuses[a].source == v.statuses[b].source && v.statuses[a].source_id
                        == v.statuses[b].source_id)
                } by {
                let oa = if a < i { a } else { a + 1 };
                let ob = if b < i { b } else { b + 1 };
                assert(v.statuses[a] == w.statuses[oa]);
                assert(v.statuses[b] == w.statuses[ob]);
            }
            assert forall|a: int| 0 <= a < v.statuses.len() implies (#[trigger] v.statuses[a]).id < v.next_id by {
                let oa = if a < i { a } else { a + 1 };
                assert(v.statuses[a] == w.statuses[oa]);
            }
        }
        assert(self@ =~= (StoreView { statuses: old(self)@.statuses.remove(i as int), ..old(self)@ }));
    }

    /// Position of the user with store id `id`.
    pub fn find_user(&self, id: u64) -> (r: Option<usize>)
        ensures
            match r {
                Some(i) => i < self.users@.len() && self.users@[i as int].id == id,
                None => forall|j: int| 0 <= j < self.users@.len() ==> (#[trigger] self.users@[j]).id != id,
            },
    {
        let mut i: usize = 0;
        while i < self.users.len()
            invariant
                i <= self.users@.len(),
                forall|j: int| 0 <= j < i ==> (#[trigger] self.users@[j]).id != id,
            decreases self.users.len() - i,
        {
            if self.users[i].id == id {
                return Some(i);
            }
            i = i + 1;
        }
        None
    }

    /// Replaces the user at position `i` by `row`, which keeps its id and
    /// native id.
    pub fn replace_user(&mut self, i: usize, row: TwitterUser)
        requires
            old(self)@.wf(),
            i < old(self)@.users.len(),
            row.id == old(self)@.users[i as int].id,
            row.source_id == old(self)@.users[i as int].source_id,
        ensures
            final(self)@ == (StoreView { users: old(self)@.users.update(i as int, row), ..old(self)@ }),
            final(self)@.wf(),
    {
        self.users.set(i, row);
        proof {
            let v = self@;
            let w = old(self)@;
            assert forall|a: int, b: int|
                0 <= a < v.users.len() && 0 <= b < v.users.len() && a != b implies {
                    &&& (#[trigger] v.users[a]).id != (#[trigger] v.users[b]).id
                    &&& v.users[a].source_id != v.users[b].source_id
                } by {
                assert(w.users[a].id == v.users[a].id && w.users[b].id == v.users[b].id);
                assert(w.users[a].source_id == v.users[a].source_id);
                assert(w.users[b].source_id == v.users[b].source_id);
            }
            assert forall|a: int| 0 <= a < v.users.len() implies (#[trigger] v.users[a]).id < v.next_id by {
                assert(w.users[a].id == v.users[a].id);
            }
        }
        assert(self@ =~= (StoreView { users: old(self)@.users.update(i as int, row), ..old(self)@ }));
    }

    fn statuses_valid(&self) -> (r: bool)
        ensures
            r == self@.statuses_wf(),
    {
        let xs = &self.statuses;
        let mut i: usize = 0;
        while i < xs.len()
            invariant
                xs@ == self@.statuses,
                i <= xs@.len(),
                forall|a: int, b: int| 0 <= a < i && 0 <= b < xs@.len() && a != b ==> ((#[trigger] xs@[a]).id != (#[trigger] xs@[b]).id && !(xs@[a].source == xs@[b].source && xs@[a].source_id == xs@[b].source_id)),
                forall|a: int| 0 <= a < i ==> (#[trigger] xs@[a]).id < self.next_id,
            decreases xs.len() - i,
        {
            if xs[i].id >= self.next_id {
                assert(self@.statuses[i as int].id >= self@.next_id);
                return false;
            }
            let mut j: usize = 0;
            while j < xs.len()
                invariant
                    xs@ == self@.statuses,
                    i < xs@.len(),
                    j <= xs@.len(),
                    forall|a: int, b: int| 0 <= a < i && 0 <= b < xs@.len() && a != b ==> ((#[trigger] xs@[a]).id != (#[trigger] xs@[b]).id && !(xs@[a].source == xs@[b].source && xs@[a].source_id == xs@[b].source_id)),
                    forall|a: int| 0 <= a <= i ==> (#[trigger] xs@[a]).id < self.next_id,
                    forall|b: int| 0 <= b < j && b != i ==> (xs@[i as int].id != (#[trigger] xs@[b]).id && !(xs@[i as int].source == xs@[b].source && xs@[i as int].source_id == xs@[b].source_id)),
                decreases xs.len() - j,
            {
                if j != i && (xs[i].id == xs[j].id || (xs[i].source == xs[j].source && xs[i].source_id == xs[j].source_id)) {
                    assert(self@.statuses[i as int] == xs@[i as int] && self@.statuses[j as int] == xs@[j as int]);
                    return false;
                }
                j = j + 1;
            }
            proof {
                assert forall|a: int, b: int| 0 <= a < i + 1 && 0 <= b < xs@.len() && a != b implies ((#[trigger] xs@[a]).id != (#[trigger] xs@[b]).id && !(xs@[a].source == xs@[b].source && xs@[a].source_id == xs@[b].source_id)) by {
                    if a == i {
                        assert(0 <= b < j && b != i);
                    }
                }
            }
            i = i + 1;
        }
        true
    }

    fn entities_valid(&self) -> (r: bool)
        ensures
            r == self@.entities_wf(),
    {
        let xs = &self.entities;
        let mut i: usize = 0;
        while i < xs.len()
            invariant
                xs@ == self@.entities,
                i <= xs@.len(),
                forall|a: int, b: int| 0 <= a < i && 0 <= b < xs@.len() && a != b ==> ((#[trigger] xs@[a]).id != (#[trigger] xs@[b]).id && xs@[a].source_id != xs@[b].source_id),
                forall|a: int| 0 <= a < i ==> (#[trigger] xs@[a]).id < self.next_id,
            decreases xs.len() - i,
        {
            if xs[i].id >= self.next_id {
                assert(self@.entities[i as int].id >= self@.next_id);
                return false;
            }
            let mut j: usize = 0;
            while j < xs.len()
                invariant
                    xs@ == self@.entities,
                    i < xs@.len(),
                    j <= xs@.len(),
                    forall|a: int, b: int| 0 <= a < i && 0 <= b < xs@.len() && a != b ==> ((#[trigger] xs@[a]).id != (#[trigger] xs@[b]).id && xs@[a].source_id != xs@[b].source_id),
                    forall|a: int| 0 <= a <= i ==> (#[trigger] xs@[a]).id < self.next_id,
                    forall|b: int| 0 <= b < j && b != i ==> (xs@[i as int].id != (#[trigger] xs@[b]).id && xs@[i as int].source_id != xs@[b].source_id),
                decreases xs.len() - j,
            {
                if j != i && (xs[i].id == xs[j].id || xs[i].source_id == xs[j].source_id) {
                    assert(self@.entities[i as int] == xs@[i as int] && self@.entities[j as int] == xs@[j as int]);
                    return false;
                }
                j = j + 1;
            }
            proof {
                assert forall|a: int, b: int| 0 <= a < i + 1 && 0 <= b < xs@.len() && a != b implies ((#[trigger] xs@[a]).id != (#[trigger] xs@[b]).id && xs@[a].source_id != xs@[b].source_id) by {
                    if a == i {
                        assert(0 <= b < j && b != i);
                    }
                }
            }
            i = i + 1;
        }
        true
    }

    fn deletions_valid(&self) -> (r: bool)
        ensures
            r == self@.deletions_wf(),
    {
        let xs = &self.deletions;
        let mut i: usize = 0;
        while i < xs.len()
            invariant
                xs@ == self@.deletions,
                i <= xs@.len(),
                forall|a: int, b: int| 0 <= a < i && 0 <= b < xs@.len() && a != b ==> ((#[trigger] xs@[a]).id != (#[trigger] xs@[b]).id),
                forall|a: int| 0 <= a < i ==> (#[trigger] xs@[a]).id < self.next_id,
            decreases xs.len() - i,
        {
            if xs[i].id >= self.next_id {
                assert(self@.deletions[i as int].id >= self@.next_id);
                return false;
            }
            let mut j: usize = 0;
            while j < xs.len()
                invariant
                    xs@ == self@.deletions,
                    i < xs@.len(),
                    j <= xs@.len(),
                    forall|a: int, b: int| 0 <= a < i && 0 <= b < xs@.len() && a != b ==> ((#[trigger] xs@[a]).id != (#[trigger] xs@[b]).id),
                    forall|a: int| 0 <= a <= i ==> (#[trigger] xs@[a]).id < self.next_id,
                    forall|b: int| 0 <= b < j && b != i ==> (xs@[i as int].id != (#[trigger] xs@[b]).id),
                decreases xs.len() - j,
            {
                if j != i && (xs[i].id == xs[j].id) {
                    assert(self@.deletions[i as int] == xs@[i as int] && self@.deletions[j as int] == xs@[j as int]);
                    return false;
                }
                j = j + 1;
            }
            proof {
                assert forall|a: int, b: int| 0 <= a < i + 1 && 0 <= b < xs@.len() && a != b implies ((#[trigger] xs@[a]).id != (#[trigger] xs@[b]).id) by {
                    if a == i {
                        assert(0 <= b < j && b != i);
                    }
                }
            }
            i = i + 1;
        }
        true
    }

    fn users_valid(&self) -> (r: bool)
        ensures
            r == self@.users_wf(),
    {
        let xs = &self.users;
        let mut i: usize = 0;
        while i < xs.len()
            invariant
                xs@ == self@.users,
                i <= xs@.len(),
                forall|a: int, b: int| 0 <= a < i && 0 <= b < xs@.len() && a != b ==> ((#[trigger] xs@[a]).id != (#[trigger] xs@[b]).id && xs@[a].source_id != xs@[b].source_id),
                forall|a: int| 0 <= a < i ==> (#[trigger] xs@[a]).id < self.next_id,
            decreases xs.len() - i,
        {
            if xs[i].id >= self.next_id {
                assert(self@.users[i as int].id >= self@.next_id);
                return false;
            }
            let mut j: usize = 0;
            while j < xs.len()
                invariant
                    xs@ == self@.users,
                    i < xs@.len(),
                    j <= xs@.len(),
                    forall|a: int, b: int| 0 <= a < i && 0 <= b < xs@.len() && a != b ==> ((#[trigger] xs@[a]).id != (#[trigger] xs@[b]).id && xs@[a].source_id != xs@[b].source_id),
                    forall|a: int| 0 <= a <= i ==> (#[trigger] xs@[a]).id < self.next_id,
                    forall|b: int| 0 <= b < j && b != i ==> (xs@[i as int].id != (#[trigger] xs@[b]).id && xs@[i as int].source_id != xs@[b].source_id),
                decreases xs.len() - j,
            {
                if j != i && (xs[i].id == xs[j].id || xs[i].source_id == xs[j].source_id) {
                    assert(self@.users[i as int] == xs@[i as int] && self@.users[j as int] == xs@[j as int]);
                    return false;
                }
                j = j + 1;
            }
            proof {
                assert forall|a: int, b: int| 0 <= a < i + 1 && 0 <= b < xs@.len() && a != b implies ((#[trigger] xs@[a]).id != (#[trigger] xs@[b]).id && xs@[a].source_id != xs@[b].source_id) by {
                    if a == i {
                        assert(0 <= b < j && b != i);
                    }
                }
            }
            i = i + 1;
        }
        true
    }

    /// Whether the contents meet the store's invariant: unique identities and
    /// ids, all below the id counter. Records read from elsewhere are checked
    /// with this before the store is used.
    pub fn validate(&self) -> (r: bool)
        ensures
            r == self@.wf(),
    {
        self.statuses_valid() && self.entities_valid() && self.deletions_valid() && self.users_valid()
    }

    fn find_entity_by_key(&self, sid: u64) -> (r: bool)
        ensures
            r == has_entity(self.entities@, sid),
    {
        let mut i: usize = 0;
        while i < self.entities.len()
            invariant
                i <= self.entities@.len(),
                forall|j: int| 0 <= j < i ==> !entity_key_at(self.entities@, j, sid),
            decreases self.entities.len() - i,
        {
            if self.entities[i].source_id == sid {
                assert(entity_key_at(self.entities@, i as int, sid));
                return true;
            }
            i = i + 1;
        }
        false
    }

    /// Stores entity row `e` unless an entity with its native id is stored.
    pub fn insert_entity_ignoring_conflict(&mut self, e: &NewEntity) -> (r: bool)
        requires
            old(self)@.wf(),
            old(self).next_id < u64::MAX,
        ensures
            final(self)@ == old(self)@.insert_entity(*e),
            final(self)@.wf(),
            r == !has_entity(old(self).entities@, e.source_id),
    {
        if self.find_entity_by_key(e.source_id) {
            false
        } else {
            let row = e.to_row(self.next_id);
            self.entities.push(row);
            self.next_id = self.next_id + 1;
            proof {
                let n = old(self).entities@.len() as int;
                let es = self.entities@;
                assert forall|i: int, j: int|
                    0 <= i < es.len() && 0 <= j < es.len() && i != j implies {
                        &&& (#[trigger] es[i]).id != (#[trigger] es[j]).id
                        &&& es[i].source_id != es[j].source_id
                    } by {
                    if i == n {
                        assert(!entity_key_at(old(self).entities@, j, e.source_id));
                        assert(old(self).entities@[j] == es[j]);
                    } else if j == n {
                        assert(!entity_key_at(old(self).entities@, i, e.source_id));
                        assert(old(self).entities@[i] == es[i]);
                    } else {
                        assert(old(self).entities@[i] == es[i]);
                        assert(old(self).entities@[j] == es[j]);
                    }
                }
                assert forall|i: int| 0 <= i < es.len() implies (#[trigger] es[i]).id < self.next_id by {
                    if i < n {
                        assert(old(self).entities@[i] == es[i]);
                    }
                }
            }
            assert(self@ =~= old(self)@.insert_entity(*e));
            true
        }
    }
}

/// Same source and native id.
pub open spec fn same_identity(a: NewStatus, b: NewStatus) -> bool {
    a.source == b.source && a.source_id == b.source_id
}

pub proof fn lemma_insert_entities_keeps_statuses(v: StoreView, es: Seq<NewEntity>)
    ensures
        v.insert_entities(es).statuses == v.statuses,
    decreases es.len(),
{
    if es.len() > 0 {
        lemma_insert_entities_keeps_statuses(v, es.drop_last());
    }
}

pub proof fn lemma_ingest_extends(v: StoreView, b: Seq<StagedPost>)
    ensures
        v.statuses.len() <= v.ingest(b).statuses.len(),
        forall|i: int| 0 <= i < v.statuses.len() ==> #[trigger] v.ingest(b).statuses[i] == v.statuses[i],
    decreases b.len(),
{
    if b.len() > 0 {
        let w = v.ingest(b.drop_last());
        lemma_ingest_extends(v, b.drop_last());
        let p = b.last();
        if !has_status(w.statuses, p.status.source, p.status.source_id) {
            let with_status = StoreView {
                statuses: w.statuses.push(p.status.row(w.next_id)),
                next_id: (w.next_id + 1) as u64,
                ..w
            };
            lemma_insert_entities_keeps_statuses(with_status, tag_entities(p.entities@, w.next_id));
            assert forall|i: int| 0 <= i < v.statuses.len() implies #[trigger] v.ingest(b).statuses[i]
                == v.statuses[i] by {
                assert(w.statuses[i] == v.statuses[i]);
            }
        }
    }
}

pub proof fn lemma_ingest_stores_all(v: StoreView, b: Seq<StagedPost>)
    ensures
        forall|k: int|
            0 <= k < b.len() ==> has_status(
                v.ingest(b).statuses,
                (#[trigger] b[k]).status.source,
                b[k].status.source_id,
            ),
    decreases b.len(),
{
    if b.len() > 0 {
        let w = v.ingest(b.drop_last());
        lemma_ingest_stores_all(v, b.drop_last());
        lemma_ingest_extends(w, seq![b.last()]);
        assert(seq![b.last()].drop_last() =~= Seq::<StagedPost>::empty());
        assert(w.ingest(Seq::<StagedPost>::empty()) == w);
        let after = v.ingest(b);
        assert(after == w.ingest(seq![b.last()]));
        assert forall|k: int| 0 <= k < b.len() implies has_status(
            after.statuses,
            (#[trigger] b[k]).status.source,
            b[k].status.source_id,
        ) by {
            let p = b.last();
            if k < b.len() - 1 {
                assert(b.drop_last()[k] == b[k]);
                let i = choose|i: int| status_key_at(w.statuses, i, b[k].status.source, b[k].status.source_id);
                assert(status_key_at(after.statuses, i, b[k].status.source, b[k].status.source_id));
            } else if !has_status(w.statuses, p.status.source, p.status.source_id) {
                let with_status = StoreView {
                    statuses: w.statuses.push(p.status.row(w.next_id)),
                    next_id: (w.next_id + 1) as u64,
                    ..w
                };
                lemma_insert_entities_keeps_statuses(with_status, tag_entities(p.entities@, w.next_id));
                assert(status_key_at(after.statuses, w.statuses.len() as int, p.status.source, p.status.source_id));
            }
        }
    }
}

pub proof fn lemma_ingest_known(v: StoreView, b: Seq<StagedPost>)
    requires
        forall|k: int|
            0 <= k < b.len() ==> has_status(v.statuses, (#[trigger] b[k]).status.source, b[k].status.source_id),
    ensures
        v.ingest(b) == v,
    decreases b.len(),
{
    if b.len() > 0 {
        assert forall|k: int| 0 <= k < b.drop_last().len() implies has_status(
            v.statuses,
            (#[trigger] b.drop_last()[k]).status.source,
            b.drop_last()[k].status.source_id,
        ) by {
            assert(b.drop_last()[k] == b[k]);
        }
        lemma_ingest_known(v, b.drop_last());
        assert(has_status(v.statuses, b[b.len() - 1].status.source, b[b.len() - 1].status.source_id));
    }
}

/// Re-running a sync whose feed has no new posts stores nothing: once a
/// batch is stored, storing it again, or any batch whose posts all share an
/// identity with posts of it, leaves the store as it is (and so stores no
/// new status).
pub proof fn lemma_ingest_again_is_noop(v: StoreView, b1: Seq<StagedPost>, b2: Seq<StagedPost>)
    requires
        forall|j: int|
            0 <= j < b2.len() ==> exists|k: int|
                0 <= k < b1.len() && same_identity(#[trigger] b2[j].status, #[trigger] b1[k].status),
    ensures
        v.ingest(b1).ingest(b2) == v.ingest(b1),
        v.ingest(b1).ingest(b2).statuses.len() == v.ingest(b1).statuses.len(),
{
    let w = v.ingest(b1);
    lemma_ingest_stores_all(v, b1);
    assert forall|j: int| 0 <= j < b2.len() implies has_status(
        w.statuses,
        (#[trigger] b2[j]).status.source,
        b2[j].status.source_id,
    ) by {
        let k = choose|k: int| 0 <= k < b1.len() && same_identity(b2[j].status, b1[k].status);
        assert(has_status(w.statuses, b1[k].status.source, b1[k].status.source_id));
    }
    lemma_ingest_known(w, b2);
}

/// Storing tagged entity rows keeps the statuses and the entities stored
/// before, and every entity it adds is tied to `id`.
pub proof fn lemma_insert_tagged(v: StoreView, es: Seq<NewEntity>, id: u64)
    ensures
        v.insert_entities(tag_entities(es, id)).statuses == v.statuses,
        v.entities.len() <= v.insert_entities(tag_entities(es, id)).entities.len(),
        forall|k: int|
            0 <= k < v.entities.len() ==> #[trigger] v.insert_entities(tag_entities(es, id)).entities[k]
                == v.entities[k],
        forall|k: int|
            v.entities.len() <= k < v.insert_entities(tag_entities(es, id)).entities.len()
                ==> (#[trigger] v.insert_entities(tag_entities(es, id)).entities[k]).status_id == id,
    decreases es.len(),
{
    if es.len() > 0 {
        assert(tag_entities(es, id).drop_last() =~= tag_entities(es.drop_last(), id));
        lemma_insert_tagged(v, es.drop_last(), id);
    }
}

/// Every status that storing `b` adds is the row of one of `b`'s posts.
pub proof fn lemma_ingest_new_rows(v: StoreView, b: Seq<StagedPost>)
    ensures
        forall|t: int|
            v.statuses.len() <= t < v.ingest(b).statuses.len() ==> exists|k: int, id: u64|
                0 <= k < b.len() && #[trigger] v.ingest(b).statuses[t] == b[k].status.row(id),
    decreases b.len(),
{
    if b.len() > 0 {
        let w = v.ingest(b.drop_last());
        lemma_ingest_new_rows(v, b.drop_last());
        lemma_ingest_extends(v, b.drop_last());
        let p = b.last();
        let after = v.ingest(b);
        if !has_status(w.statuses, p.status.source, p.status.source_id) {
            let with_status = StoreView {
                statuses: w.statuses.push(p.status.row(w.next_id)),
                next_id: (w.next_id + 1) as u64,
                ..w
            };
            lemma_insert_entities_keeps_statuses(with_status, tag_entities(p.entities@, w.next_id));
        }
        assert forall|t: int| v.statuses.len() <= t < after.statuses.len() implies exists|k: int, id: u64|
            0 <= k < b.len() && #[trigger] after.statuses[t] == b[k].status.row(id) by {
            if t < w.statuses.len() {
                let (k, id) = choose|k: int, id: u64|
                    0 <= k < b.drop_last().len() && #[trigger] w.statuses[t] == b.drop_last()[k].status.row(id);
                assert(after.statuses[t] == w.statuses[t]);
                assert(b.drop_last()[k] == b[k]);
            } else {
                assert(after.statuses[t] == p.status.row(w.next_id));
                assert(b[b.len() - 1] == p);
            }
        }
    }
}

} // verus!
