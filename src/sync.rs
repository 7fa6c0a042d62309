use crate::inserts::{NewEntity, NewStatus};
use crate::records::{
    has_status, lemma_ingest_extends, lemma_ingest_new_rows, lemma_ingest_stores_all, rows_needed, RecordStore, StagedPost, StoreError, StoreView};
use crate::models::Status;
use crate::remote::RemotePost;
use crate::types::Source;
use vstd::prelude::*;

verus! {

/// Most posts that the platform hands out of a user's history; a sync run
/// stops collecting once it holds this many.
pub const MAX_HISTORY: usize = 3200;

/// `s` may anchor the pagination of `src`: a stored original post that is
/// not known to be deleted.
pub open spec fn is_anchor_candidate(s: Status, src: Source) -> bool {
    s.source == src && !s.is_repost && s.deleted_at is None
}

pub open spec fn has_candidate(ss: Seq<Status>, src: Source, x: u64) -> bool {
    exists|i: int| 0 <= i < ss.len() && is_anchor_candidate(ss[i], src) && ss[i].source_id == x
}

/// `l` is the highest native id among the candidates, if any.
pub open spec fn is_latest(ss: Seq<Status>, src: Source, l: Option<u64>) -> bool {
    match l {
        None => forall|i: int| 0 <= i < ss.len() ==> !is_anchor_candidate(#[trigger] ss[i], src),
        Some(x) => {
            &&& has_candidate(ss, src, x)
            &&& forall|i: int|
                0 <= i < ss.len() && is_anchor_candidate(#[trigger] ss[i], src) ==> ss[i].source_id <= x
        },
    }
}

/// `p` is the highest native id among the candidates below the latest one.
pub open spec fn is_penultimate(ss: Seq<Status>, src: Source, l: Option<u64>, p: Option<u64>) -> bool {
    match l {
        None => p is None,
        Some(lx) => match p {
            None => forall|i: int|
                0 <= i < ss.len() && is_anchor_candidate(#[trigger] ss[i], src) ==> ss[i].source_id == lx,
            Some(px) => {
                &&& px < lx
                &&& has_candidate(ss, src, px)
                &&& forall|i: int|
                    0 <= i < ss.len() && is_anchor_candidate(#[trigger] ss[i], src) && ss[i].source_id
                        != lx ==> ss[i].source_id <= px
            },
        },
    }
}

/// `l` and `p` are the latest and penultimate anchors of `src` in `ss`.
pub open spec fn anchors(ss: Seq<Status>, src: Source, l: Option<u64>, p: Option<u64>) -> bool {
    is_latest(ss, src, l) && is_penultimate(ss, src, l, p)
}

/// The two most recent stored native ids of `src`, compared as numbers:
/// `(penultimate, latest)`.
pub fn latest_2_ids(store: &RecordStore, src: Source) -> (r: (Option<u64>, Option<u64>))
    ensures
        is_latest(store.statuses@, src, r.1),
        is_penultimate(store.statuses@, src, r.1, r.0),
{
    let ghost ss = store.statuses@;
    let mut latest: Option<u64> = None;
    let mut penultimate: Option<u64> = None;
    let mut i: usize = 0;
    while i < store.statuses.len()
        invariant
            i <= ss.len(),
            ss == store.statuses@,
            is_latest(ss.take(i as int), src, latest),
            is_penultimate(ss.take(i as int), src, latest, penultimate),
        decreases store.statuses.len() - i,
    {
        let s = &store.statuses[i];
        let ghost pre = ss.take(i as int);
        let ghost post = ss.take(i + 1);
        assert(post =~= pre.push(ss[i as int]));
        if s.source == src && !s.is_repost && s.deleted_at.is_none() {
            let x = s.source_id;
            assert(is_anchor_candidate(post[i as int], src));
            match latest {
                None => {
                    latest = Some(x);
                    penultimate = None;
                },
                Some(l) => {
                    if x > l {
                        penultimate = Some(l);
                        latest = Some(x);
                    } else if x < l {
                        match penultimate {
                            None => {
                                penultimate = Some(x);
                            },
                            Some(p) => {
                                if x > p {
                                    penultimate = Some(x);
                                }
                            },
                        }
                    }
                },
            }
        }
        proof {
            assert forall|j: int| 0 <= j < i implies #[trigger] post[j] == pre[j] by {}
        }
        i = i + 1;
    }
    assert(ss.take(ss.len() as int) =~= ss);
    (penultimate, latest)
}

pub open spec fn has_post_id(page: Seq<RemotePost>, id: u64) -> bool {
    exists|i: int| 0 <= i < page.len() && page[i].id == id
}

/// Whether a run stops after taking `page`, holding `collected` posts by then.
pub open spec fn ends_run(page: Seq<RemotePost>, latest: u64, collected: int) -> bool {
    has_post_id(page, latest) || page.len() == 0 || collected >= MAX_HISTORY
}

/// The rows for a run's collected posts, oldest first: `staged[k]` archives
/// the `k`-th post from the end of `bag`.
pub open spec fn stages(bag: Seq<RemotePost>, staged: Seq<StagedPost>, now: i64) -> bool {
    &&& staged.len() == bag.len()
    &&& forall|k: int|
        0 <= k < staged.len() ==> {
            &&& (#[trigger] staged[k]).status.archives_post(bag[bag.len() - 1 - k], now)
            &&& NewEntity::archive_all(staged[k].entities@, bag[bag.len() - 1 - k].media@, now)
        }
}

/// Counts of one sync run.
#[derive(Clone, Copy, Debug, PartialEq, Eq, Structural)]
pub struct SyncReport {
    /// Posts collected from the feed.
    pub fetched: usize,
    /// Statuses newly stored.
    pub inserted: usize,
}

impl SyncReport {
    /// Whether the insert count is what a run whose feed head moved by one
    /// post would give; anything else is a harmless hint (duplicates, or a
    /// post deleted from the feed), never an error.
    pub fn as_expected(&self) -> (r: bool)
        ensures
            r == (self.inserted + 1 == self.fetched),
    {
        self.fetched > 0 && self.inserted == self.fetched - 1
    }
}

/// One incremental pull of a remote feed into the store.
///
/// The run reads two anchors from the store: the latest and penultimate
/// stored native ids. The caller requests pages newest first, each bounded
/// by `cursor`, and hands each page to `take_page` until it answers false.
/// `finish` then stores what was collected, oldest first. Two anchors keep
/// the run correct when the single most recent post was deleted upstream.
#[derive(Debug)]
pub struct SyncRun {
    pub source: Source,
    /// Native id whose appearance in a page ends the run (zero when the
    /// store holds no post of the source).
    pub latest: u64,
    /// Bound for every page request: the penultimate anchor, or the latest
    /// when there is only one.
    pub cursor: Option<u64>,
    /// Posts collected so far, in feed order.
    pub bag: Vec<RemotePost>,
    pub done: bool,
}

impl SyncRun {
    pub fn start(store: &RecordStore, src: Source) -> (r: SyncRun)
        ensures
            r.source == src,
            exists|l: Option<u64>, p: Option<u64>|
                {
                    &&& #[trigger] anchors(store.statuses@, src, l, p)
                    &&& r.latest == match l {
                        Some(x) => x,
                        None => 0,
                    }
                    &&& r.cursor == if p is Some {
                        p
                    } else {
                        l
                    }
                },
            r.bag@.len() == 0,
            !r.done,
    {
        let (penultimate, latest) = latest_2_ids(store, src);
        assert(anchors(store.statuses@, src, latest, penultimate));
        let l = match latest {
            Some(x) => x,
            None => 0,
        };
        let cursor = if penultimate.is_some() {
            penultimate
        } else {
            latest
        };
        SyncRun { source: src, latest: l, cursor, bag: Vec::new(), done: false }
    }

    /// Adds one page of the feed; returns whether another page is wanted.
    pub fn take_page(&mut self, page: Vec<RemotePost>) -> (more: bool)
        requires
            !old(self).done,
        ensures
            final(self).bag@ == old(self).bag@ + page@,
            final(self).done == ends_run(page@, old(self).latest, final(self).bag@.len() as int),
            more == !final(self).done,
            final(self).source == old(self).source,
            final(self).latest == old(self).latest,
            final(self).cursor == old(self).cursor,
    {
        let mut page = page;
        let mut found = false;
        let mut i: usize = 0;
        while i < page.len()
            invariant
                i <= page@.len(),
                found == exists|j: int| 0 <= j < i && page@[j].id == self.latest,
            decreases page.len() - i,
        {
            if page[i].id == self.latest {
                found = true;
            }
            i = i + 1;
        }
        let empty = page.len() == 0;
        self.bag.append(&mut page);
        self.done = found || empty || self.bag.len() >= MAX_HISTORY;
        !self.done
    }

    /// The rows for the collected posts, oldest first, fetched at `now`.
    pub fn stage(&self, now: i64) -> (r: Vec<StagedPost>)
        ensures
            stages(self.bag@, r@, now),
    {
        let n = self.bag.len();
        let mut r: Vec<StagedPost> = Vec::new();
        let mut k: usize = 0;
        while k < n
            invariant
                n == self.bag@.len(),
                k <= n,
                r@.len() == k,
                forall|j: int|
                    0 <= j < k ==> {
                        &&& (#[trigger] r@[j]).status.archives_post(self.bag@[n - 1 - j], now)
                        &&& NewEntity::archive_all(r@[j].entities@, self.bag@[n - 1 - j].media@, now)
                    },
            decreases n - k,
        {
            let p = &self.bag[n - 1 - k];
            let status = NewStatus::from_post(p, now);
            let entities = NewEntity::from_extended(&p.media, now);
            r.push(StagedPost { status, entities });
            k = k + 1;
        }
        r
    }

    /// Stores the collected posts, oldest first, each unless its identity
    /// is stored already; a newly stored post brings its media entities.
    pub fn finish(&self, store: &mut RecordStore, now: i64) -> (r: Result<SyncReport, StoreError>)
        requires
            old(store)@.wf(),
        ensures
            final(store)@.wf(),
            exists|staged: Seq<StagedPost>|
                {
                    &&& stages(self.bag@, staged, now)
                    &&& match r {
                        Ok(rep) => {
                            &&& final(store)@ == old(store)@.ingest(staged)
                            &&& rep.fetched == self.bag@.len()
                            &&& rep.inserted == final(store)@.statuses.len() - old(store)@.statuses.len()
                        },
                        Err(e) => {
                            &&& e == StoreError::IdsExhausted
                            &&& final(store)@ == old(store)@
                            &&& old(store).next_id + rows_needed(staged) > u64::MAX
                        },
                    }
                },
    {
        let staged = self.stage(now);
        match store.ingest(&staged) {
            Ok(n) => Ok(SyncReport { fetched: self.bag.len(), inserted: n }),
            Err(e) => Err(e),
        }
    }
}

/// The posts that a run collects from `pages`, holding `bag` already:
/// pages are taken in order until one ends the run.
pub open spec fn collect(latest: u64, pages: Seq<Seq<RemotePost>>, bag: Seq<RemotePost>) -> Seq<RemotePost>
    decreases pages.len(),
{
    if pages.len() == 0 {
        bag
    } else {
        let next = bag + pages[0];
        if ends_run(pages[0], latest, next.len() as int) {
            next
        } else {
            collect(latest, pages.drop_first(), next)
        }
    }
}

pub open spec fn page_views(pages: Seq<Vec<RemotePost>>) -> Seq<Seq<RemotePost>> {
    pages.map_values(|p: Vec<RemotePost>| p@)
}

/// The posts that a run anchored at latest id `l` collects from `pages`.
pub open spec fn run_bag(l: Option<u64>, pages: Seq<Seq<RemotePost>>) -> Seq<RemotePost> {
    collect(
        match l {
            Some(x) => x,
            None => 0,
        },
        pages,
        Seq::empty(),
    )
}

/// One whole sync run over pages that the feed has handed out already:
/// takes pages in order until the run ends (later pages are ignored), then
/// stores what was collected.
pub fn sync_pages(store: &mut RecordStore, src: Source, pages: Vec<Vec<RemotePost>>, now: i64) -> (r:
    Result<SyncReport, StoreError>)
    requires
        old(store)@.wf(),
    ensures
        final(store)@.wf(),
        exists|l: Option<u64>|
            #[trigger] is_latest(old(store).statuses@, src, l) && exists|staged: Seq<StagedPost>|
                {
                    &&& #[trigger] stages(run_bag(l, page_views(pages@)), staged, now)
                    &&& match r {
                        Ok(rep) => {
                            &&& final(store)@ == old(store)@.ingest(staged)
                            &&& rep.fetched == run_bag(l, page_views(pages@)).len()
                            &&& rep.inserted == final(store)@.statuses.len()
                                - old(store)@.statuses.len()
                        },
                        Err(e) => {
                            &&& e == StoreError::IdsExhausted
                            &&& final(store)@ == old(store)@
                            &&& old(store).next_id + rows_needed(staged) > u64::MAX
                        },
                    }
                },
{
    let ghost ss0 = store.statuses@;
    let run0 = SyncRun::start(store, src);
    let mut run = run0;
    let ghost all = page_views(pages@);
    let mut pages = pages;
    proof {
        assert(run.bag@ =~= Seq::<RemotePost>::empty());
    }
    while pages.len() > 0 && !run.done
        invariant
            run.latest == run0.latest,
            run.source == src,
            collect(run.latest, all, Seq::empty()) == if run.done {
                run.bag@
            } else {
                collect(run.latest, page_views(pages@), run.bag@)
            },
        decreases pages.len(),
    {
        let ghost before = pages@;
        let page = pages.remove(0);
        proof {
            assert(page_views(before).drop_first() =~= page_views(pages@));
            assert(page_views(before)[0] == page@);
        }
        run.take_page(page);
    }
    proof {
        if !run.done {
            assert(page_views(pages@) =~= Seq::<Seq<RemotePost>>::empty());
        }
    }
    let r = run.finish(store, now);
    proof {
        let (l, p) = choose|l: Option<u64>, p: Option<u64>|
                {
                    &&& #[trigger] anchors(ss0, src, l, p)
                    &&& run0.latest == match l {
                        Some(x) => x,
                        None => 0,
                    }
                    &&& run0.cursor == if p is Some {
                        p
                    } else {
                        l
                    }
                };
        assert(run_bag(l, all) == run.bag@);
        assert(is_latest(ss0, src, l));
    }
    r
}

/// A sync run whose feed offers nothing new stores nothing: when every
/// collected post is stored already, storing the run's rows leaves the
/// store as it is, so the run reports no inserted status.
pub proof fn lemma_resync_stores_nothing(v: StoreView, bag: Seq<RemotePost>, staged: Seq<StagedPost>, now: i64)
    requires
        stages(bag, staged, now),
        forall|k: int| 0 <= k < bag.len() ==> has_status(v.statuses, Source::Twitter, (#[trigger] bag[k]).stored_id()),
    ensures
        v.ingest(staged) == v,
{
    assert forall|k: int| 0 <= k < staged.len() implies has_status(
        v.statuses,
        (#[trigger] staged[k]).status.source,
        staged[k].status.source_id,
    ) by {
        let j = bag.len() - 1 - k;
        assert(staged[k].status.archives_post(bag[j], now));
        assert(has_status(v.statuses, Source::Twitter, bag[j].stored_id()));
    }
    crate::records::lemma_ingest_known(v, staged);
}

/// `a` is a prefix of `b`.
pub open spec fn is_prefix(a: Seq<RemotePost>, b: Seq<RemotePost>) -> bool {
    a.len() <= b.len() && forall|t: int| 0 <= t < a.len() ==> #[trigger] a[t] == b[t]
}

proof fn lemma_collect_extends(x: u64, pages: Seq<Seq<RemotePost>>, bag: Seq<RemotePost>)
    ensures
        is_prefix(bag, collect(x, pages, bag)),
    decreases pages.len(),
{
    if pages.len() > 0 {
        let next = bag + pages[0];
        let c = collect(x, pages, bag);
        if !ends_run(pages[0], x, next.len() as int) {
            lemma_collect_extends(x, pages.drop_first(), next);
            assert forall|t: int| 0 <= t < bag.len() implies #[trigger] bag[t] == c[t] by {
                assert(next[t] == bag[t]);
            }
        } else {
            assert forall|t: int| 0 <= t < bag.len() implies #[trigger] bag[t] == c[t] by {
                assert(next[t] == bag[t]);
            }
        }
    }
}

/// A run whose stop id is the first run's, or the id of a post that the
/// first run collected from the pages, collects a prefix of what the first
/// run collected.
proof fn lemma_collect_stops_no_later(x1: u64, x2: u64, pages: Seq<Seq<RemotePost>>, bag: Seq<RemotePost>)
    requires
        x2 == x1 || exists|t: int|
            bag.len() <= t < collect(x1, pages, bag).len() && (#[trigger] collect(x1, pages, bag)[t]).id == x2,
    ensures
        is_prefix(collect(x2, pages, bag), collect(x1, pages, bag)),
    decreases pages.len(),
{
    if pages.len() > 0 {
        let next = bag + pages[0];
        let b1 = collect(x1, pages, bag);
        let n = next.len() as int;
        if ends_run(pages[0], x1, n) {
            if !ends_run(pages[0], x2, n) {
                assert(x2 != x1);
                let t = choose|t: int| bag.len() <= t < b1.len() && (#[trigger] b1[t]).id == x2;
                assert(next[t] == pages[0][t - bag.len()]);
                assert(has_post_id(pages[0], x2));
            }
        } else {
            lemma_collect_extends(x1, pages.drop_first(), next);
            if ends_run(pages[0], x2, n) {
                assert forall|t: int| 0 <= t < next.len() implies #[trigger] next[t] == b1[t] by {}
            } else {
                if x2 != x1 {
                    let t = choose|t: int| bag.len() <= t < b1.len() && (#[trigger] b1[t]).id == x2;
                    if t < n {
                        assert(b1[t] == next[t]);
                        assert(next[t] == pages[0][t - bag.len()]);
                        assert(has_post_id(pages[0], x2));
                    }
                    assert(collect(x1, pages.drop_first(), next)[t].id == x2);
                }
                lemma_collect_stops_no_later(x1, x2, pages.drop_first(), next);
            }
        }
    }
}

/// Syncing twice over a feed that did not change stores nothing the second
/// time: after a run anchored at `l1` stored `staged1`, a second run over
/// the same pages, whose anchor `l2` is read from the store as it is then,
/// leaves that store as it is, so its insert count is zero.
pub proof fn lemma_second_sync_stores_nothing(
    v: StoreView,
    src: Source,
    pages: Seq<Seq<RemotePost>>,
    l1: Option<u64>,
    staged1: Seq<StagedPost>,
    now1: i64,
    l2: Option<u64>,
    staged2: Seq<StagedPost>,
    now2: i64,
)
    requires
        is_latest(v.statuses, src, l1),
        stages(run_bag(l1, pages), staged1, now1),
        is_latest(v.ingest(staged1).statuses, src, l2),
        stages(run_bag(l2, pages), staged2, now2),
    ensures
        v.ingest(staged1).ingest(staged2) == v.ingest(staged1),
{
    let w = v.ingest(staged1);
    let b1 = run_bag(l1, pages);
    let b2 = run_bag(l2, pages);
    let x1: u64 = match l1 {
        Some(x) => x,
        None => 0,
    };
    let x2: u64 = match l2 {
        Some(x) => x,
        None => 0,
    };
    lemma_ingest_extends(v, staged1);
    lemma_ingest_new_rows(v, staged1);
    lemma_ingest_stores_all(v, staged1);
    match l2 {
        None => {
            if l1 is Some {
                let c = choose|c: int|
                    0 <= c < v.statuses.len() && is_anchor_candidate(v.statuses[c], src) && v.statuses[c].source_id
                        == x1;
                assert(w.statuses[c] == v.statuses[c]);
            }
        },
        Some(y) => {
            let c = choose|c: int|
                0 <= c < w.statuses.len() && is_anchor_candidate(w.statuses[c], src) && w.statuses[c].source_id == y;
            if c < v.statuses.len() {
                assert(w.statuses[c] == v.statuses[c]);
                let c1 = choose|c1: int|
                    0 <= c1 < v.statuses.len() && is_anchor_candidate(v.statuses[c1], src)
                        && v.statuses[c1].source_id == x1;
                assert(w.statuses[c1] == v.statuses[c1]);
                assert(y == x1);
            } else {
                let (k, id) = choose|k: int, id: u64|
                    0 <= k < staged1.len() && #[trigger] w.statuses[c] == staged1[k].status.row(id);
                let t = b1.len() - 1 - k;
                assert(staged1[k].status.archives_post(b1[t], now1));
                assert(b1[t].id == y);
                assert(collect(x1, pages, Seq::empty())[t].id == x2);
            }
        },
    }
    lemma_collect_stops_no_later(x1, x2, pages, Seq::empty());
    assert forall|t: int| 0 <= t < b2.len() implies has_status(
        w.statuses,
        Source::Twitter,
        (#[trigger] b2[t]).stored_id(),
    ) by {
        assert(b2[t] == b1[t]);
        let k = b1.len() - 1 - t;
        assert(staged1[k].status.archives_post(b1[t], now1));
        assert(has_status(w.statuses, staged1[k].status.source, staged1[k].status.source_id));
    }
    lemma_resync_stores_nothing(w, b2, staged2, now2);
}

} // verus!
