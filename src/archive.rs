use crate::inserts::NewStatus;
use crate::models::{Authorship, Status};
use crate::records::{rows_needed, RecordStore, StagedPost, StoreError};
use crate::sources::{is_decimal_u64, parse_u64};
use crate::delay::digits_value;
use crate::text::chars_of;
use crate::types::{IntermediarySource, Source};
use vstd::prelude::*;
use vstd::string::{StrSliceExecFns, StringExecFns};

verus! {

/// How the archive writes a post's time.
pub const ARCHIVE_TIME_FORMAT: &'static str = "%Y-%m-%d %H:%M:%S %z";

/// The Unix time that `s` gives under format `fmt`, if it reads as a date,
/// time and offset.
pub uninterp spec fn parsed_time(s: Seq<char>, fmt: Seq<char>) -> Option<i64>;

/// Relies on `chrono::DateTime::parse_from_str` (with `timestamp`): reads a
/// date, time and offset written in format `fmt`, as seconds since the Unix
/// epoch; `None` when `s` does not follow the format.
#[verifier::external_body]
fn parse_time(s: &str, fmt: &str) -> (r: Option<i64>)
    ensures
        r == parsed_time(s@, fmt@),
{
    match chrono::DateTime::parse_from_str(s, fmt) {
        Ok(d) => Some(d.timestamp()),
        Err(_) => None,
    }
}

/// One row of the archive's post listing, as text fields.
#[derive(Clone, Debug)]
pub struct ArchiveRecord {
    pub tweet_id: String,
    pub in_reply_to_status_id: String,
    pub timestamp: String,
    pub source: String,
    pub text: String,
}

/// Why an archive row cannot be imported.
#[derive(Clone, Copy, Debug, PartialEq, Eq, Structural)]
pub enum ArchiveError {
    BadId,
    BadReplyId,
    BadDate,
}

pub open spec fn link_open() -> Seq<char> {
    seq!['<', 'a', ' ', 'h', 'r', 'e', 'f', '=', '"']
}

pub open spec fn link_close() -> Seq<char> {
    seq!['<', '/', 'a', '>']
}

/// The position of the quote that ends the link address of `t`: the first
/// quote after the opening, with at least one character before it.
pub open spec fn url_end(t: Seq<char>, q: int) -> bool {
    &&& 9 < q < t.len()
    &&& t[q] == '"'
    &&& forall|k: int| 9 <= k < q ==> t[k] != '"'
}

/// The position of the `>` after which the link text starts: the last one
/// after the address that leaves a non-empty text before the closing tag.
pub open spec fn name_start(t: Seq<char>, q: int, p: int) -> bool {
    &&& q < p < t.len() - 5
    &&& t[p] == '>'
    &&& forall|k: int| p < k < t.len() - 5 ==> t[k] != '>'
}

/// `t` is an HTML link `<a href="URL"…>NAME</a>` with address `url` and
/// text `name`.
pub open spec fn is_app_link(t: Seq<char>, url: Seq<char>, name: Seq<char>) -> bool {
    exists|q: int, p: int|
        {
            &&& t.len() >= 9 + 4
            &&& t.subrange(0, 9) == link_open()
            &&& t.subrange(t.len() - 4, t.len() as int) == link_close()
            &&& #[trigger] url_end(t, q)
            &&& #[trigger] name_start(t, q, p)
            &&& url == t.subrange(9, q)
            &&& name == t.subrange(p + 1, t.len() - 4)
        }
}

/// `t` has the link shape for no address and text.
pub open spec fn is_app_link_shape(t: Seq<char>) -> bool {
    exists|url: Seq<char>, name: Seq<char>| is_app_link(t, url, name)
}

fn starts_as_link(t: &Vec<char>) -> (r: bool)
    ensures
        r == (t@.len() >= 13 && t@.subrange(0, 9) == link_open() && t@.subrange(
            t@.len() - 4,
            t@.len() as int,
        ) == link_close()),
{
    let n = t.len();
    if n < 13 {
        return false;
    }
    let r = t[0] == '<' && t[1] == 'a' && t[2] == ' ' && t[3] == 'h' && t[4] == 'r' && t[5] == 'e' && t[6]
        == 'f' && t[7] == '=' && t[8] == '"' && t[n - 4] == '<' && t[n - 3] == '/' && t[n - 2] == 'a'
        && t[n - 1] == '>';
    proof {
        let a = t@.subrange(0, 9);
        let b = t@.subrange(n - 4, n as int);
        if r {
            assert(a =~= link_open());
            assert(b =~= link_close());
        } else if a == link_open() && b == link_close() {
            assert(a[0] == t@[0] && a[1] == t@[1] && a[2] == t@[2] && a[3] == t@[3] && a[4] == t@[4]);
            assert(a[5] == t@[5] && a[6] == t@[6] && a[7] == t@[7] && a[8] == t@[8]);
            assert(b[0] == t@[n - 4] && b[1] == t@[n - 3] && b[2] == t@[n - 2] && b[3] == t@[n - 1]);
        }
    }
    r
}

/// The app name and address that the archive's `source` field links to,
/// written `name <url>`; empty when the field is not such a link.
pub fn app_of_link(source: &str) -> (r: String)
    ensures
        forall|url: Seq<char>, name: Seq<char>|
            is_app_link(source@, url, name) ==> r@ == name + " <"@ + url + ">"@,
        !is_app_link_shape(source@) ==> r@.len() == 0,
{
    let t = chars_of(source);
    let n = t.len();
    if !starts_as_link(&t) {
        return String::new();
    }
    let mut q: usize = 9;
    while q < n && t[q] != '"'
        invariant
            9 <= q <= n,
            n == t@.len(),
            n >= 13,
            forall|k: int| 9 <= k < q ==> t@[k] != '"',
        decreases n - q,
    {
        q = q + 1;
    }
    if q == 9 || q >= n - 5 {
        proof {
            assert forall|url: Seq<char>, name: Seq<char>| !is_app_link(source@, url, name) by {
                if is_app_link(source@, url, name) {
                    let (q2, p2) = choose|q2: int, p2: int|
                        {
                            &&& #[trigger] url_end(t@, q2)
                            &&& #[trigger] name_start(t@, q2, p2)
                            &&& url == t@.subrange(9, q2)
                            &&& name == t@.subrange(p2 + 1, t@.len() - 4)
                        };
                    if q2 < q {
                        assert(t@[q2] != '"');
                    } else if q2 > q {
                        assert(t@[q as int] != '"' || q == n);
                    }
                }
            }
        }
        return String::new();
    }
    assert(url_end(t@, q as int));
    let mut p: usize = n - 6;
    while p > q && t[p] != '>'
        invariant
            q <= p <= n - 6,
            n == t@.len(),
            n >= 13,
            url_end(t@, q as int),
            forall|k: int| p < k < n - 5 ==> t@[k] != '>',
        decreases p,
    {
        p = p - 1;
    }
    if p == q {
        proof {
            assert forall|url: Seq<char>, name: Seq<char>| !is_app_link(source@, url, name) by {
                if is_app_link(source@, url, name) {
                    let (q2, p2) = choose|q2: int, p2: int|
                        {
                            &&& #[trigger] url_end(t@, q2)
                            &&& #[trigger] name_start(t@, q2, p2)
                            &&& url == t@.subrange(9, q2)
                            &&& name == t@.subrange(p2 + 1, t@.len() - 4)
                        };
                    if q2 < q {
                        assert(t@[q2] != '"');
                    } else if q2 > q {
                        assert(t@[q as int] == '"');
                    }
                }
            }
        }
        return String::new();
    }
    let url = source.substring_char(9, q);
    let name = source.substring_char(p + 1, n - 4);
    let r = String::from_str(name).concat(" <").concat(url).concat(">");
    proof {
        assert(url_end(t@, q as int));
        assert(name_start(t@, q as int, p as int));
        assert(is_app_link(source@, url@, name@));
        assert forall|url2: Seq<char>, name2: Seq<char>| is_app_link(source@, url2, name2) implies r@ == name2
            + " <"@ + url2 + ">"@ by {
            let (q2, p2) = choose|q2: int, p2: int|
                {
                    &&& #[trigger] url_end(t@, q2)
                    &&& #[trigger] name_start(t@, q2, p2)
                    &&& url2 == t@.subrange(9, q2)
                    &&& name2 == t@.subrange(p2 + 1, t@.len() - 4)
                };
            if q2 < q {
                assert(t@[q2] != '"');
            } else if q2 > q {
                assert(t@[q as int] == '"');
            }
            if p2 < p {
                assert(t@[p as int] == '>');
            } else if p2 > p {
                assert(t@[p2] == '>');
            }
        }
    }
    r
}

/// The placeholder row that archive row `rec` gives, imported at `now`.
pub open spec fn archive_row(s: NewStatus, rec: ArchiveRecord, now: i64) -> bool {
    &&& is_decimal_u64(rec.tweet_id@) && s.source_id == digits_value(rec.tweet_id@)
    &&& s.in_reply_to_status == if rec.in_reply_to_status_id@.len() == 0 {
        None
    } else {
        Some(digits_value(rec.in_reply_to_status_id@) as u64)
    }
    &&& parsed_time(rec.timestamp@, ARCHIVE_TIME_FORMAT@) == Some(s.posted_at)
    &&& (forall|url: Seq<char>, name: Seq<char>|
        is_app_link(rec.source@, url, name) ==> s.source_app@ == name + " <"@ + url + ">"@)
    &&& (!is_app_link_shape(rec.source@) ==> s.source_app@.len() == 0)
    &&& s.text == rec.text
    &&& s.author is Placeholder
    &&& s.fetched_at == now
    &&& s.fetched_via == Some(IntermediarySource::TwitterArchive)
    &&& s.deleted_at is None
    &&& !s.is_repost && s.reposted_at is None
    &&& !s.is_marked && s.marked_at is None
    &&& s.source == Source::Twitter
    &&& s.in_reply_to_user is None
    &&& s.quoting_status is None
    &&& s.public
}

/// What is wrong with archive row `rec`, if anything.
pub open spec fn row_error(rec: ArchiveRecord) -> Option<ArchiveError> {
    if !is_decimal_u64(rec.tweet_id@) {
        Some(ArchiveError::BadId)
    } else if rec.in_reply_to_status_id@.len() > 0 && !is_decimal_u64(rec.in_reply_to_status_id@) {
        Some(ArchiveError::BadReplyId)
    } else if parsed_time(rec.timestamp@, ARCHIVE_TIME_FORMAT@) is None {
        Some(ArchiveError::BadDate)
    } else {
        None
    }
}

/// Why an archive import stored nothing.
#[derive(Clone, Copy, Debug, PartialEq, Eq, Structural)]
pub enum ImportError {
    /// The row at this position cannot be imported.
    Row(usize, ArchiveError),
    Store(StoreError),
}

impl NewStatus {
    /// The placeholder row for an archive row. The archive mixes up reposts
    /// and quotes, so those fields are left for hydration to fill in.
    pub fn from_archive(rec: &ArchiveRecord, now: i64) -> (r: Result<NewStatus, ArchiveError>)
        ensures
            match r {
                Ok(s) => archive_row(s, *rec, now) && row_error(*rec) is None,
                Err(e) => row_error(*rec) == Some(e),
            },
    {
        let id = match parse_u64(rec.tweet_id.as_str()) {
            Some(id) => id,
            None => {
                return Err(ArchiveError::BadId);
            },
        };
        let reply = if rec.in_reply_to_status_id.as_str().unicode_len() == 0 {
            None
        } else {
            match parse_u64(rec.in_reply_to_status_id.as_str()) {
                Some(r) => Some(r),
                None => {
                    return Err(ArchiveError::BadReplyId);
                },
            }
        };
        let posted_at = match parse_time(rec.timestamp.as_str(), ARCHIVE_TIME_FORMAT) {
            Some(t) => t,
            None => {
                return Err(ArchiveError::BadDate);
            },
        };
        Ok(NewStatus {
            text: rec.text.clone(),
            author: Authorship::Placeholder,
            posted_at,
            fetched_at: now,
            fetched_via: Some(IntermediarySource::TwitterArchive),
            deleted_at: None,
            is_repost: false,
            reposted_at: None,
            is_marked: false,
            marked_at: None,
            source: Source::Twitter,
            source_id: id,
            source_app: app_of_link(rec.source.as_str()),
            in_reply_to_status: reply,
            in_reply_to_user: None,
            quoting_status: None,
            public: true,
        })
    }
}

proof fn lemma_rows_needed_bare(b: Seq<StagedPost>)
    requires
        forall|k: int| 0 <= k < b.len() ==> (#[trigger] b[k]).entities@.len() == 0,
    ensures
        rows_needed(b) == b.len(),
    decreases b.len(),
{
    if b.len() > 0 {
        assert forall|k: int| 0 <= k < b.drop_last().len() implies (#[trigger] b.drop_last()[k]).entities@.len()
            == 0 by {
            assert(b.drop_last()[k] == b[k]);
        }
        lemma_rows_needed_bare(b.drop_last());
        assert(b.last() == b[b.len() - 1]);
    }
}

/// Imports archive rows as placeholder statuses, each unless a status with
/// its identity is stored. Returns the store ids of the statuses stored, in
/// order; on an error nothing is stored.
pub fn slim_load(store: &mut RecordStore, records: &Vec<ArchiveRecord>, now: i64) -> (r: Result<
    Vec<u64>,
    ImportError,
>)
    requires
        old(store)@.wf(),
    ensures
        final(store)@.wf(),
        r is Err ==> final(store)@ == old(store)@,
        match r {
            Ok(ids) => exists|b: Seq<StagedPost>|
                {
                    &&& b.len() == records@.len()
                    &&& forall|k: int|
                        0 <= k < b.len() ==> archive_row((#[trigger] b[k]).status, records@[k], now)
                            && b[k].entities@.len() == 0
                    &&& final(store)@ == old(store)@.ingest(b)
                    &&& ids@ == final(store)@.statuses.subrange(
                        old(store)@.statuses.len() as int,
                        final(store)@.statuses.len() as int,
                    ).map_values(|s: Status| s.id)
                },
            Err(ImportError::Row(k, e)) => {
                &&& k < records@.len()
                &&& row_error(records@[k as int]) == Some(e)
                &&& forall|j: int| 0 <= j < k ==> (#[trigger] row_error(records@[j])) is None
            },
            Err(ImportError::Store(e)) => e == StoreError::IdsExhausted,
        },
        (r matches Err(ImportError::Store(_))) <==> ((forall|j: int|
            0 <= j < records@.len() ==> (#[trigger] row_error(records@[j])) is None) && old(store).next_id
            + records@.len() > u64::MAX),
{
    let mut b: Vec<StagedPost> = Vec::new();
    let mut k: usize = 0;
    while k < records.len()
        invariant
            k <= records@.len(),
            b@.len() == k,
            store@ == old(store)@,
            store@.wf(),
            forall|j: int|
                0 <= j < k ==> archive_row((#[trigger] b@[j]).status, records@[j], now) && b@[j].entities@.len()
                    == 0,
            forall|j: int| 0 <= j < k ==> (#[trigger] row_error(records@[j])) is None,
        decreases records.len() - k,
    {
        match NewStatus::from_archive(&records[k], now) {
            Ok(status) => {
                b.push(StagedPost { status, entities: Vec::new() });
            },
            Err(e) => {
                return Err(ImportError::Row(k, e));
            },
        }
        k = k + 1;
    }
    proof {
        lemma_rows_needed_bare(b@);
    }
    let before = store.statuses.len();
    match store.ingest(&b) {
        Ok(_) => {
            let mut ids: Vec<u64> = Vec::new();
            let mut i: usize = before;
            while i < store.statuses.len()
                invariant
                    before <= i <= store.statuses@.len(),
                    ids@ == store.statuses@.subrange(before as int, i as int).map_values(|s: Status| s.id),
                decreases store.statuses.len() - i,
            {
                ids.push(store.statuses[i].id);
                i = i + 1;
                assert(ids@ =~= store.statuses@.subrange(before as int, i as int).map_values(|s: Status| s.id));
            }
            Ok(ids)
        },
        Err(e) => Err(ImportError::Store(e)),
    }
}

} // verus!
