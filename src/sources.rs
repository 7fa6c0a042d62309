use crate::deletions::{delete_request, DeleteError, RemoteDelete};
use crate::delay::digits_value;
use crate::models::Status;
use crate::text::chars_of;
use crate::types::{IntermediarySource, Source};
use vstd::prelude::*;

verus! {

/// Why a source handler could not be loaded.
#[derive(Clone, Debug)]
pub enum LoadError {
    /// A setting is missing from the environment; the name of the variable.
    Env(String),
    /// The account id setting is not a decimal number that fits 64 bits.
    BadUserId,
}

/// `t` writes a number of at most 64 bits in decimal digits.
pub open spec fn is_decimal_u64(t: Seq<char>) -> bool {
    &&& t.len() > 0
    &&& forall|i: int| 0 <= i < t.len() ==> '0' <= #[trigger] t[i] <= '9'
    &&& digits_value(t) <= u64::MAX
}

/// The number that `text` writes in decimal digits, if it fits 64 bits.
pub fn parse_u64(text: &str) -> (r: Option<u64>)
    ensures
        match r {
            Some(n) => is_decimal_u64(text@) && n == digits_value(text@),
            None => !is_decimal_u64(text@),
        },
{
    let t = chars_of(text);
    if t.len() == 0 {
        return None;
    }
    let mut v: u64 = 0;
    let mut i: usize = 0;
    while i < t.len()
        invariant
            i <= t@.len(),
            t@ == text@,
            forall|k: int| 0 <= k < i ==> '0' <= #[trigger] t@[k] <= '9',
            v == digits_value(t@.take(i as int)),
        decreases t.len() - i,
    {
        let c = t[i];
        assert(t@.take(i + 1).drop_last() =~= t@.take(i as int));
        if c < '0' || c > '9' {
            return None;
        }
        let d = (c as u32 - '0' as u32) as u64;
        if v > (u64::MAX - d) / 10 {
            proof {
                if is_decimal_u64(t@) {
                    lemma_digits_value_prefix(t@, i + 1);
                }
            }
            return None;
        }
        v = v * 10 + d;
        i = i + 1;
    }
    assert(t@.take(i as int) =~= t@);
    Some(v)
}

proof fn lemma_digits_value_prefix(t: Seq<char>, i: int)
    requires
        0 <= i <= t.len(),
        forall|k: int| 0 <= k < t.len() ==> '0' <= #[trigger] t[k] <= '9',
    ensures
        digits_value(t.take(i)) <= digits_value(t),
    decreases t.len() - i,
{
    if i < t.len() {
        lemma_digits_value_prefix(t, i + 1);
        assert(t.take(i + 1).drop_last() =~= t.take(i));
    } else {
        assert(t.take(i) =~= t);
    }
}

/// What every source handler offers.
pub trait StatusSource {
    /// The platform whose posts the handler deals with.
    fn source(&self) -> Source;

    /// The import path the handler reads from, if not the platform's feed.
    fn intermediary(&self) -> Option<IntermediarySource>;

    /// The remote operation that deletes `status`, or why there is none.
    fn delete_request(&self, status: &Status) -> Result<RemoteDelete, DeleteError>;
}

/// Handler for the account's own timeline on the platform.
#[derive(Clone, Copy, Debug, PartialEq, Eq, Structural)]
pub struct Twitter {
    /// The account whose posts are archived and deleted.
    pub id: u64,
}

impl Twitter {
    pub fn source() -> (r: Source)
        ensures
            r == Source::Twitter,
    {
        Source::Twitter
    }

    /// A handler for the account whose id `user_id` writes in decimal.
    pub fn load(user_id: &str) -> (r: Result<Twitter, LoadError>)
        ensures
            match r {
                Ok(t) => is_decimal_u64(user_id@) && t.id == digits_value(user_id@),
                Err(e) => !is_decimal_u64(user_id@) && e is BadUserId,
            },
    {
        match parse_u64(user_id) {
            Some(id) => Ok(Twitter { id }),
            None => Err(LoadError::BadUserId),
        }
    }
}

impl StatusSource for Twitter {
    fn source(&self) -> Source {
        Source::Twitter
    }

    fn intermediary(&self) -> Option<IntermediarySource> {
        None
    }

    fn delete_request(&self, status: &Status) -> Result<RemoteDelete, DeleteError> {
        delete_request(status)
    }
}

/// Handler for an offline archive of the account's posts; it can import,
/// not delete.
#[derive(Clone, Debug)]
pub struct TwitterArchive {
    pub twitter: Twitter,
    /// Where the archive file is.
    pub path: String,
}

impl TwitterArchive {
    pub fn source() -> (r: Source)
        ensures
            r == Source::Twitter,
    {
        Source::Twitter
    }

    pub fn load(twitter: Twitter, path: String) -> (r: TwitterArchive)
        ensures
            r.twitter == twitter,
            r.path == path,
    {
        TwitterArchive { twitter, path }
    }
}

impl StatusSource for TwitterArchive {
    fn source(&self) -> Source {
        Source::Twitter
    }

    fn intermediary(&self) -> Option<IntermediarySource> {
        Some(IntermediarySource::TwitterArchive)
    }

    fn delete_request(&self, status: &Status) -> Result<RemoteDelete, DeleteError> {
        Err(DeleteError::Unimplemented)
    }
}

/// A loaded source handler.
#[derive(Clone, Debug)]
pub enum Handler {
    Twitter(Twitter),
    Archive(TwitterArchive),
}

impl Handler {
    pub open spec fn source_of(self) -> Source {
        Source::Twitter
    }

    pub fn source(&self) -> (r: Source)
        ensures
            r == self.source_of(),
    {
        match self {
            Handler::Twitter(_) => Source::Twitter,
            Handler::Archive(_) => Source::Twitter,
        }
    }

    /// The remote operation that deletes `status`: the timeline handler
    /// deletes (or un-reposts) the platform's posts not yet deleted; the
    /// archive handler cannot delete.
    pub fn delete_request(&self, status: &Status) -> (r: Result<RemoteDelete, DeleteError>)
        ensures
            match self {
                Handler::Archive(_) => r matches Err(DeleteError::Unimplemented),
                Handler::Twitter(_) => {
                    &&& status.deleted_at is Some ==> (r matches Err(DeleteError::AlreadyDone))
                    &&& status.deleted_at is None && status.source != Source::Twitter ==> (r matches Err(
                        DeleteError::WrongSource,
                    ))
                    &&& status.deleted_at is None && status.source == Source::Twitter ==> r == Ok::<
                        RemoteDelete,
                        DeleteError,
                    >(
                        if status.is_repost {
                            RemoteDelete::Unrepost(status.source_id)
                        } else {
                            RemoteDelete::Delete(status.source_id)
                        },
                    )
                },
            },
    {
        match self {
            Handler::Twitter(_) => delete_request(status),
            Handler::Archive(_) => Err(DeleteError::Unimplemented),
        }
    }
}

/// The loaded handlers, at most one per source.
#[derive(Clone, Debug)]
pub struct Sources {
    pub handlers: Vec<Handler>,
}

impl Sources {
    pub open spec fn wf(&self) -> bool {
        forall|i: int, j: int|
            0 <= i < j < self.handlers@.len() ==> (#[trigger] self.handlers@[i]).source_of()
                != (#[trigger] self.handlers@[j]).source_of()
    }

    pub fn new() -> (r: Sources)
        ensures
            r.wf(),
            r.handlers@.len() == 0,
    {
        Sources { handlers: Vec::new() }
    }

    /// The handler registered for `src`.
    pub fn get(&self, src: Source) -> (r: Option<&Handler>)
        ensures
            match r {
                Some(h) => exists|i: int|
                    0 <= i < self.handlers@.len() && self.handlers@[i] == *h && h.source_of() == src,
                None => forall|i: int| 0 <= i < self.handlers@.len() ==> (#[trigger] self.handlers@[i]).source_of() != src,
            },
    {
        let mut i: usize = 0;
        while i < self.handlers.len()
            invariant
                i <= self.handlers@.len(),
                forall|k: int| 0 <= k < i ==> (#[trigger] self.handlers@[k]).source_of() != src,
            decreases self.handlers.len() - i,
        {
            if self.handlers[i].source() == src {
                return Some(&self.handlers[i]);
            }
            i = i + 1;
        }
        None
    }

    /// Registers `h` for its source, replacing the handler registered for
    /// that source before.
    pub fn insert(&mut self, h: Handler)
        requires
            old(self).wf(),
        ensures
            final(self).wf(),
            exists|i: int| 0 <= i < final(self).handlers@.len() && final(self).handlers@[i] == h,
            forall|i: int|
                0 <= i < final(self).handlers@.len() ==> (#[trigger] final(self).handlers@[i]) == h || (
                final(self).handlers@[i].source_of() != h.source_of() && old(self).handlers@.contains(
                    final(self).handlers@[i],
                )),
            forall|i: int|
                0 <= i < old(self).handlers@.len() && (#[trigger] old(self).handlers@[i]).source_of()
                    != h.source_of() ==> final(self).handlers@.contains(old(self).handlers@[i]),
    {
        let src = h.source();
        let mut i: usize = 0;
        while i < self.handlers.len()
            invariant
                i <= self.handlers@.len(),
                self.handlers@ == old(self).handlers@,
                old(self).wf(),
                src == h.source_of(),
                forall|k: int| 0 <= k < i ==> (#[trigger] self.handlers@[k]).source_of() != src,
            decreases self.handlers.len() - i,
        {
            if self.handlers[i].source() == src {
                self.handlers.set(i, h);
                proof {
                    let hs = self.handlers@;
                    let os = old(self).handlers@;
                    assert forall|a: int| 0 <= a < hs.len() && a != i implies #[trigger] hs[a] == os[a] by {}
                    assert(hs[i as int] == h);
                    assert forall|a: int, b: int| 0 <= a < b < hs.len() implies (#[trigger] hs[a]).source_of()
                        != (#[trigger] hs[b]).source_of() by {
                        assert(os[a].source_of() != os[b].source_of());
                        if a == i {
                            assert(hs[b] == os[b]);
                        } else if b == i {
                            assert(hs[a] == os[a]);
                        } else {
                            assert(hs[a] == os[a] && hs[b] == os[b]);
                        }
                    }
                    assert forall|a: int| 0 <= a < hs.len() && (#[trigger] hs[a]) != h implies os.contains(hs[a]) by {
                        assert(hs[a] == os[a]);
                    }
                    assert forall|a: int|
                        0 <= a < os.len() && (#[trigger] os[a]).source_of() != src implies hs.contains(os[a]) by {
                        assert(a != i);
                        assert(hs[a] == os[a]);
                    }
                }
                return;
            }
            i = i + 1;
        }
        self.handlers.push(h);
        proof {
            let hs = self.handlers@;
            let os = old(self).handlers@;
            assert(hs[os.len() as int] == h);
            assert forall|a: int, b: int| 0 <= a < b < hs.len() implies (#[trigger] hs[a]).source_of()
                != (#[trigger] hs[b]).source_of() by {
                assert(hs[a] == os[a]);
                if b < os.len() {
                    assert(hs[b] == os[b]);
                }
            }
            assert forall|a: int| 0 <= a < hs.len() && (#[trigger] hs[a]) != h implies os.contains(hs[a]) by {
                assert(hs[a] == os[a]);
            }
            assert forall|a: int|
                0 <= a < os.len() && (#[trigger] os[a]).source_of() != src implies hs.contains(os[a]) by {
                assert(hs[a] == os[a]);
            }
        }
    }
}

} // verus!
