use vstd::prelude::*;

verus! {

/// Platform that a post originates from.
#[derive(Clone, Copy, Debug, PartialEq, Eq, Structural, Hash, PartialOrd, Ord)]
pub enum Source {
    Twitter,
    Mastodon,
}

/// Import path through which a record entered the store, when not the
/// platform's own feed.
#[derive(Clone, Copy, Debug, PartialEq, Eq, Structural, Hash, PartialOrd, Ord)]
pub enum IntermediarySource {
    TwitterArchive,
}

/// Kind of a media attachment.
#[derive(Clone, Copy, Debug, PartialEq, Eq, Structural, Hash, PartialOrd, Ord)]
pub enum MediaType {
    Photo,
    Video,
    Gif,
}

/// How the deletion executor treats each due request.
#[derive(Clone, Copy, Debug, PartialEq, Eq, Structural)]
pub enum ActionMode {
    /// Act on every due request.
    Auto,
    /// Only report what would be done.
    DryRun,
    /// Ask the operator before acting on each request.
    Interactive,
}

impl Default for ActionMode {
    fn default() -> (r: Self)
        ensures
            r == ActionMode::Auto,
    {
        ActionMode::Auto
    }
}

} // verus!
