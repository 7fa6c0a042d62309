//! Archiving of a user's social-media timeline into a record store, and
//! deferred, thread-aware deletion of the archived originals.
//!
//! Everything that decides (which records to store, how placeholders are
//! reconciled, when and what to delete) lives here and carries a contract.
//! Network and database access are left to the caller, which hands the
//! library plain values and carries out the actions it returns.

use vstd::prelude::*;
use vstd::string::StringExecFns;

pub mod types;
pub mod models;
pub mod remote;
pub mod inserts;
pub mod records;
pub mod sync;
pub mod text;
pub mod delay;
pub mod cleanup;
pub mod deletions;
pub mod hydrate;
pub mod queries;
pub mod sources;

verus! {

/// Text that marks a placeholder record in the database's row format.
pub const SLIM_MARK: &'static str = "~slim~";

/// The placeholder mark, as an owned string.
pub fn slim() -> (r: String)
    ensures
        r@ == SLIM_MARK@,
{
    String::from_str(SLIM_MARK)
}

} // verus!
pub mod archive;
