//! The working tree must hold no pending change before anything is done.

use vstd::prelude::*;

verus! {

/// How the working tree's status is to be asked for.
#[derive(Clone, Copy, Debug, PartialEq, Eq)]
pub struct StatusQuery {
    /// Whether ignored files count as changes.
    pub include_ignored: bool,
}

/// The question whose answer decides whether the tree is clean: ignored
/// files are left out of it.
pub fn status_query() -> (query: StatusQuery)
    ensures
        !query.include_ignored,
{
    StatusQuery { include_ignored: false }
}

/// Whether a working tree with `pending_changes` entries in its status is
/// clean: it is with none, and only then.
pub fn is_clean(pending_changes: usize) -> (clean: bool)
    ensures
        clean <==> pending_changes == 0,
{
    pending_changes == 0
}

} // verus!
