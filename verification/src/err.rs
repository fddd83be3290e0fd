//! Error kinds for tree lookups and mutations.

use vstd::prelude::*;

verus! {

/// A recoverable, typed error returned by tree operations.
#[derive(Clone, Copy, PartialEq, Eq, Structural, Debug)]
pub enum GewyError {
    /// A stale or unknown node identifier was dereferenced.
    NodeNotFound,
    /// An insertion's target parent does not exist; the allocation is rolled
    /// back, so the arena never retains an orphan.
    ParentNodeNotFound,
}

} // verus!
