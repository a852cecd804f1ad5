//! The commit state of a transaction, and the shared handle that keeps it alive.

use crate::sequencer::DEFAULT_CLOCK;
use scc::ebr::Shared;
use vstd::prelude::*;

verus! {

/// [`Anchor`] contains data that is required to outlive the transaction that it belongs to.
///
/// An anchor is a value: once it has been published it never changes. A transaction that
/// moves on publishes a new anchor in place of the old one.
#[derive(Clone, Copy, Debug, PartialEq, Eq, Structural)]
pub struct Anchor {
    /// The clock value when a commit is issued.
    pub preliminary_snapshot: u64,
    /// The clock value when the commit is completed.
    pub commit_snapshot: u64,
}

impl Anchor {
    /// The anchor of a transaction that has not begun to commit.
    pub open spec fn initial() -> Anchor {
        Anchor { preliminary_snapshot: DEFAULT_CLOCK, commit_snapshot: DEFAULT_CLOCK }
    }

    /// Creates the anchor of a transaction that has not begun to commit.
    pub fn new() -> (anchor: Anchor)
        ensures
            anchor == Anchor::initial(),
    {
        Anchor { preliminary_snapshot: DEFAULT_CLOCK, commit_snapshot: DEFAULT_CLOCK }
    }

    /// Returns the clock value when the transaction starts to commit.
    pub fn preliminary_snapshot(&self) -> (clock: u64)
        ensures
            clock == self.preliminary_snapshot,
    {
        self.preliminary_snapshot
    }

    /// Returns the final commit clock value of the transaction.
    pub fn commit_snapshot(&self) -> (clock: u64)
        ensures
            clock == self.commit_snapshot,
    {
        self.commit_snapshot
    }

    /// Whether the commit of the transaction has been completed.
    pub open spec fn finalized(&self) -> bool {
        self.commit_snapshot > DEFAULT_CLOCK
    }

    /// Whether the anchor may stand in a storage whose sequencer is at `now`: neither of its
    /// clocks lies ahead of `now`, and a commit is not completed before it is issued.
    pub open spec fn settled(&self, now: u64) -> bool {
        &&& self.preliminary_snapshot <= now
        &&& self.commit_snapshot <= now
        &&& self.finalized() ==> self.preliminary_snapshot <= self.commit_snapshot
    }
}

#[verifier::external_type_specification]
#[verifier::external_body]
#[verifier::reject_recursive_types(T)]
pub struct ExShared<T>(Shared<T>);

/// The anchor that a shared handle refers to.
pub uninterp spec fn anchored(handle: Shared<Anchor>) -> Anchor;

/// `scc::ebr::Shared::new`: allocates a reference-counted instance that holds `anchor` and
/// returns the first handle to it.
#[verifier::external_body]
pub(crate) fn share(anchor: Anchor) -> (handle: Shared<Anchor>)
    ensures
        anchored(handle) == anchor,
{
    Shared::new(anchor)
}

/// `Clone` of `scc::ebr::Shared`: returns one more handle to the instance that `handle`
/// refers to, and counts it.
#[verifier::external_body]
pub(crate) fn another(handle: &Shared<Anchor>) -> (copy: Shared<Anchor>)
    ensures
        anchored(copy) == anchored(*handle),
{
    handle.clone()
}

/// `Deref` of `scc::ebr::Shared`: reads the instance that the handle refers to. Nothing
/// writes to an instance once it is shared, so every read of a handle gives the same anchor.
#[verifier::external_body]
pub(crate) fn held(handle: &Shared<Anchor>) -> (anchor: Anchor)
    ensures
        anchor == anchored(*handle),
{
    **handle
}

} // verus!
