//! Snapshots: what a reader may see of the changes that transactions make.

use crate::anchor::Anchor;
use crate::sequencer::Sequencer;
use crate::storage::{JournalState, Storage};
use vstd::prelude::*;

verus! {

/// A point of view on the storage: a clock of the sequencer, and optionally a transaction
/// with the transaction clock up to which its own uncommitted changes are in view.
///
/// A snapshot is a value. It holds no lock.
#[derive(Clone, Copy, Debug, PartialEq, Eq, Structural)]
pub struct Snapshot {
    /// The clock of the sequencer when the snapshot was taken.
    pub sequencer_clock: u64,
    /// The transaction that the snapshot was taken in, if any.
    pub transaction: Option<usize>,
    /// The clock of that transaction when the snapshot was taken, if any.
    pub journal_clock: Option<usize>,
}

/// Whether `snapshot` shows the changes of a journal in `state`, whose transaction `owner`
/// has the anchor `anchor`.
///
/// Only what was submitted can be seen. If the owner's commit is completed, the changes are
/// seen from the commit clock on. Before that they are seen only by snapshots taken in their
/// own transaction, at or after the transaction clock under which they were submitted.
pub open spec fn visible(snapshot: Snapshot, owner: usize, anchor: Anchor, state: JournalState)
    -> bool {
    match state {
        JournalState::Submitted(clock) => if anchor.finalized() {
            anchor.commit_snapshot <= snapshot.sequencer_clock
        } else if snapshot.transaction == Some(owner) {
            clock <= snapshot.scope()
        } else {
            false
        },
        _ => false,
    }
}

/// A change that a snapshot shows is shown by every snapshot with a clock that is not less,
/// provided that the later snapshot has the scope of the earlier one as far as the change is
/// not committed yet: the same transaction, and a transaction clock that is not less.
pub proof fn visibility_is_monotonic(
    earlier: Snapshot,
    later: Snapshot,
    owner: usize,
    anchor: Anchor,
    state: JournalState,
)
    requires
        earlier.sequencer_clock <= later.sequencer_clock,
        !anchor.finalized() ==> later.transaction == earlier.transaction && earlier.scope()
            <= later.scope(),
        visible(earlier, owner, anchor, state),
    ensures
        visible(later, owner, anchor, state),
{
}

/// A committed change that a snapshot shows is shown by every snapshot with a clock that is
/// not less, whatever the scopes of the two.
pub proof fn committed_visibility_is_monotonic(
    earlier: Snapshot,
    later: Snapshot,
    owner: usize,
    anchor: Anchor,
    state: JournalState,
)
    requires
        earlier.sequencer_clock <= later.sequencer_clock,
        anchor.finalized(),
        visible(earlier, owner, anchor, state),
    ensures
        visible(later, owner, anchor, state),
{
}

impl Snapshot {
    /// The transaction clock up to which the snapshot shows uncommitted changes of its own
    /// transaction: zero where it has none.
    pub open spec fn scope(self) -> usize {
        match self.journal_clock {
            Some(clock) => clock,
            None => 0,
        }
    }

    /// Whether the snapshot shows the changes of `journal` as `storage` knows it.
    pub open spec fn shows<S: Sequencer>(self, storage: &Storage<S>, journal: usize) -> bool {
        &&& storage.knows(journal)
        &&& storage.owner_of(journal) < storage.anchors().len()
        &&& visible(
            self,
            storage.owner_of(journal),
            storage.anchors()[storage.owner_of(journal) as int],
            storage.state_of(journal),
        )
    }

    /// Returns whether the snapshot shows the changes of a journal in `state`, whose
    /// transaction `owner` has the anchor `anchor`.
    pub fn sees(&self, owner: usize, anchor: &Anchor, state: JournalState) -> (seen: bool)
        ensures
            seen == visible(*self, owner, *anchor, state),
    {
        match state {
            JournalState::Submitted(clock) => {
                if anchor.commit_snapshot() > 0 {
                    anchor.commit_snapshot() <= self.sequencer_clock
                } else {
                    match (self.transaction, self.journal_clock) {
                        (Some(transaction), Some(scope)) => transaction == owner && clock <= scope,
                        (Some(transaction), None) => transaction == owner && clock == 0,
                        _ => false,
                    }
                }
            },
            _ => false,
        }
    }

    /// Returns whether the snapshot shows the changes of `journal` as `storage` knows it.
    pub fn sees_journal<S: Sequencer>(&self, storage: &Storage<S>, journal: usize) -> (seen: bool)
        ensures
            seen == self.shows(storage, journal),
    {
        match storage.journal(journal) {
            None => false,
            Some(entry) => match storage.anchor(entry.transaction) {
                None => false,
                Some(anchor) => self.sees(entry.transaction, &anchor, entry.state),
            },
        }
    }
}

/// No snapshot shows the changes of a journal that was discarded or is still open.
pub proof fn unsubmitted_changes_are_hidden<S: Sequencer>(
    storage: &Storage<S>,
    snapshot: Snapshot,
    journal: usize,
)
    requires
        storage.state_of(journal) == JournalState::Discarded || storage.state_of(journal)
            == JournalState::Open,
    ensures
        !snapshot.shows(storage, journal),
{
}

} // verus!
