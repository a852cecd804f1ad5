//! Transactions, and the fence between committing a transaction and completing the commit.

use crate::anchor::Anchor;
use crate::error::Error;
use crate::journal::{Annals, Journal};
use crate::sequencer::{Sequencer, DEFAULT_CLOCK};
use crate::snapshot::Snapshot;
use crate::storage::{JournalAnchor, JournalState, Storage};
use vstd::prelude::*;

verus! {

/// Whether one of `annals` holds the changes of `journal`.
pub open spec fn names(annals: Seq<Annals>, journal: int) -> bool {
    exists|k: int| 0 <= k < annals.len() && #[trigger] annals[k].journal == journal
}

/// The registry of journals after the changes in `annals` have been reverted: the journals
/// that `annals` names are discarded, and nothing else has changed.
pub open spec fn reverted(journals: Seq<JournalAnchor>, annals: Seq<Annals>) -> Seq<JournalAnchor> {
    Seq::new(
        journals.len(),
        |j: int|
            if names(annals, j) {
                JournalAnchor { transaction: journals[j].transaction, state: JournalState::Discarded }
            } else {
                journals[j]
            },
    )
}

/// Reverting the changes of the annals from `from` on comes to reverting those from
/// `from + 1` on and then discarding the journal of the annals at `from`.
proof fn reverted_step(journals: Seq<JournalAnchor>, annals: Seq<Annals>, from: int)
    requires
        0 <= from < annals.len(),
    ensures
        annals[from].journal < journals.len() ==> reverted(journals, annals.skip(from))
            == reverted(journals, annals.skip(from + 1)).update(
            annals[from].journal as int,
            JournalAnchor {
                transaction: journals[annals[from].journal as int].transaction,
                state: JournalState::Discarded,
            },
        ),
        annals[from].journal >= journals.len() ==> reverted(journals, annals.skip(from))
            == reverted(journals, annals.skip(from + 1)),
{
    let more = annals.skip(from);
    let fewer = annals.skip(from + 1);
    let journal = annals[from].journal as int;
    assert forall|j: int| names(more, j) == (j == journal || names(fewer, j)) by {
        assert(more[0].journal == journal);
        if names(fewer, j) {
            let k = choose|k: int| 0 <= k < fewer.len() && #[trigger] fewer[k].journal == j;
            assert(more[k + 1].journal == j);
        }
        if names(more, j) && j != journal {
            let k = choose|k: int| 0 <= k < more.len() && #[trigger] more[k].journal == j;
            assert(fewer[k - 1].journal == j);
        }
    }
    if journal < journals.len() {
        assert(reverted(journals, more) =~= reverted(journals, fewer).update(
            journal,
            JournalAnchor {
                transaction: journals[journal].transaction,
                state: JournalState::Discarded,
            },
        ));
    } else {
        assert(reverted(journals, more) =~= reverted(journals, fewer));
    }
}

/// Whether `records` are the record of the transaction `transaction` as the registry
/// `journals` knows it: the annals bear the clocks 1, 2, 3 and so on, and the journal of each
/// is registered as a journal of the transaction that was submitted under that clock.
pub open spec fn recorded(records: Seq<Annals>, journals: Seq<JournalAnchor>, transaction: usize)
    -> bool {
    forall|i: int|
        0 <= i < records.len() ==> {
            &&& (#[trigger] records[i]).clock == i + 1
            &&& records[i].journal < journals.len()
            &&& journals[records[i].journal as int] == (JournalAnchor {
                transaction,
                state: JournalState::Submitted((i + 1) as usize),
            })
        }
}

/// A snapshot that is taken in a transaction whose commit is not completed shows the changes
/// that the transaction had recorded up to the snapshot's transaction clock, and none that it
/// recorded later.
pub proof fn own_snapshot_shows_the_record<S: Sequencer>(
    storage: &Storage<S>,
    records: Seq<Annals>,
    transaction: usize,
    snapshot: Snapshot,
    at: int,
)
    requires
        recorded(records, storage.journals(), transaction),
        transaction < storage.anchors().len(),
        !storage.finalized(transaction),
        snapshot.transaction == Some(transaction),
        0 <= at < records.len(),
    ensures
        snapshot.shows(storage, records[at].journal) == (records[at].clock <= snapshot.scope()),
{
    assert(records[at].clock == at + 1);
}

/// Reverting the changes in `annals` hides them for good and touches nothing else: in the
/// storage `after` no snapshot shows the changes of a journal that `annals` names, as if it
/// had never been submitted, and every snapshot shows of the other journals what it showed
/// `before`.
pub proof fn reverting_hides_what_it_reverts<S: Sequencer>(
    before: &Storage<S>,
    after: &Storage<S>,
    annals: Seq<Annals>,
    snapshot: Snapshot,
    journal: usize,
)
    requires
        after.journals() == reverted(before.journals(), annals),
        after.anchors() == before.anchors(),
    ensures
        names(annals, journal as int) ==> !snapshot.shows(after, journal),
        !names(annals, journal as int) ==> snapshot.shows(after, journal) == snapshot.shows(
            before,
            journal,
        ),
{
}

/// Rewinding to the clock at which a journal was submitted undoes the submission: the record
/// is what it was before.
pub proof fn rewinding_undoes_submitting(records: Seq<Annals>, annals: Annals)
    ensures
        records.push(annals).take(records.len() as int) == records,
        records.push(annals).skip(records.len() as int) == seq![annals],
{
    assert(records.push(annals).take(records.len() as int) =~= records);
    assert(records.push(annals).skip(records.len() as int) =~= seq![annals]);
}

/// Completing a commit divides the snapshots: in the storage `after` the commit, the
/// submitted changes of the transaction are shown by no snapshot that was taken `before`, and
/// by every snapshot that is taken `after`.
pub proof fn commit_divides_snapshots<S: Sequencer>(
    before: &Storage<S>,
    after: &Storage<S>,
    transaction: usize,
    journal: usize,
    earlier: Snapshot,
    later: Snapshot,
)
    requires
        transaction < before.anchors().len(),
        !before.finalized(transaction),
        after.now() > before.now(),
        after.journals() == before.journals(),
        after.anchors() == before.anchors().update(
            transaction as int,
            Anchor {
                preliminary_snapshot: before.anchors()[transaction as int].preliminary_snapshot,
                commit_snapshot: after.now(),
            },
        ),
        before.knows(journal),
        before.owner_of(journal) == transaction,
        before.state_of(journal) is Submitted,
        earlier.sequencer_clock <= before.now(),
        later.sequencer_clock >= after.now(),
    ensures
        !earlier.shows(after, journal),
        later.shows(after, journal),
{
}

/// [`Transaction`] is the atomic unit of work for all types of storage operations.
///
/// A single strand of [`Journal`] constitutes a [`Transaction`]. An on-going transaction can
/// be rewound to a certain point of time by reverting submitted [`Journal`] instances.
#[derive(Debug)]
pub struct Transaction {
    /// The place of the transaction's anchor in the registry of the storage.
    id: usize,
    /// The changes made by the transaction.
    record: Vec<Annals>,
}

impl Transaction {
    /// The place of the transaction in the registry of the storage.
    pub closed spec fn id(&self) -> usize {
        self.id
    }

    /// The annals of the submitted journals, in the order in which they were submitted.
    pub closed spec fn records(&self) -> Seq<Annals> {
        self.record@
    }

    /// The local clock of the transaction: the number of submitted journals that it holds.
    pub open spec fn spec_clock(&self) -> usize {
        self.records().len() as usize
    }

    /// Creates a new [`Transaction`] and registers it with `storage`.
    pub fn new<S: Sequencer>(storage: &mut Storage<S>) -> (transaction: Transaction)
        ensures
            transaction.id() == old(storage).anchors().len(),
            transaction.records() == Seq::<Annals>::empty(),
            transaction.in_step(final(storage)),
            final(storage).anchors() == old(storage).anchors().push(Anchor::initial()),
            final(storage).journals() == old(storage).journals(),
            final(storage).now() == old(storage).now(),
            old(storage).consistent() ==> final(storage).consistent(),
            old(storage).evolves(final(storage)),
    {
        let id = storage.enroll();
        Transaction { id, record: Vec::new() }
    }

    /// Returns the place of the transaction in the registry of the storage.
    pub fn place(&self) -> (id: usize)
        ensures
            id == self.id(),
    {
        self.id
    }

    /// Starts a new [`Journal`].
    ///
    /// A [`Journal`] keeps storage changes until it is discarded. In order to make the changes
    /// permanent, the [`Journal`] has to be submitted.
    pub fn start<S: Sequencer>(&self, storage: &mut Storage<S>) -> (journal: Journal)
        ensures
            journal.id() == old(storage).journals().len(),
            journal.transaction() == self.id(),
            journal.entries() == Seq::<u64>::empty(),
            journal.attached(final(storage)),
            self.in_step(old(storage)) ==> self.in_step(final(storage)),
            final(storage).journals() == old(storage).journals().push(
                JournalAnchor { transaction: self.id(), state: JournalState::Open },
            ),
            final(storage).anchors() == old(storage).anchors(),
            final(storage).now() == old(storage).now(),
            old(storage).consistent() ==> final(storage).consistent(),
            old(storage).evolves(final(storage)),
    {
        Journal::new(storage, self.id)
    }

    /// Takes a snapshot of the storage including changes pending in the submitted [`Journal`]
    /// instances.
    pub fn snapshot<S: Sequencer>(&self, storage: &Storage<S>) -> (snapshot: Snapshot)
        ensures
            snapshot == (Snapshot {
                sequencer_clock: storage.now(),
                transaction: Some(self.id()),
                journal_clock: Some(self.clock()),
            }),
    {
        Snapshot {
            sequencer_clock: storage.clock(),
            transaction: Some(self.id),
            journal_clock: Some(self.clock()),
        }
    }

    /// Gets the current local clock value of the [`Transaction`].
    ///
    /// It returns the number of submitted Journal instances.
    #[verifier::when_used_as_spec(spec_clock)]
    pub fn clock(&self) -> (clock: usize)
        ensures
            clock == self.records().len(),
            clock == self.clock(),
    {
        self.record.len()
    }

    /// Rewinds the [`Transaction`] to the given point of time.
    ///
    /// All the changes made between the latest transaction clock and the given one are
    /// reverted, the latest first: the annals behind the given clock leave the record, and
    /// their journals are discarded.
    ///
    /// # Errors
    ///
    /// If the given clock is greater than the transaction clock, [`Error::Fail`] is returned
    /// and nothing changes.
    pub fn rewind<S: Sequencer>(&mut self, storage: &mut Storage<S>, clock: usize) -> (result:
        Result<usize, Error>)
        ensures
            final(self).id() == old(self).id(),
            final(storage).anchors() == old(storage).anchors(),
            final(storage).now() == old(storage).now(),
            old(storage).consistent() ==> final(storage).consistent(),
            old(storage).evolves(final(storage)),
            old(self).in_step(old(storage)) ==> final(self).in_step(final(storage)),
            match result {
                Ok(new_clock) => {
                    &&& clock <= old(self).clock()
                    &&& new_clock == clock
                    &&& final(self).clock() == clock
                    &&& final(self).records() == old(self).records().take(clock as int)
                    &&& final(storage).journals() == reverted(
                        old(storage).journals(),
                        old(self).records().skip(clock as int),
                    )
                },
                Err(e) => {
                    &&& clock > old(self).clock()
                    &&& e == Error::Fail
                    &&& final(self).records() == old(self).records()
                    &&& final(storage).journals() == old(storage).journals()
                },
            },
    {
        if clock > self.record.len() {
            return Err(Error::Fail);
        }
        self.revert(storage, clock);
        Ok(self.record.len())
    }

    /// Commits the changes made by the [`Transaction`].
    ///
    /// It stamps the current clock of the sequencer on the transaction's anchor as the
    /// preliminary snapshot and returns a [`Rubicon`], giving one last chance to roll back
    /// the transaction. The commit snapshot stays [`DEFAULT_CLOCK`] until the [`Rubicon`]
    /// completes the commit.
    ///
    /// # Errors
    ///
    /// If `storage` holds no untouched anchor for the transaction, [`Error::Fail`] is returned
    /// and nothing changes.
    pub fn commit<S: Sequencer>(self, storage: &mut Storage<S>) -> (result: Result<Rubicon, Error>)
        ensures
            final(storage).journals() == old(storage).journals(),
            final(storage).now() == old(storage).now(),
            old(storage).consistent() ==> final(storage).consistent(),
            old(storage).evolves(final(storage)),
            match result {
                Ok(rubicon) => {
                    &&& self.untouched(old(storage))
                    &&& rubicon.id() == self.id()
                    &&& rubicon.records() == self.records()
                    &&& final(storage).anchors() == old(storage).anchors().update(
                        self.id() as int,
                        Anchor {
                            preliminary_snapshot: old(storage).now(),
                            commit_snapshot: DEFAULT_CLOCK,
                        },
                    )
                },
                Err(e) => {
                    &&& !self.untouched(old(storage))
                    &&& e == Error::Fail
                    &&& final(storage).anchors() == old(storage).anchors()
                },
            },
    {
        match storage.anchor(self.id) {
            Some(anchor) => {
                if anchor.preliminary_snapshot() != DEFAULT_CLOCK || anchor.commit_snapshot()
                    != DEFAULT_CLOCK {
                    return Err(Error::Fail);
                }
            },
            None => {
                return Err(Error::Fail);
            },
        }
        // Assigns a new logical clock.
        let preliminary_snapshot = storage.clock();
        storage.publish(self.id, Anchor { preliminary_snapshot, commit_snapshot: DEFAULT_CLOCK });
        Ok(Rubicon { transaction: self })
    }

    /// Rolls back the changes made by the [`Transaction`]: all its annals leave the record, the
    /// latest first, and their journals are discarded.
    pub fn rollback<S: Sequencer>(self, storage: &mut Storage<S>)
        ensures
            final(storage).journals() == reverted(old(storage).journals(), self.records()),
            final(storage).anchors() == old(storage).anchors(),
            final(storage).now() == old(storage).now(),
            old(storage).consistent() ==> final(storage).consistent(),
            old(storage).evolves(final(storage)),
    {
        let mut transaction = self;
        assert(self.records().skip(0) =~= self.records());
        transaction.revert(storage, 0);
    }

    /// Whether the record of the transaction agrees with what `storage` knows of its
    /// journals.
    pub open spec fn in_step<S: Sequencer>(&self, storage: &Storage<S>) -> bool {
        recorded(self.records(), storage.journals(), self.id())
    }

    /// Whether `storage` holds an anchor for the transaction that no commit has stamped.
    pub open spec fn untouched<S: Sequencer>(&self, storage: &Storage<S>) -> bool {
        &&& self.id() < storage.anchors().len()
        &&& storage.anchors()[self.id() as int] == Anchor::initial()
    }

    /// Takes [`Annals`], and records them under the next transaction clock.
    pub(crate) fn record(&mut self, record: Annals) -> (clock: usize)
        ensures
            clock == old(self).records().len() + 1,
            clock == old(self).clock() + 1,
            clock == final(self).clock(),
            final(self).id() == old(self).id(),
            final(self).records() == old(self).records().push(Annals { clock, ..record }),
    {
        self.record.push(record);
        let new_clock = self.record.len();
        // The clock is assigned after the annals have been moved to the record.
        self.record[new_clock - 1].assign_clock(new_clock);
        assert(self.record@ =~= old(self).record@.push(Annals { clock: new_clock, ..record }));
        new_clock
    }

    /// Takes the annals behind `clock` off the record, the latest first, and discards their
    /// journals.
    fn revert<S: Sequencer>(&mut self, storage: &mut Storage<S>, clock: usize)
        requires
            clock <= old(self).clock(),
        ensures
            final(self).id() == old(self).id(),
            final(self).records() == old(self).records().take(clock as int),
            final(storage).journals() == reverted(
                old(storage).journals(),
                old(self).records().skip(clock as int),
            ),
            final(storage).anchors() == old(storage).anchors(),
            final(storage).now() == old(storage).now(),
            old(storage).consistent() ==> final(storage).consistent(),
            old(storage).evolves(final(storage)),
            old(self).in_step(old(storage)) ==> final(self).in_step(final(storage)),
    {
        let ghost record = self.record@;
        let ghost journals = storage.journals();
        assert(reverted(journals, record.skip(record.len() as int)) =~= journals);
        while self.record.len() > clock
            invariant
                clock <= self.record@.len() <= record.len(),
                self.id == old(self).id,
                record == old(self).record@,
                journals == old(storage).journals(),
                self.record@ == record.take(self.record@.len() as int),
                storage.journals() == reverted(journals, record.skip(self.record@.len() as int)),
                storage.anchors() == old(storage).anchors(),
                storage.now() == old(storage).now(),
            decreases self.record@.len(),
        {
            let ghost from = self.record@.len() - 1;
            proof {
                reverted_step(journals, record, from);
            }
            // Changes should be reverted from the back of the record.
            match self.record.pop() {
                Some(annals) => {
                    if storage.journal(annals.journal).is_some() {
                        storage.settle(annals.journal, JournalState::Discarded);
                    }
                },
                None => {},
            }
            assert(self.record@ =~= record.take(self.record@.len() as int));
        }
    }
}

/// [`Rubicon`] gives one last chance of rolling back the transaction.
///
/// The transaction stays uncommitted until the [`Rubicon`] completes the commit.
#[derive(Debug)]
pub struct Rubicon {
    transaction: Transaction,
}

impl Rubicon {
    /// The place of the transaction in the registry of the storage.
    pub closed spec fn id(&self) -> usize {
        self.transaction.id()
    }

    /// The annals that the transaction holds.
    pub closed spec fn records(&self) -> Seq<Annals> {
        self.transaction.records()
    }

    /// Commits the transaction, and returns the assigned commit snapshot of the transaction.
    ///
    /// The sequencer advances, and the clock that it gives is stamped on the transaction's
    /// anchor as the commit snapshot. That clock is not less than any clock read from the
    /// sequencer before, and greater than all of them unless the sequencer was exhausted.
    ///
    /// A commit that was completed before stays as it is, and its commit snapshot is returned.
    /// For a transaction that `storage` does not know, nothing happens and [`DEFAULT_CLOCK`]
    /// is returned.
    pub fn commit<S: Sequencer>(self, storage: &mut Storage<S>) -> (clock: u64)
        ensures
            final(storage).journals() == old(storage).journals(),
            old(storage).consistent() ==> final(storage).consistent(),
            old(storage).evolves(final(storage)),
            if self.pending(old(storage)) {
                &&& clock == final(storage).now()
                &&& clock >= old(storage).now()
                &&& clock > DEFAULT_CLOCK
                &&& old(storage).now() < u64::MAX ==> clock > old(storage).now()
                &&& final(storage).anchors() == old(storage).anchors().update(
                    self.id() as int,
                    Anchor {
                        preliminary_snapshot: old(storage).anchors()[self.id()
                            as int].preliminary_snapshot,
                        commit_snapshot: clock,
                    },
                )
            } else {
                &&& clock == if self.id() < old(storage).anchors().len() {
                    old(storage).anchors()[self.id() as int].commit_snapshot
                } else {
                    DEFAULT_CLOCK
                }
                &&& final(storage).now() == old(storage).now()
                &&& final(storage).anchors() == old(storage).anchors()
            },
    {
        match storage.anchor(self.transaction.id) {
            Some(anchor) => {
                if anchor.commit_snapshot() == DEFAULT_CLOCK {
                    Self::post_process(self.transaction, anchor, storage)
                } else {
                    anchor.commit_snapshot()
                }
            },
            None => DEFAULT_CLOCK,
        }
    }

    /// Whether `storage` holds an anchor for the transaction whose commit is not completed.
    pub open spec fn pending<S: Sequencer>(&self, storage: &Storage<S>) -> bool {
        self.id() < storage.anchors().len() && !storage.finalized(self.id())
    }

    /// Rolls back the transaction: all its annals leave the record, the latest first, and
    /// their journals are discarded. The commit snapshot stays [`DEFAULT_CLOCK`] for good.
    pub fn rollback<S: Sequencer>(self, storage: &mut Storage<S>)
        ensures
            final(storage).journals() == reverted(old(storage).journals(), self.records()),
            final(storage).anchors() == old(storage).anchors(),
            final(storage).now() == old(storage).now(),
            old(storage).consistent() ==> final(storage).consistent(),
            old(storage).evolves(final(storage)),
    {
        self.transaction.rollback(storage);
    }

    /// Commits the transaction.
    fn post_process<S: Sequencer>(transaction: Transaction, anchor: Anchor, storage: &mut Storage<
        S,
    >) -> (clock: u64)
        requires
            transaction.id() < old(storage).anchors().len(),
            anchor == old(storage).anchors()[transaction.id() as int],
            !anchor.finalized(),
        ensures
            old(storage).consistent() ==> final(storage).consistent(),
            old(storage).evolves(final(storage)),
            clock == final(storage).now(),
            clock >= old(storage).now(),
            clock > DEFAULT_CLOCK,
            old(storage).now() < u64::MAX ==> clock > old(storage).now(),
            final(storage).anchors() == old(storage).anchors().update(
                transaction.id() as int,
                Anchor {
                    preliminary_snapshot: anchor.preliminary_snapshot,
                    commit_snapshot: clock,
                },
            ),
            final(storage).journals() == old(storage).journals(),
    {
        let commit_snapshot = storage.advance();
        storage.publish(
            transaction.id,
            Anchor { preliminary_snapshot: anchor.preliminary_snapshot(), commit_snapshot },
        );
        commit_snapshot
    }
}

} // verus!
