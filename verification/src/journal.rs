//! Journals: the changes that a transaction makes, in groups that can be given up one by one.

use crate::error::Error;
use crate::record::{requested, Acquisition, RecordVersion};
use crate::sequencer::Sequencer;
use crate::snapshot::Snapshot;
use crate::storage::{JournalAnchor, JournalState, Storage};
use crate::transaction::Transaction;
use vstd::prelude::*;

verus! {

/// The changes of one submitted journal, as its transaction records them.
#[derive(Debug)]
pub struct Annals {
    /// The journal that made the changes.
    pub journal: usize,
    /// The transaction clock under which the changes were submitted; zero before that.
    pub clock: usize,
    /// The records that were changed, in the order of the changes.
    pub entries: Vec<u64>,
}

impl Annals {
    /// Creates the annals of `journal`, with no change and no clock.
    pub fn new(journal: usize) -> (annals: Annals)
        ensures
            annals.journal == journal,
            annals.clock == 0,
            annals.entries@ == Seq::<u64>::empty(),
    {
        Annals { journal, clock: 0, entries: Vec::new() }
    }

    /// Assigns the transaction clock under which the changes were submitted.
    pub fn assign_clock(&mut self, clock: usize)
        ensures
            *final(self) == (Annals { clock, ..*old(self) }),
    {
        self.clock = clock;
    }
}

/// A group of tentative changes of one transaction.
///
/// A journal ends in one of two ways: [`Journal::submit`] hands its changes to the
/// transaction, [`Journal::discard`] gives them up. Until then it holds the write locks that
/// it took.
#[derive(Debug)]
pub struct Journal {
    transaction: usize,
    annals: Annals,
}

impl Journal {
    /// The changes that the journal has made so far.
    pub closed spec fn annals(&self) -> Annals {
        self.annals
    }

    /// The place of the journal in the registry of the storage.
    pub open spec fn id(&self) -> usize {
        self.annals().journal
    }

    /// The place of the journal's transaction in the registry of the storage.
    pub closed spec fn transaction(&self) -> usize {
        self.transaction
    }

    /// The records that the journal has changed, in the order of the changes.
    pub open spec fn entries(&self) -> Seq<u64> {
        self.annals().entries@
    }

    /// Whether `storage` knows the journal as an open journal of its transaction.
    pub open spec fn attached<S: Sequencer>(&self, storage: &Storage<S>) -> bool {
        &&& storage.knows(self.id())
        &&& storage.journals()[self.id() as int] == (JournalAnchor {
            transaction: self.transaction(),
            state: JournalState::Open,
        })
    }

    /// Starts a journal of `transaction` and registers it with `storage`.
    pub(crate) fn new<S: Sequencer>(storage: &mut Storage<S>, transaction: usize) -> (journal:
        Journal)
        ensures
            journal.id() == old(storage).journals().len(),
            journal.transaction() == transaction,
            journal.entries() == Seq::<u64>::empty(),
            journal.attached(final(storage)),
            final(storage).journals() == old(storage).journals().push(
                JournalAnchor { transaction, state: JournalState::Open },
            ),
            final(storage).anchors() == old(storage).anchors(),
            final(storage).now() == old(storage).now(),
            old(storage).consistent() ==> final(storage).consistent(),
            old(storage).evolves(final(storage)),
    {
        let id = storage.open(transaction);
        Journal { transaction, annals: Annals::new(id) }
    }

    /// Returns the place of the journal in the registry of the storage.
    pub fn place(&self) -> (id: usize)
        ensures
            id == self.id(),
    {
        self.annals.journal
    }

    /// Returns the place of the journal's transaction in the registry of the storage.
    pub fn owner(&self) -> (transaction: usize)
        ensures
            transaction == self.transaction(),
    {
        self.transaction
    }

    /// Returns whether `storage` knows the journal as an open journal of its transaction.
    pub fn is_attached<S: Sequencer>(&self, storage: &Storage<S>) -> (attached: bool)
        ensures
            attached == self.attached(storage),
    {
        match storage.journal(self.annals.journal) {
            None => false,
            Some(anchor) => anchor.transaction == self.transaction && match anchor.state {
                JournalState::Open => true,
                _ => false,
            },
        }
    }

    /// Notes that the journal has changed `record`.
    pub(crate) fn note(&mut self, record: u64)
        ensures
            final(self).id() == old(self).id(),
            final(self).transaction() == old(self).transaction(),
            final(self).entries() == old(self).entries().push(record),
    {
        self.annals.entries.push(record);
    }

    /// Asks for the write lock of `record`, at the time `now`, and installs the version that
    /// `constructor` gives if the lock is granted; [`requested`] says how the request goes on.
    ///
    /// After `Blocked` the request is to be made again when the journal is woken or the
    /// deadline comes.
    pub fn create<S: Sequencer, T, F: FnOnce() -> Result<Option<T>, Error>>(
        &mut self,
        storage: &Storage<S>,
        record: &mut RecordVersion<T>,
        constructor: F,
        now: u64,
        deadline: Option<u64>,
    ) -> (result: Result<Acquisition, Error>)
        requires
            constructor.requires(()),
        ensures
            requested(
                storage,
                old(record),
                final(record),
                old(self),
                final(self),
                constructor,
                now,
                deadline,
                result,
            ),
            old(self).attached(storage) && old(record).sound(storage) ==> final(record).sound(
                storage,
            ),
            old(self).attached(storage) && result == Ok::<Acquisition, Error>(
                Acquisition::Acquired,
            ) ==> final(record).holder(storage) == Some(old(self).id()),
    {
        record.create(storage, self, constructor, now, deadline)
    }

    /// Takes a snapshot within the journal: of the storage at the current clock, and of the
    /// journal's transaction at its current clock.
    pub fn snapshot<S: Sequencer>(&self, storage: &Storage<S>, transaction: &Transaction) -> (snapshot:
        Snapshot)
        requires
            self.transaction() == transaction.id(),
        ensures
            snapshot == (Snapshot {
                sequencer_clock: storage.now(),
                transaction: Some(self.transaction()),
                journal_clock: Some(transaction.clock()),
            }),
    {
        Snapshot {
            sequencer_clock: storage.clock(),
            transaction: Some(self.transaction),
            journal_clock: Some(transaction.clock()),
        }
    }

    /// Submits the journal: its transaction records the changes under the next transaction
    /// clock, which is returned.
    ///
    /// The clock is one more than the transaction clock before the call, and it is the
    /// transaction clock after the call. The locks that the journal took stay taken until its
    /// transaction ends; from now on later journals of the same transaction may take them
    /// over.
    pub fn submit<S: Sequencer>(self, storage: &mut Storage<S>, transaction: &mut Transaction) -> (clock:
        usize)
        requires
            self.attached(old(storage)),
            self.transaction() == old(transaction).id(),
        ensures
            clock == old(transaction).records().len() + 1,
            clock == old(transaction).clock() + 1,
            clock == final(transaction).clock(),
            final(transaction).id() == old(transaction).id(),
            final(transaction).records() == old(transaction).records().push(
                Annals { clock, ..self.annals() },
            ),
            old(transaction).in_step(old(storage)) ==> final(transaction).in_step(final(storage)),
            final(storage).journals() == old(storage).journals().update(
                self.id() as int,
                JournalAnchor {
                    transaction: self.transaction(),
                    state: JournalState::Submitted(clock),
                },
            ),
            final(storage).anchors() == old(storage).anchors(),
            final(storage).now() == old(storage).now(),
            old(storage).consistent() ==> final(storage).consistent(),
            old(storage).evolves(final(storage)),
    {
        let id = self.annals.journal;
        let clock = transaction.record(self.annals);
        storage.settle(id, JournalState::Submitted(clock));
        proof {
            if old(transaction).in_step(old(storage)) {
                let before = old(transaction).records();
                let after = transaction.records();
                assert forall|i: int| 0 <= i < after.len() implies {
                    &&& (#[trigger] after[i]).clock == i + 1
                    &&& after[i].journal < storage.journals().len()
                    &&& storage.journals()[after[i].journal as int] == (JournalAnchor {
                        transaction: transaction.id(),
                        state: JournalState::Submitted((i + 1) as usize),
                    })
                } by {
                    if i < before.len() {
                        assert(after[i] == before[i]);
                        assert(before[i].journal != id);
                    }
                }
            }
        }
        clock
    }

    /// Gives the journal up: its changes are discarded and its locks are released.
    ///
    /// The clock of its transaction does not change. A storage that does not know the journal
    /// is left as it is.
    pub fn discard<S: Sequencer>(self, storage: &mut Storage<S>)
        ensures
            final(storage).journals() == if old(storage).knows(self.id()) {
                old(storage).journals().update(
                    self.id() as int,
                    JournalAnchor {
                        transaction: old(storage).owner_of(self.id()),
                        state: JournalState::Discarded,
                    },
                )
            } else {
                old(storage).journals()
            },
            final(storage).anchors() == old(storage).anchors(),
            final(storage).now() == old(storage).now(),
            old(storage).consistent() ==> final(storage).consistent(),
            old(storage).evolves(final(storage)),
    {
        if storage.journal(self.annals.journal).is_some() {
            storage.settle(self.annals.journal, JournalState::Discarded);
        }
    }
}

} // verus!
