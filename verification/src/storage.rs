//! The storage: the sequencer, and the registry of what transactions and journals share with
//! whoever meets their changes.

use crate::anchor::{another, anchored, held, share, Anchor};
use crate::sequencer::Sequencer;
use crate::snapshot::Snapshot;
use crate::transaction::Transaction;
use scc::ebr::Shared;
use vstd::prelude::*;

verus! {

/// How far a journal has come.
#[derive(Clone, Copy, Debug, PartialEq, Eq, Structural)]
pub enum JournalState {
    /// The journal is open: its changes are tentative.
    Open,
    /// The journal was submitted and its transaction holds its changes under the given
    /// transaction clock.
    Submitted(usize),
    /// The journal was dropped, or its changes were reverted by rewinding or rolling back its
    /// transaction.
    Discarded,
}

/// What a journal shares with the records that it changes.
#[derive(Clone, Copy, Debug, PartialEq, Eq, Structural)]
pub struct JournalAnchor {
    /// The transaction that the journal belongs to.
    pub transaction: usize,
    /// How far the journal has come.
    pub state: JournalState,
}

/// A storage: a sequencer, one [`Anchor`] for each transaction and one [`JournalAnchor`] for
/// each journal that was ever started.
///
/// Transactions and journals are known to records by their places in the two registries, so
/// what a record needs to know of them outlives them.
pub struct Storage<S: Sequencer> {
    sequencer: S,
    anchors: Vec<Shared<Anchor>>,
    journals: Vec<JournalAnchor>,
}

impl<S: Sequencer> Storage<S> {
    /// The current clock of the sequencer.
    pub closed spec fn now(&self) -> u64 {
        self.sequencer.now()
    }

    /// The anchors of the transactions, in the order in which the transactions began.
    pub closed spec fn anchors(&self) -> Seq<Anchor> {
        self.anchors@.map_values(|handle: Shared<Anchor>| anchored(handle))
    }

    /// The anchors of the journals, in the order in which the journals were started.
    pub closed spec fn journals(&self) -> Seq<JournalAnchor> {
        self.journals@
    }

    /// Whether `journal` is registered.
    pub open spec fn knows(&self, journal: usize) -> bool {
        journal < self.journals().len()
    }

    /// The state of `journal`; a journal that is not registered counts as discarded.
    pub open spec fn state_of(&self, journal: usize) -> JournalState {
        if self.knows(journal) {
            self.journals()[journal as int].state
        } else {
            JournalState::Discarded
        }
    }

    /// The transaction that `journal` belongs to.
    pub open spec fn owner_of(&self, journal: usize) -> usize {
        self.journals()[journal as int].transaction
    }

    /// Whether the commit of `transaction` has been completed.
    pub open spec fn finalized(&self, transaction: usize) -> bool {
        transaction < self.anchors().len() && self.anchors()[transaction as int].finalized()
    }

    /// Whether the changes of `journal` still stand: it is registered and not discarded.
    pub open spec fn live(&self, journal: usize) -> bool {
        self.state_of(journal) != JournalState::Discarded
    }

    /// Whether `journal` keeps the write locks that it took: its changes stand, and they are
    /// not yet committed.
    pub open spec fn holds(&self, journal: usize) -> bool {
        match self.state_of(journal) {
            JournalState::Open => true,
            JournalState::Submitted(_) => !self.finalized(self.owner_of(journal)),
            JournalState::Discarded => false,
        }
    }

    /// Whether the anchors agree with the sequencer: no anchor bears a clock that the
    /// sequencer has not reached, and no two completed commits bear the same commit snapshot,
    /// unless the sequencer was exhausted.
    pub open spec fn consistent(&self) -> bool {
        &&& forall|t: int|
            0 <= t < self.anchors().len() ==> (#[trigger] self.anchors()[t]).settled(self.now())
        &&& forall|t: int, u: int|
            #![trigger self.anchors()[t], self.anchors()[u]]
            0 <= t < u < self.anchors().len() && self.anchors()[t].finalized()
                && self.anchors()[u].finalized() ==> self.anchors()[t].commit_snapshot
                != self.anchors()[u].commit_snapshot || self.anchors()[t].commit_snapshot
                == u64::MAX
    }

    /// Whether `after` is this storage at a later time: transactions and journals were only
    /// added, no journal changed its transaction, every journal went on as journals do (an
    /// open one to any state, a submitted one to discarded), and no completed commit was
    /// touched.
    pub open spec fn evolves(&self, after: &Storage<S>) -> bool {
        &&& self.anchors().len() <= after.anchors().len()
        &&& self.journals().len() <= after.journals().len()
        &&& forall|t: int|
            0 <= t < self.anchors().len() && (#[trigger] self.anchors()[t]).finalized()
                ==> after.anchors()[t] == self.anchors()[t]
        &&& forall|j: int|
            0 <= j < self.journals().len() ==> {
                &&& (#[trigger] after.journals()[j]).transaction == self.journals()[j].transaction
                &&& (after.journals()[j].state == self.journals()[j].state
                    || self.journals()[j].state == JournalState::Open || after.journals()[j].state
                    == JournalState::Discarded)
            }
    }

    /// Creates a storage around `sequencer`, with no transaction and no journal.
    pub fn new(sequencer: S) -> (storage: Storage<S>)
        ensures
            storage.now() == sequencer.now(),
            storage.anchors() == Seq::<Anchor>::empty(),
            storage.journals() == Seq::<JournalAnchor>::empty(),
            storage.consistent(),
    {
        let storage = Storage { sequencer, anchors: Vec::new(), journals: Vec::new() };
        assert(storage.anchors() =~= Seq::<Anchor>::empty());
        storage
    }

    /// Starts a transaction.
    pub fn transaction(&mut self) -> (transaction: Transaction)
        ensures
            transaction.id() == old(self).anchors().len(),
            transaction.records() == Seq::<crate::journal::Annals>::empty(),
            transaction.in_step(final(self)),
            final(self).anchors() == old(self).anchors().push(Anchor::initial()),
            final(self).journals() == old(self).journals(),
            final(self).now() == old(self).now(),
            old(self).consistent() ==> final(self).consistent(),
            old(self).evolves(final(self)),
    {
        Transaction::new(self)
    }

    /// Takes a snapshot of the storage at the current clock, outside any transaction.
    pub fn snapshot(&self) -> (snapshot: Snapshot)
        ensures
            snapshot == (Snapshot {
                sequencer_clock: self.now(),
                transaction: None,
                journal_clock: None,
            }),
    {
        Snapshot { sequencer_clock: self.sequencer.get(), transaction: None, journal_clock: None }
    }

    /// Returns the sequencer.
    pub fn sequencer(&self) -> (sequencer: &S)
        ensures
            sequencer.now() == self.now(),
    {
        &self.sequencer
    }

    /// Returns the current clock of the sequencer.
    pub fn clock(&self) -> (clock: u64)
        ensures
            clock == self.now(),
    {
        self.sequencer.get()
    }

    /// Returns the anchor of `transaction`, or `None` if no such transaction ever began.
    pub fn anchor(&self, transaction: usize) -> (anchor: Option<Anchor>)
        ensures
            anchor == if transaction < self.anchors().len() {
                Some(self.anchors()[transaction as int])
            } else {
                None
            },
    {
        if transaction < self.anchors.len() {
            Some(held(&self.anchors[transaction]))
        } else {
            None
        }
    }

    /// Returns a handle to the anchor of `transaction` as it is now, or `None` if no such
    /// transaction ever began.
    ///
    /// The handle keeps that anchor alive and unchanged, whatever becomes of the transaction
    /// and of the storage.
    pub fn anchor_handle(&self, transaction: usize) -> (handle: Option<Shared<Anchor>>)
        ensures
            match handle {
                Some(handle) => transaction < self.anchors().len() && anchored(handle)
                    == self.anchors()[transaction as int],
                None => transaction >= self.anchors().len(),
            },
    {
        if transaction < self.anchors.len() {
            Some(another(&self.anchors[transaction]))
        } else {
            None
        }
    }

    /// Returns the anchor of `journal`, or `None` if no such journal was ever started.
    pub fn journal(&self, journal: usize) -> (anchor: Option<JournalAnchor>)
        ensures
            anchor == if self.knows(journal) {
                Some(self.journals()[journal as int])
            } else {
                None
            },
    {
        if journal < self.journals.len() {
            Some(self.journals[journal])
        } else {
            None
        }
    }

    /// Returns whether `journal` keeps the write locks that it took.
    pub fn is_holding(&self, journal: usize) -> (holding: bool)
        ensures
            holding == self.holds(journal),
    {
        match self.journal(journal) {
            None => false,
            Some(anchor) => match anchor.state {
                JournalState::Open => true,
                JournalState::Discarded => false,
                JournalState::Submitted(_) => match self.anchor(anchor.transaction) {
                    None => true,
                    Some(owner) => owner.commit_snapshot() == 0,
                },
            },
        }
    }

    /// Registers a transaction that has not begun to commit, and returns its place.
    pub(crate) fn enroll(&mut self) -> (transaction: usize)
        ensures
            transaction == old(self).anchors().len(),
            final(self).anchors() == old(self).anchors().push(Anchor::initial()),
            final(self).journals() == old(self).journals(),
            final(self).now() == old(self).now(),
    {
        let transaction = self.anchors.len();
        self.anchors.push(share(Anchor::new()));
        assert(self.anchors() =~= old(self).anchors().push(Anchor::initial()));
        transaction
    }

    /// Publishes `anchor` as the anchor of `transaction`.
    pub(crate) fn publish(&mut self, transaction: usize, anchor: Anchor)
        requires
            transaction < old(self).anchors().len(),
        ensures
            final(self).anchors() == old(self).anchors().update(transaction as int, anchor),
            final(self).journals() == old(self).journals(),
            final(self).now() == old(self).now(),
    {
        self.anchors.set(transaction, share(anchor));
        assert(self.anchors() =~= old(self).anchors().update(transaction as int, anchor));
    }

    /// Registers an open journal of `transaction`, and returns its place.
    pub(crate) fn open(&mut self, transaction: usize) -> (journal: usize)
        ensures
            journal == old(self).journals().len(),
            final(self).journals() == old(self).journals().push(
                JournalAnchor { transaction, state: JournalState::Open },
            ),
            final(self).anchors() == old(self).anchors(),
            final(self).now() == old(self).now(),
    {
        let journal = self.journals.len();
        self.journals.push(JournalAnchor { transaction, state: JournalState::Open });
        journal
    }

    /// Moves `journal` to `state`.
    pub(crate) fn settle(&mut self, journal: usize, state: JournalState)
        requires
            old(self).knows(journal),
        ensures
            final(self).journals() == old(self).journals().update(
                journal as int,
                JournalAnchor { transaction: old(self).owner_of(journal), state },
            ),
            final(self).anchors() == old(self).anchors(),
            final(self).now() == old(self).now(),
    {
        let transaction = self.journals[journal].transaction;
        self.journals.set(journal, JournalAnchor { transaction, state });
    }

    /// Advances the sequencer and returns the new current clock.
    pub(crate) fn advance(&mut self) -> (clock: u64)
        ensures
            clock == final(self).now(),
            clock >= old(self).now(),
            old(self).now() < u64::MAX ==> clock > old(self).now(),
            final(self).anchors() == old(self).anchors(),
            final(self).journals() == old(self).journals(),
    {
        self.sequencer.advance()
    }
}

} // verus!
