//! Versioned records: the versions that journals install, the write lock that goes with the
//! newest of them, and the queue of journals that wait for the lock.

use crate::error::Error;
use crate::journal::Journal;
use crate::sequencer::Sequencer;
use crate::snapshot::Snapshot;
use crate::storage::{JournalState, Storage};
use vstd::prelude::*;

verus! {

/// One version of a record.
#[derive(Debug)]
pub struct Version<T> {
    /// The journal that installed the version.
    pub journal: usize,
    /// What the version holds; `None` where it holds nothing.
    pub content: Option<T>,
}

/// A journal that waits for the write lock of a record.
#[derive(Clone, Copy, Debug, PartialEq, Eq, Structural)]
pub struct Waiter {
    /// The journal that waits.
    pub journal: usize,
    /// The time at which it gives up; `None` where it waits for good.
    pub deadline: Option<u64>,
}

/// What a record answers to a journal that asks for its write lock.
#[derive(Clone, Copy, Debug, PartialEq, Eq, Structural)]
pub enum Verdict {
    /// The journal may take the lock.
    Grant,
    /// Another open journal of the same transaction holds the lock.
    Conflict,
    /// A journal of another transaction holds the lock.
    Hold,
}

/// How a request for the write lock of a record went on.
#[derive(Clone, Copy, Debug, PartialEq, Eq, Structural)]
pub enum Acquisition {
    /// The lock was taken and a version was installed.
    Acquired,
    /// The lock is held by a journal of another transaction, and the deadline has not passed:
    /// the request waits in the queue of the record.
    Blocked,
}

/// The place in `versions` of the newest version whose changes still stand; -1 if there is
/// none.
pub open spec fn newest_live_at<S: Sequencer, T>(storage: &Storage<S>, versions: Seq<Version<T>>)
    -> int
    decreases versions.len(),
{
    if versions.len() == 0 {
        -1
    } else if storage.live(versions.last().journal) {
        versions.len() - 1
    } else {
        newest_live_at(storage, versions.drop_last())
    }
}

/// The journal of the newest of `versions` whose changes still stand, if there is one.
pub open spec fn newest_live<S: Sequencer, T>(storage: &Storage<S>, versions: Seq<Version<T>>)
    -> Option<usize> {
    let at = newest_live_at(storage, versions);
    if at < 0 {
        None
    } else {
        Some(versions[at].journal)
    }
}

/// The journal that holds the write lock of a record with `versions`: the journal of the
/// newest version whose changes still stand, as long as those changes are not committed.
pub open spec fn holder_of<S: Sequencer, T>(storage: &Storage<S>, versions: Seq<Version<T>>)
    -> Option<usize> {
    match newest_live(storage, versions) {
        Some(journal) => if storage.holds(journal) {
            Some(journal)
        } else {
            None
        },
        None => None,
    }
}

/// What a record with `versions` answers to `journal` of `transaction` asking for the write
/// lock.
///
/// The lock is granted where nobody holds it, where `journal` itself holds it, and where a
/// submitted journal of the same transaction holds it. An open journal of the same
/// transaction is a conflict. A journal of another transaction has to be waited for.
pub open spec fn verdict_of<S: Sequencer, T>(
    storage: &Storage<S>,
    versions: Seq<Version<T>>,
    journal: usize,
    transaction: usize,
) -> Verdict {
    match holder_of(storage, versions) {
        None => Verdict::Grant,
        Some(holder) => if holder == journal {
            Verdict::Grant
        } else if storage.owner_of(holder) == transaction {
            if storage.state_of(holder) == JournalState::Open {
                Verdict::Conflict
            } else {
                Verdict::Grant
            }
        } else {
            Verdict::Hold
        },
    }
}

/// Whether `versions` keep the discipline of the write lock, as `storage` knows their
/// journals: every journal is registered; above a version whose journal holds its locks,
/// every version that stands belongs to the same transaction; and above a version of an open
/// journal, to that same journal.
pub open spec fn disciplined<S: Sequencer, T>(storage: &Storage<S>, versions: Seq<Version<T>>)
    -> bool {
    &&& forall|i: int| 0 <= i < versions.len() ==> storage.knows(#[trigger] versions[i].journal)
    &&& forall|i: int, j: int|
        #![trigger versions[i], versions[j]]
        0 <= i < j < versions.len() && storage.holds(versions[i].journal) && storage.live(
            versions[j].journal,
        ) ==> {
            &&& storage.owner_of(versions[j].journal) == storage.owner_of(versions[i].journal)
            &&& storage.state_of(versions[i].journal) == JournalState::Open ==> versions[j].journal
                == versions[i].journal
        }
}

/// The newest version that stands is where [`newest_live_at`] says, and no version above it
/// stands.
pub proof fn newest_live_is_newest<S: Sequencer, T>(
    storage: &Storage<S>,
    versions: Seq<Version<T>>,
)
    ensures
        -1 <= newest_live_at(storage, versions) < versions.len(),
        newest_live_at(storage, versions) >= 0 ==> storage.live(
            versions[newest_live_at(storage, versions)].journal,
        ),
        forall|m: int|
            newest_live_at(storage, versions) < m < versions.len() ==> !storage.live(
                #[trigger] versions[m].journal,
            ),
    decreases versions.len(),
{
    if versions.len() > 0 && !storage.live(versions.last().journal) {
        let below = versions.drop_last();
        newest_live_is_newest(storage, below);
        assert forall|m: int|
            newest_live_at(storage, versions) < m < versions.len() implies !storage.live(
            #[trigger] versions[m].journal,
        ) by {
            if m < below.len() {
                assert(below[m] == versions[m]);
            }
        }
    }
}

/// No two journals hold the write lock of a record at once: where two versions of a
/// disciplined record both belong to journals that hold their locks, the journals belong to
/// one transaction, and they are one journal unless the journal of the older version was
/// submitted and has passed the lock on.
pub proof fn holders_do_not_compete<S: Sequencer, T>(
    storage: &Storage<S>,
    versions: Seq<Version<T>>,
    older: int,
    newer: int,
)
    requires
        disciplined(storage, versions),
        0 <= older < newer < versions.len(),
        storage.holds(versions[older].journal),
        storage.holds(versions[newer].journal),
    ensures
        storage.owner_of(versions[newer].journal) == storage.owner_of(versions[older].journal),
        versions[newer].journal != versions[older].journal ==> storage.state_of(
            versions[older].journal,
        ) is Submitted,
{
}

/// No journal holds a lock on a disciplined record whose write lock is free: every version
/// of it that stands is committed.
pub proof fn free_lock_leaves_no_holder<S: Sequencer, T>(
    storage: &Storage<S>,
    versions: Seq<Version<T>>,
    at: int,
)
    requires
        disciplined(storage, versions),
        holder_of(storage, versions).is_none(),
        0 <= at < versions.len(),
    ensures
        !storage.holds(versions[at].journal),
{
    newest_live_is_newest(storage, versions);
    let top = newest_live_at(storage, versions);
    if storage.holds(versions[at].journal) {
        assert(storage.live(versions[at].journal));
        assert(at <= top);
        assert(at < top);
        assert(storage.live(versions[top].journal));
    }
}

/// What time brings keeps the discipline: versions that are disciplined in a storage are
/// disciplined in every later state of it.
pub proof fn discipline_is_stable<S: Sequencer, T>(
    before: &Storage<S>,
    after: &Storage<S>,
    versions: Seq<Version<T>>,
)
    requires
        disciplined(before, versions),
        before.evolves(after),
    ensures
        disciplined(after, versions),
{
    assert forall|i: int| 0 <= i < versions.len() implies {
        &&& after.knows(#[trigger] versions[i].journal)
        &&& after.owner_of(versions[i].journal) == before.owner_of(versions[i].journal)
        &&& after.live(versions[i].journal) ==> before.live(versions[i].journal)
        &&& after.holds(versions[i].journal) ==> before.holds(versions[i].journal)
        &&& after.state_of(versions[i].journal) == JournalState::Open ==> before.state_of(
            versions[i].journal,
        ) == JournalState::Open
    } by {
        let journal = versions[i].journal;
        assert(before.knows(journal));
        let entry = after.journals()[journal as int];
        assert(entry.transaction == before.journals()[journal as int].transaction);
        let owner = before.owner_of(journal);
        if before.finalized(owner) {
            assert(after.anchors()[owner as int] == before.anchors()[owner as int]);
        }
    }
}

/// Dropping the versions that do not stand changes nothing of what snapshots show.
pub proof fn compaction_keeps_what_is_shown<S: Sequencer, T>(
    storage: &Storage<S>,
    versions: Seq<Version<T>>,
    snapshot: Snapshot,
)
    ensures
        shown(storage, versions.filter(standing(storage)), snapshot) == shown(
            storage,
            versions,
            snapshot,
        ),
{
    let kept = versions.filter(standing(storage));
    if shown(storage, kept, snapshot) {
        let i = choose|i: int|
            #![trigger kept[i]]
            0 <= i < kept.len() && snapshot.shows(storage, kept[i].journal);
        assert(kept.contains(kept[i]));
        versions.lemma_filter_contains_rev(standing(storage), kept[i]);
        let k = choose|k: int| 0 <= k < versions.len() && versions[k] == kept[i];
        assert(snapshot.shows(storage, versions[k].journal));
    }
    if shown(storage, versions, snapshot) {
        let k = choose|k: int|
            #![trigger versions[k]]
            0 <= k < versions.len() && snapshot.shows(storage, versions[k].journal);
        assert(standing(storage)(versions[k]));
        versions.lemma_filter_contains(standing(storage), k);
        let i = choose|i: int| 0 <= i < kept.len() && kept[i] == versions[k];
        assert(snapshot.shows(storage, kept[i].journal));
    }
}

/// Dropping the versions that do not stand changes nothing of who holds the write lock.
pub proof fn compaction_keeps_the_holder<S: Sequencer, T>(
    storage: &Storage<S>,
    versions: Seq<Version<T>>,
)
    ensures
        newest_live(storage, versions.filter(standing(storage))) == newest_live(storage, versions),
        holder_of(storage, versions.filter(standing(storage))) == holder_of(storage, versions),
    decreases versions.len(),
{
    reveal(Seq::filter);
    let kept = versions.filter(standing(storage));
    if versions.len() > 0 {
        let below = versions.drop_last();
        compaction_keeps_the_holder(storage, below);
        if storage.live(versions.last().journal) {
            assert(standing(storage)(versions.last()));
            assert(kept == below.filter(standing(storage)).push(versions.last()));
            assert(kept.last() == versions.last());
        } else {
            assert(!standing(storage)(versions.last()));
            assert(kept == below.filter(standing(storage)));
            newest_live_is_newest(storage, below);
            let at = newest_live_at(storage, below);
            if at >= 0 {
                assert(below[at] == versions[at]);
            }
        }
    }
}

/// Dropping the versions that do not stand from a disciplined record whose write lock is
/// free keeps the discipline.
pub proof fn compaction_keeps_discipline<S: Sequencer, T>(
    storage: &Storage<S>,
    versions: Seq<Version<T>>,
)
    requires
        disciplined(storage, versions),
        holder_of(storage, versions).is_none(),
    ensures
        disciplined(storage, versions.filter(standing(storage))),
{
    let kept = versions.filter(standing(storage));
    assert forall|i: int| 0 <= i < kept.len() implies storage.knows(#[trigger] kept[i].journal)
        && !storage.holds(kept[i].journal) by {
        assert(kept.contains(kept[i]));
        versions.lemma_filter_contains_rev(standing(storage), kept[i]);
        let k = choose|k: int| 0 <= k < versions.len() && versions[k] == kept[i];
        free_lock_leaves_no_holder(storage, versions, k);
    }
}

/// A journal that is granted the write lock keeps the discipline by installing its version,
/// and holds the lock from then on.
pub proof fn granting_keeps_discipline<S: Sequencer, T>(
    storage: &Storage<S>,
    versions: Seq<Version<T>>,
    journal: usize,
    content: Option<T>,
)
    requires
        disciplined(storage, versions),
        storage.knows(journal),
        storage.state_of(journal) == JournalState::Open,
        verdict_of(storage, versions, journal, storage.owner_of(journal)) == Verdict::Grant,
    ensures
        disciplined(storage, versions.push(Version { journal, content })),
        holder_of(storage, versions.push(Version { journal, content })) == Some(journal),
{
    let more = versions.push(Version { journal, content });
    newest_live_is_newest(storage, versions);
    let top = newest_live_at(storage, versions);
    assert(more.drop_last() =~= versions);
    assert forall|i: int|
        0 <= i < versions.len() && storage.holds(versions[i].journal) implies {
        &&& storage.owner_of(journal) == storage.owner_of(#[trigger] versions[i].journal)
        &&& storage.state_of(versions[i].journal) == JournalState::Open ==> journal
            == versions[i].journal
    } by {
        assert(storage.live(versions[i].journal));
        assert(i <= top);
        assert(storage.live(versions[top].journal));
    }
    assert forall|i: int, j: int|
        #![trigger more[i], more[j]]
        0 <= i < j < more.len() && storage.holds(more[i].journal) && storage.live(
            more[j].journal,
        ) implies {
        &&& storage.owner_of(more[j].journal) == storage.owner_of(more[i].journal)
        &&& storage.state_of(more[i].journal) == JournalState::Open ==> more[j].journal
            == more[i].journal
    } by {
        assert(more[i] == versions[i]);
        if j < versions.len() {
            assert(more[j] == versions[j]);
        }
    }
    assert forall|i: int| 0 <= i < more.len() implies storage.knows(
        #[trigger] more[i].journal,
    ) by {
        if i < versions.len() {
            assert(more[i] == versions[i]);
        }
    }
}

/// Whether `snapshot` shows one of `versions`.
pub open spec fn shown<S: Sequencer, T>(
    storage: &Storage<S>,
    versions: Seq<Version<T>>,
    snapshot: Snapshot,
) -> bool {
    exists|i: int|
        #![trigger versions[i]]
        0 <= i < versions.len() && snapshot.shows(storage, versions[i].journal)
}

/// The test that picks the versions whose changes still stand.
pub open spec fn standing<S: Sequencer, T>(storage: &Storage<S>) -> spec_fn(Version<T>) -> bool {
    |version: Version<T>| storage.live(version.journal)
}

/// Whether `journal` is among `waiters`.
pub open spec fn waits(waiters: Seq<Waiter>, journal: usize) -> bool {
    exists|k: int| 0 <= k < waiters.len() && #[trigger] waiters[k].journal == journal
}

/// The test that picks the waiters other than `journal`.
pub open spec fn others(journal: usize) -> spec_fn(Waiter) -> bool {
    |waiter: Waiter| waiter.journal != journal
}

/// `waiters` without `journal`, the others in their order.
pub open spec fn without(waiters: Seq<Waiter>, journal: usize) -> Seq<Waiter> {
    waiters.filter(others(journal))
}

/// `waiters` with `waiter` at the end, unless its journal waits already.
pub open spec fn joined(waiters: Seq<Waiter>, waiter: Waiter) -> Seq<Waiter> {
    if waits(waiters, waiter.journal) {
        waiters
    } else {
        waiters.push(waiter)
    }
}

/// The time at which a request that is made at `now` gives up: `timeout` later, or at the
/// greatest time there is if that would come first; never, where there is no timeout.
pub open spec fn deadline_of(now: u64, timeout: Option<u64>) -> Option<u64> {
    match timeout {
        Some(timeout) => Some(
            if now + timeout <= u64::MAX {
                (now + timeout) as u64
            } else {
                u64::MAX
            },
        ),
        None => None,
    }
}

/// Returns the time at which a request that is made at `now` gives up.
pub fn deadline(now: u64, timeout: Option<u64>) -> (deadline: Option<u64>)
    ensures
        deadline == deadline_of(now, timeout),
{
    match timeout {
        Some(timeout) => Some(now.saturating_add(timeout)),
        None => None,
    }
}

/// How a request for the write lock goes on: what [`RecordVersion::create`] makes of the
/// record `before` and the journal `asking`, at the time `now` and with `deadline`, and what
/// it returns.
///
/// Where the lock is granted, `constructor` is called. If it gives a content, a version with
/// that content is installed for the journal, the journal notes the record, and the result is
/// `Acquired`. If it declines, its error is returned and no version is installed.
///
/// Where an open journal of the same transaction holds the lock, the result is
/// [`Error::Conflict`]. Where a journal of another transaction holds it, the result is
/// [`Error::Timeout`] if `deadline` is at or before `now`, and `Blocked` otherwise, with the
/// journal in the queue. In every other case the journal has left the queue.
pub open spec fn requested<S: Sequencer, T, F: FnOnce() -> Result<Option<T>, Error>>(
    storage: &Storage<S>,
    before: &RecordVersion<T>,
    after: &RecordVersion<T>,
    asking: &Journal,
    asked: &Journal,
    constructor: F,
    now: u64,
    deadline: Option<u64>,
    result: Result<Acquisition, Error>,
) -> bool {
    &&& after.id() == before.id()
    &&& asked.id() == asking.id()
    &&& asked.transaction() == asking.transaction()
    &&& match before.verdict(storage, asking.id(), asking.transaction()) {
        Verdict::Grant => {
            &&& after.waiters() == without(before.waiters(), asking.id())
            &&& exists|outcome: Result<Option<T>, Error>|
                {
                    &&& #[trigger] constructor.ensures((), outcome)
                    &&& match outcome {
                        Ok(content) => {
                            &&& result == Ok::<Acquisition, Error>(Acquisition::Acquired)
                            &&& after.versions() == before.versions().push(
                                Version { journal: asking.id(), content },
                            )
                            &&& asked.entries() == asking.entries().push(before.id())
                        },
                        Err(e) => {
                            &&& result == Err::<Acquisition, Error>(e)
                            &&& after.versions() == before.versions()
                            &&& asked.entries() == asking.entries()
                        },
                    }
                }
        },
        Verdict::Conflict => {
            &&& result == Err::<Acquisition, Error>(Error::Conflict)
            &&& after.versions() == before.versions()
            &&& asked.entries() == asking.entries()
            &&& after.waiters() == without(before.waiters(), asking.id())
        },
        Verdict::Hold => {
            &&& after.versions() == before.versions()
            &&& asked.entries() == asking.entries()
            &&& if deadline matches Some(end) && end <= now {
                &&& result == Err::<Acquisition, Error>(Error::Timeout)
                &&& after.waiters() == without(before.waiters(), asking.id())
            } else {
                &&& result == Ok::<Acquisition, Error>(Acquisition::Blocked)
                &&& after.waiters() == joined(
                    before.waiters(),
                    Waiter { journal: asking.id(), deadline },
                )
            }
        },
    }
}

/// A request that has to wait gives up when its time has passed, and not before: made at
/// `start` with `timeout` and asked again at `now`, it ends in [`Error::Timeout`] if the
/// timeout has passed since `start` or time itself has run out, and stays `Blocked` otherwise.
pub proof fn waiting_ends_when_time_is_up<S: Sequencer, T, F: FnOnce() -> Result<
    Option<T>,
    Error,
>>(
    storage: &Storage<S>,
    before: &RecordVersion<T>,
    after: &RecordVersion<T>,
    asking: &Journal,
    asked: &Journal,
    constructor: F,
    start: u64,
    timeout: u64,
    now: u64,
    result: Result<Acquisition, Error>,
)
    requires
        before.verdict(storage, asking.id(), asking.transaction()) == Verdict::Hold,
        requested(
            storage,
            before,
            after,
            asking,
            asked,
            constructor,
            now,
            deadline_of(start, Some(timeout)),
            result,
        ),
    ensures
        result == if now >= start + timeout || now == u64::MAX {
            Err::<Acquisition, Error>(Error::Timeout)
        } else {
            Ok::<Acquisition, Error>(Acquisition::Blocked)
        },
{
}

/// A record with its versions, oldest first, and the queue of the journals that wait for its
/// write lock, in the order in which they came.
#[derive(Debug)]
pub struct RecordVersion<T> {
    id: u64,
    versions: Vec<Version<T>>,
    waiters: Vec<Waiter>,
}

impl<T> RecordVersion<T> {
    /// The name of the record.
    pub closed spec fn id(&self) -> u64 {
        self.id
    }

    /// The versions of the record, oldest first.
    pub closed spec fn versions(&self) -> Seq<Version<T>> {
        self.versions@
    }

    /// The journals that wait for the write lock, in the order in which they came.
    pub closed spec fn waiters(&self) -> Seq<Waiter> {
        self.waiters@
    }

    /// The journal that holds the write lock, if any does.
    pub open spec fn spec_holder<S: Sequencer>(&self, storage: &Storage<S>) -> Option<usize> {
        holder_of(storage, self.versions())
    }

    /// What the record answers to `journal` of `transaction` asking for the write lock.
    pub open spec fn spec_verdict<S: Sequencer>(
        &self,
        storage: &Storage<S>,
        journal: usize,
        transaction: usize,
    ) -> Verdict {
        verdict_of(storage, self.versions(), journal, transaction)
    }

    /// Whether the versions of the record keep the discipline of the write lock.
    pub open spec fn sound<S: Sequencer>(&self, storage: &Storage<S>) -> bool {
        disciplined(storage, self.versions())
    }

    /// Whether `snapshot` shows a version of the record.
    pub open spec fn predates<S: Sequencer>(&self, storage: &Storage<S>, snapshot: Snapshot)
        -> bool {
        shown(storage, self.versions(), snapshot)
    }

    /// Creates a record named `id`, with no version and no waiter.
    pub fn new(id: u64) -> (record: RecordVersion<T>)
        ensures
            record.id() == id,
            record.versions() == Seq::<Version<T>>::empty(),
            record.waiters() == Seq::<Waiter>::empty(),
    {
        RecordVersion { id, versions: Vec::new(), waiters: Vec::new() }
    }

    /// Returns the name of the record.
    pub fn name(&self) -> (id: u64)
        ensures
            id == self.id(),
    {
        self.id
    }

    /// Returns the number of versions that the record keeps.
    pub fn len(&self) -> (len: usize)
        ensures
            len == self.versions().len(),
    {
        self.versions.len()
    }

    /// Returns the journal that holds the write lock, if any does.
    #[verifier::when_used_as_spec(spec_holder)]
    pub fn holder<S: Sequencer>(&self, storage: &Storage<S>) -> (holder: Option<usize>)
        ensures
            holder == self.holder(storage),
    {
        let mut i = self.versions.len();
        assert(self.versions@.take(i as int) =~= self.versions@);
        while i > 0
            invariant
                i <= self.versions@.len(),
                newest_live_at(storage, self.versions@) == newest_live_at(
                    storage,
                    self.versions@.take(i as int),
                ),
            decreases i,
        {
            i -= 1;
            let journal = self.versions[i].journal;
            proof {
                let upto = self.versions@.take(i + 1);
                assert(upto.last() == self.versions@[i as int]);
                assert(upto.drop_last() =~= self.versions@.take(i as int));
            }
            let standing = match storage.journal(journal) {
                Some(anchor) => match anchor.state {
                    JournalState::Discarded => false,
                    _ => true,
                },
                None => false,
            };
            if standing {
                return if storage.is_holding(journal) {
                    Some(journal)
                } else {
                    None
                };
            }
        }
        None
    }

    /// Returns what the record answers to `journal` of `transaction` asking for the write
    /// lock.
    #[verifier::when_used_as_spec(spec_verdict)]
    pub fn verdict<S: Sequencer>(&self, storage: &Storage<S>, journal: usize, transaction: usize)
        -> (verdict: Verdict)
        ensures
            verdict == self.verdict(storage, journal, transaction),
    {
        match self.holder(storage) {
            None => Verdict::Grant,
            Some(holder) => {
                if holder == journal {
                    Verdict::Grant
                } else {
                    match storage.journal(holder) {
                        Some(anchor) => {
                            if anchor.transaction == transaction {
                                match anchor.state {
                                    JournalState::Open => Verdict::Conflict,
                                    _ => Verdict::Grant,
                                }
                            } else {
                                Verdict::Hold
                            }
                        },
                        None => Verdict::Grant,
                    }
                }
            },
        }
    }

    /// Returns whether `snapshot` shows a version of the record.
    pub fn predate<S: Sequencer>(&self, snapshot: &Snapshot, storage: &Storage<S>) -> (seen: bool)
        ensures
            seen == self.predates(storage, *snapshot),
    {
        let mut i: usize = 0;
        while i < self.versions.len()
            invariant
                i <= self.versions@.len(),
                forall|k: int|
                    #![trigger self.versions@[k]]
                    0 <= k < i ==> !snapshot.shows(storage, self.versions@[k].journal),
            decreases self.versions@.len() - i,
        {
            if snapshot.sees_journal(storage, self.versions[i].journal) {
                return true;
            }
            i += 1;
        }
        false
    }

    /// Returns the journal to wake: the one that has waited longest, if nobody holds the
    /// write lock.
    pub fn next_waiter<S: Sequencer>(&self, storage: &Storage<S>) -> (next: Option<usize>)
        ensures
            next == if self.holder(storage).is_none() && self.waiters().len() > 0 {
                Some(self.waiters()[0].journal)
            } else {
                None
            },
    {
        if self.waiters.len() > 0 && self.holder(storage).is_none() {
            Some(self.waiters[0].journal)
        } else {
            None
        }
    }

    /// Asks for the write lock on behalf of `journal`, at the time `now`, and installs the
    /// version that `constructor` gives if the lock is granted; [`requested`] says how the
    /// request goes on.
    ///
    /// After `Blocked` the request is to be made again when the journal is woken or the
    /// deadline comes.
    pub fn create<S: Sequencer, F: FnOnce() -> Result<Option<T>, Error>>(
        &mut self,
        storage: &Storage<S>,
        journal: &mut Journal,
        constructor: F,
        now: u64,
        deadline: Option<u64>,
    ) -> (result: Result<Acquisition, Error>)
        requires
            constructor.requires(()),
        ensures
            requested(
                storage,
                old(self),
                final(self),
                old(journal),
                final(journal),
                constructor,
                now,
                deadline,
                result,
            ),
            old(journal).attached(storage) && old(self).sound(storage) ==> final(self).sound(
                storage,
            ),
            old(journal).attached(storage) && result == Ok::<Acquisition, Error>(
                Acquisition::Acquired,
            ) ==> final(self).holder(storage) == Some(old(journal).id()),
    {
        let id = journal.place();
        match self.verdict(storage, id, journal.owner()) {
            Verdict::Grant => {
                self.leave(id);
                match constructor() {
                    Ok(content) => {
                        proof {
                            if old(journal).attached(storage) {
                                if old(self).sound(storage) {
                                    granting_keeps_discipline(storage, self.versions@, id, content);
                                } else {
                                    let more = self.versions@.push(Version { journal: id, content });
                                    assert(more.last().journal == id);
                                }
                            }
                        }
                        self.versions.push(Version { journal: id, content });
                        journal.note(self.id);
                        Ok(Acquisition::Acquired)
                    },
                    Err(e) => Err(e),
                }
            },
            Verdict::Conflict => {
                self.leave(id);
                Err(Error::Conflict)
            },
            Verdict::Hold => {
                let expired = match deadline {
                    Some(end) => end <= now,
                    None => false,
                };
                if expired {
                    self.leave(id);
                    Err(Error::Timeout)
                } else {
                    self.wait(Waiter { journal: id, deadline });
                    Ok(Acquisition::Blocked)
                }
            },
        }
    }

    /// Drops the versions whose changes do not stand any more, unless a journal holds the
    /// write lock; returns whether it did.
    pub fn consolidate<S: Sequencer>(&mut self, storage: &Storage<S>) -> (done: bool)
        ensures
            done == old(self).holder(storage).is_none(),
            final(self).id() == old(self).id(),
            final(self).waiters() == old(self).waiters(),
            final(self).versions() == if done {
                old(self).versions().filter(standing(storage))
            } else {
                old(self).versions()
            },
            final(self).holder(storage) == old(self).holder(storage),
            old(self).sound(storage) ==> final(self).sound(storage),
    {
        if self.holder(storage).is_some() {
            return false;
        }
        proof {
            compaction_keeps_the_holder(storage, self.versions@);
            if self.sound(storage) {
                compaction_keeps_discipline(storage, self.versions@);
            }
        }
        let ghost versions = self.versions@;
        let ghost done: int = 0;
        let mut i: usize = 0;
        proof {
            reveal(Seq::filter);
            assert(versions.take(0).filter(standing(storage)) =~= Seq::<Version<T>>::empty());
            assert(versions.skip(0) =~= versions);
        }
        while i < self.versions.len()
            invariant
                0 <= done <= versions.len(),
                self.id == old(self).id,
                self.waiters == old(self).waiters,
                versions == old(self).versions@,
                i == versions.take(done).filter(standing(storage)).len(),
                self.versions@ == versions.take(done).filter(standing(storage)) + versions.skip(
                    done,
                ),
            decreases versions.len() - done,
        {
            let journal = self.versions[i].journal;
            let keep = match storage.journal(journal) {
                Some(anchor) => match anchor.state {
                    JournalState::Discarded => false,
                    _ => true,
                },
                None => false,
            };
            proof {
                reveal(Seq::filter);
                let upto = versions.take(done + 1);
                assert(self.versions@[i as int] == versions[done]);
                assert(upto.last() == versions[done]);
                assert(upto.drop_last() =~= versions.take(done));
                assert(keep == standing(storage)(versions[done]));
            }
            if keep {
                i += 1;
            } else {
                self.versions.remove(i);
            }
            proof {
                done = done + 1;
                assert(self.versions@ =~= versions.take(done).filter(standing(storage))
                    + versions.skip(done));
            }
        }
        proof {
            assert(versions.take(done) =~= versions);
            assert(self.versions@ =~= versions.filter(standing(storage)));
        }
        true
    }

    /// Takes `journal` out of the queue.
    fn leave(&mut self, journal: usize)
        ensures
            final(self).id() == old(self).id(),
            final(self).versions() == old(self).versions(),
            final(self).waiters() == without(old(self).waiters(), journal),
    {
        let mut kept: Vec<Waiter> = Vec::new();
        let mut i: usize = 0;
        proof {
            reveal(Seq::filter);
            assert(self.waiters@.take(0).filter(others(journal)) =~= Seq::<Waiter>::empty());
        }
        while i < self.waiters.len()
            invariant
                i <= self.waiters@.len(),
                kept@ == self.waiters@.take(i as int).filter(others(journal)),
            decreases self.waiters@.len() - i,
        {
            let waiter = self.waiters[i];
            proof {
                reveal(Seq::filter);
                let upto = self.waiters@.take(i + 1);
                assert(upto.last() == waiter);
                assert(upto.drop_last() =~= self.waiters@.take(i as int));
            }
            if waiter.journal != journal {
                kept.push(waiter);
            }
            i += 1;
        }
        assert(self.waiters@.take(i as int) =~= self.waiters@);
        self.waiters = kept;
    }

    /// Puts `waiter` at the end of the queue, unless its journal waits already.
    fn wait(&mut self, waiter: Waiter)
        ensures
            final(self).id() == old(self).id(),
            final(self).versions() == old(self).versions(),
            final(self).waiters() == joined(old(self).waiters(), waiter),
    {
        let mut i: usize = 0;
        while i < self.waiters.len()
            invariant
                i <= self.waiters@.len(),
                forall|k: int| 0 <= k < i ==> #[trigger] self.waiters@[k].journal != waiter.journal,
            decreases self.waiters@.len() - i,
        {
            if self.waiters[i].journal == waiter.journal {
                return ;
            }
            i += 1;
        }
        self.waiters.push(waiter);
    }
}

} // verus!
