use tss::{
    Acquisition, Counter, Error, JournalState, RecordVersion, Storage, Verdict,
};

fn nothing() -> Result<Option<u32>, Error> {
    Ok(None)
}

#[test]
fn lock_is_reentrant_for_its_holder() {
    let mut storage = Storage::new(Counter::new());
    let mut record: RecordVersion<u32> = RecordVersion::new(9);
    let transaction = storage.transaction();
    let mut journal = transaction.start(&mut storage);
    assert_eq!(
        journal.create(&storage, &mut record, || Ok(Some(1)), 0, None),
        Ok(Acquisition::Acquired)
    );
    assert_eq!(
        journal.create(&storage, &mut record, || Ok(Some(2)), 0, None),
        Ok(Acquisition::Acquired)
    );
    assert_eq!(record.len(), 2);
    assert_eq!(record.name(), 9);
    assert_eq!(record.holder(&storage), Some(journal.place()));
    assert_eq!(
        record.verdict(&storage, journal.place(), journal.owner()),
        Verdict::Grant
    );
    assert_eq!(
        record.verdict(&storage, journal.place() + 1, journal.owner()),
        Verdict::Conflict
    );
    assert_eq!(
        record.verdict(&storage, journal.place() + 1, journal.owner() + 1),
        Verdict::Hold
    );
}

#[test]
fn deadline_that_has_come_times_out_at_once() {
    let mut storage = Storage::new(Counter::new());
    let mut record: RecordVersion<u32> = RecordVersion::new(9);
    let holder = storage.transaction();
    let mut holding = holder.start(&mut storage);
    assert!(holding.create(&storage, &mut record, nothing, 0, None).is_ok());

    let other = storage.transaction();
    let mut asking = other.start(&mut storage);
    assert_eq!(
        asking.create(&storage, &mut record, nothing, 0, Some(0)),
        Err(Error::Timeout)
    );
    assert_eq!(
        asking.create(&storage, &mut record, nothing, 7, Some(8)),
        Ok(Acquisition::Blocked)
    );
    assert_eq!(
        asking.create(&storage, &mut record, nothing, 8, Some(8)),
        Err(Error::Timeout)
    );
    assert_eq!(
        asking.create(&storage, &mut record, nothing, u64::MAX, None),
        Ok(Acquisition::Blocked)
    );
    assert_eq!(record.len(), 1);
}

#[test]
fn waiters_are_woken_in_the_order_in_which_they_came() {
    let mut storage = Storage::new(Counter::new());
    let mut record: RecordVersion<u32> = RecordVersion::new(9);
    let holder = storage.transaction();
    let mut holding = holder.start(&mut storage);
    assert!(holding.create(&storage, &mut record, nothing, 0, None).is_ok());

    let second = storage.transaction();
    let mut second_journal = second.start(&mut storage);
    let third = storage.transaction();
    let mut third_journal = third.start(&mut storage);
    assert_eq!(
        second_journal.create(&storage, &mut record, nothing, 1, None),
        Ok(Acquisition::Blocked)
    );
    assert_eq!(
        third_journal.create(&storage, &mut record, nothing, 2, Some(50)),
        Ok(Acquisition::Blocked)
    );
    assert_eq!(
        second_journal.create(&storage, &mut record, nothing, 3, None),
        Ok(Acquisition::Blocked)
    );
    assert_eq!(record.next_waiter(&storage), None);

    holding.discard(&mut storage);
    assert_eq!(record.next_waiter(&storage), Some(second_journal.place()));
    assert_eq!(
        third_journal.create(&storage, &mut record, nothing, 50, Some(50)),
        Ok(Acquisition::Acquired)
    );
    assert_eq!(record.next_waiter(&storage), None);
    third_journal.discard(&mut storage);
    assert_eq!(record.next_waiter(&storage), Some(second_journal.place()));
    assert_eq!(
        second_journal.create(&storage, &mut record, nothing, 51, None),
        Ok(Acquisition::Acquired)
    );
    second_journal.discard(&mut storage);
    assert_eq!(record.next_waiter(&storage), None);
}

#[test]
fn consolidate_drops_what_does_not_stand() {
    let mut storage = Storage::new(Counter::new());
    let mut record: RecordVersion<u32> = RecordVersion::new(9);

    let mut first = storage.transaction();
    let mut journal = first.start(&mut storage);
    assert!(journal.create(&storage, &mut record, || Ok(Some(1)), 0, None).is_ok());
    assert_eq!(journal.submit(&mut storage, &mut first), 1);
    assert!(!record.consolidate(&storage));
    assert_eq!(record.len(), 1);
    let committed = first.commit(&mut storage).unwrap().commit(&mut storage);
    assert_eq!(committed, 1);

    let second = storage.transaction();
    let mut dropped = second.start(&mut storage);
    assert!(dropped.create(&storage, &mut record, || Ok(Some(2)), 0, None).is_ok());
    assert!(dropped.create(&storage, &mut record, || Ok(Some(3)), 0, None).is_ok());
    assert_eq!(record.len(), 3);
    assert!(!record.consolidate(&storage));
    assert_eq!(record.len(), 3);
    dropped.discard(&mut storage);

    let seen = record.predate(&storage.snapshot(), &storage);
    assert!(seen);
    assert!(record.consolidate(&storage));
    assert_eq!(record.len(), 1);
    assert!(record.predate(&storage.snapshot(), &storage));
    assert_eq!(record.holder(&storage), None);
    assert!(record.consolidate(&storage));
    assert_eq!(record.len(), 1);
}

#[test]
fn journal_states_follow_the_journal() {
    let mut storage = Storage::new(Counter::new());
    let mut transaction = storage.transaction();
    let journal = transaction.start(&mut storage);
    let place = journal.place();
    assert_eq!(journal.owner(), transaction.place());
    assert!(journal.is_attached(&storage));
    assert!(storage.is_holding(place));
    assert_eq!(storage.journal(place).unwrap().state, JournalState::Open);
    assert_eq!(storage.journal(place + 1), None);
    assert!(!storage.is_holding(place + 1));

    let snapshot = journal.snapshot(&storage, &transaction);
    assert_eq!(snapshot.transaction, Some(transaction.place()));
    assert_eq!(snapshot.journal_clock, Some(0));
    assert_eq!(snapshot.sequencer_clock, 0);

    assert_eq!(journal.submit(&mut storage, &mut transaction), 1);
    assert_eq!(
        storage.journal(place).unwrap().state,
        JournalState::Submitted(1)
    );
    assert!(storage.is_holding(place));

    let other = transaction.start(&mut storage);
    let other_place = other.place();
    other.discard(&mut storage);
    assert_eq!(transaction.clock(), 1);
    assert_eq!(
        storage.journal(other_place).unwrap().state,
        JournalState::Discarded
    );
    assert!(!storage.is_holding(other_place));

    let rubicon = transaction.commit(&mut storage).unwrap();
    assert!(storage.is_holding(place));
    rubicon.commit(&mut storage);
    assert!(!storage.is_holding(place));
    assert_eq!(
        storage.journal(place).unwrap().state,
        JournalState::Submitted(1)
    );
}

#[test]
fn deadline_is_the_timeout_after_now() {
    assert_eq!(tss::deadline(5, Some(100)), Some(105));
    assert_eq!(tss::deadline(5, Some(0)), Some(5));
    assert_eq!(tss::deadline(5, None), None);
    assert_eq!(tss::deadline(u64::MAX - 1, Some(1)), Some(u64::MAX));
    assert_eq!(tss::deadline(u64::MAX - 1, Some(2)), Some(u64::MAX));
    assert_eq!(tss::deadline(u64::MAX, Some(u64::MAX)), Some(u64::MAX));
}

#[test]
fn discarding_in_another_storage_changes_nothing() {
    let mut home = Storage::new(Counter::new());
    let mut elsewhere = Storage::new(Counter::new());
    let transaction = home.transaction();
    let journal = transaction.start(&mut home);
    let place = journal.place();
    assert!(!journal.is_attached(&elsewhere));
    journal.discard(&mut elsewhere);
    assert_eq!(elsewhere.journal(place), None);
    assert_eq!(home.journal(place).unwrap().state, JournalState::Open);
}
