use tss::{
    Acquisition, Anchor, Counter, Error, JournalAnchor, JournalState, RecordVersion, Sequencer,
    Snapshot, Storage, DEFAULT_CLOCK,
};

fn nothing() -> Result<Option<usize>, Error> {
    Ok(None)
}

#[test]
fn visibility() {
    let mut storage = Storage::new(Counter::new());
    let mut versioned_object: RecordVersion<usize> = RecordVersion::new(7);
    let mut transaction = storage.transaction();

    let mut journal = transaction.start(&mut storage);
    assert!(journal
        .create(&storage, &mut versioned_object, nothing, 0, None)
        .is_ok());

    // Step 1. Tries to acquire lock acquired by an active transaction journal.
    let mut second = transaction.start(&mut storage);
    assert!(second
        .create(&storage, &mut versioned_object, nothing, 0, None)
        .is_err());
    second.discard(&mut storage);

    assert_eq!(journal.submit(&mut storage, &mut transaction), 1);

    // Step 2. Tries to acquire lock acquired by a submitted transaction journal.
    let mut third = transaction.start(&mut storage);
    assert!(third
        .create(&storage, &mut versioned_object, nothing, 0, None)
        .is_ok());
    assert_eq!(third.submit(&mut storage, &mut transaction), 2);

    assert!(transaction.commit(&mut storage).is_ok());
}

#[test]
fn wait_queue() {
    let mut storage = Storage::new(Counter::new());
    let mut versioned_object: RecordVersion<usize> = RecordVersion::new(7);
    let num_readers = 16;

    let mut before = Vec::new();
    for _ in 0..num_readers {
        let snapshot = storage.snapshot();
        assert!(!versioned_object.predate(&snapshot, &storage));
        before.push(snapshot);
    }

    let mut transaction = storage.transaction();
    let mut journal = transaction.start(&mut storage);
    let result = journal.create(&storage, &mut versioned_object, nothing, 0, None);
    assert!(result.is_ok());
    assert_eq!(journal.submit(&mut storage, &mut transaction), 1);
    for snapshot in &before {
        assert!(!versioned_object.predate(snapshot, &storage));
    }
    let rubicon = transaction.commit(&mut storage);
    assert!(rubicon.is_ok());
    for _ in 0..num_readers {
        let snapshot = storage.snapshot();
        assert!(!versioned_object.predate(&snapshot, &storage));
    }
    assert_ne!(rubicon.unwrap().commit(&mut storage), DEFAULT_CLOCK);

    for _ in 0..num_readers {
        let snapshot = storage.snapshot();
        assert!(versioned_object.predate(&snapshot, &storage));
    }
    for snapshot in &before {
        assert!(!versioned_object.predate(snapshot, &storage));
    }

    assert!(versioned_object.consolidate(&storage));

    let snapshot = storage.snapshot();
    assert!(versioned_object.predate(&snapshot, &storage));
}

#[test]
fn time_out() {
    let mut storage = Storage::new(Counter::new());
    let mut versioned_object: RecordVersion<usize> = RecordVersion::new(7);

    let mut transaction = storage.transaction();
    let mut journal = transaction.start(&mut storage);
    assert!(journal
        .create(&storage, &mut versioned_object, nothing, 0, None)
        .is_ok());

    let num_others = 16;
    let mut others = Vec::new();
    for _ in 0..num_others {
        let other = storage.transaction();
        let mut waiting = other.start(&mut storage);
        assert_eq!(
            waiting.create(&storage, &mut versioned_object, nothing, 0, Some(100)),
            Ok(Acquisition::Blocked)
        );
        assert_eq!(
            waiting.create(&storage, &mut versioned_object, nothing, 99, Some(100)),
            Ok(Acquisition::Blocked)
        );
        assert_eq!(
            waiting.create(&storage, &mut versioned_object, nothing, 100, Some(100)),
            Err(Error::Timeout)
        );
        waiting.discard(&mut storage);
        others.push(other);
    }

    assert_eq!(journal.submit(&mut storage, &mut transaction), 1);

    let patient = storage.transaction();
    let mut patient_journal = patient.start(&mut storage);
    assert_eq!(
        patient_journal.create(&storage, &mut versioned_object, nothing, 100, None),
        Ok(Acquisition::Blocked)
    );

    for other in &others {
        let mut waiting = other.start(&mut storage);
        assert_eq!(
            waiting.create(&storage, &mut versioned_object, nothing, 100, Some(200)),
            Ok(Acquisition::Blocked)
        );
        assert_eq!(
            waiting.create(&storage, &mut versioned_object, nothing, 200, Some(200)),
            Err(Error::Timeout)
        );
        waiting.discard(&mut storage);
    }

    let mut journal = transaction.start(&mut storage);
    assert!(journal
        .create(&storage, &mut versioned_object, nothing, 200, None)
        .is_ok());
    assert_eq!(journal.submit(&mut storage, &mut transaction), 2);

    let mut journal = transaction.start(&mut storage);
    assert!(journal
        .create(&storage, &mut versioned_object, nothing, 200, None)
        .is_ok());
    journal.discard(&mut storage);

    assert_eq!(versioned_object.next_waiter(&storage), None);
    transaction.rollback(&mut storage);
    assert_eq!(
        versioned_object.next_waiter(&storage),
        Some(patient_journal.place())
    );

    assert_eq!(
        patient_journal.create(&storage, &mut versioned_object, nothing, 300, None),
        Ok(Acquisition::Acquired)
    );
    assert_eq!(versioned_object.next_waiter(&storage), None);
}

#[test]
fn basic_commit() {
    let mut storage = Storage::new(Counter::new());
    let mut record: RecordVersion<usize> = RecordVersion::new(1);
    let mut transaction = storage.transaction();
    let mut journal = transaction.start(&mut storage);
    assert_eq!(
        journal.create(&storage, &mut record, || Ok(Some(11)), 0, None),
        Ok(Acquisition::Acquired)
    );
    assert_eq!(journal.submit(&mut storage, &mut transaction), 1);
    assert_eq!(transaction.clock(), 1);
    let place = transaction.place();
    let rubicon = transaction.commit(&mut storage).unwrap();
    assert_eq!(storage.anchor(place).unwrap().commit_snapshot(), DEFAULT_CLOCK);
    assert!(!record.predate(&storage.snapshot(), &storage));
    assert_eq!(rubicon.commit(&mut storage), 1);
    assert_eq!(
        storage.anchor(place),
        Some(Anchor {
            preliminary_snapshot: 0,
            commit_snapshot: 1
        })
    );
    assert!(record.predate(&storage.snapshot(), &storage));
}

#[test]
fn same_transaction_conflict() {
    let mut storage = Storage::new(Counter::new());
    let mut record: RecordVersion<usize> = RecordVersion::new(1);
    let transaction = storage.transaction();
    let mut a = transaction.start(&mut storage);
    assert_eq!(
        a.create(&storage, &mut record, nothing, 0, None),
        Ok(Acquisition::Acquired)
    );
    let mut b = transaction.start(&mut storage);
    assert_eq!(
        b.create(&storage, &mut record, nothing, 0, None),
        Err(Error::Conflict)
    );
    assert_eq!(record.holder(&storage), Some(a.place()));
    a.discard(&mut storage);
    assert_eq!(record.holder(&storage), None);
    assert_eq!(
        b.create(&storage, &mut record, nothing, 0, None),
        Ok(Acquisition::Acquired)
    );
    assert_eq!(record.holder(&storage), Some(b.place()));
}

#[test]
fn cross_transaction_wait_on_submitted_lock() {
    let mut storage = Storage::new(Counter::new());
    let mut record: RecordVersion<usize> = RecordVersion::new(1);
    let mut first = storage.transaction();
    let mut journal = first.start(&mut storage);
    assert_eq!(
        journal.create(&storage, &mut record, nothing, 0, None),
        Ok(Acquisition::Acquired)
    );
    assert_eq!(journal.submit(&mut storage, &mut first), 1);

    let second = storage.transaction();
    let mut waiting = second.start(&mut storage);
    assert_eq!(
        waiting.create(&storage, &mut record, nothing, 5, Some(105)),
        Ok(Acquisition::Blocked)
    );
    assert_eq!(record.next_waiter(&storage), None);
    assert_eq!(
        waiting.create(&storage, &mut record, nothing, 105, Some(105)),
        Err(Error::Timeout)
    );

    let rubicon = first.commit(&mut storage).unwrap();
    assert_eq!(
        waiting.create(&storage, &mut record, nothing, 106, None),
        Ok(Acquisition::Blocked)
    );
    assert_eq!(rubicon.commit(&mut storage), 1);
    assert_eq!(record.next_waiter(&storage), Some(waiting.place()));
    assert_eq!(
        waiting.create(&storage, &mut record, nothing, 107, None),
        Ok(Acquisition::Acquired)
    );
}

#[test]
fn rewind() {
    let mut storage = Storage::new(Counter::new());
    let mut transaction = storage.transaction();
    let mut places = Vec::new();
    for expected in 1..=3 {
        let journal = transaction.start(&mut storage);
        places.push(journal.place());
        assert_eq!(journal.submit(&mut storage, &mut transaction), expected);
        assert_eq!(transaction.clock(), expected);
    }
    assert_eq!(transaction.rewind(&mut storage, 1), Ok(1));
    assert_eq!(transaction.clock(), 1);
    assert_eq!(transaction.rewind(&mut storage, 5), Err(Error::Fail));
    assert_eq!(transaction.clock(), 1);
    let owner = transaction.place();
    assert_eq!(
        storage.journal(places[0]),
        Some(JournalAnchor {
            transaction: owner,
            state: JournalState::Submitted(1)
        })
    );
    for place in &places[1..] {
        assert_eq!(
            storage.journal(*place),
            Some(JournalAnchor {
                transaction: owner,
                state: JournalState::Discarded
            })
        );
    }
    assert_eq!(transaction.rewind(&mut storage, 1), Ok(1));
    assert_eq!(transaction.rewind(&mut storage, 0), Ok(0));
    assert_eq!(transaction.clock(), 0);
    assert_eq!(transaction.rewind(&mut storage, 0), Ok(0));
    assert_eq!(transaction.rewind(&mut storage, 1), Err(Error::Fail));
}

#[test]
fn rewind_hides_what_was_popped() {
    let mut storage = Storage::new(Counter::new());
    let mut record: RecordVersion<usize> = RecordVersion::new(3);
    let mut transaction = storage.transaction();
    let mut journal = transaction.start(&mut storage);
    assert!(journal.create(&storage, &mut record, nothing, 0, None).is_ok());
    assert_eq!(journal.submit(&mut storage, &mut transaction), 1);
    let seen = transaction.snapshot(&storage);
    assert_eq!(
        seen,
        Snapshot {
            sequencer_clock: 0,
            transaction: Some(transaction.place()),
            journal_clock: Some(1)
        }
    );
    assert!(record.predate(&seen, &storage));
    assert!(!record.predate(&storage.snapshot(), &storage));
    assert_eq!(transaction.rewind(&mut storage, 0), Ok(0));
    assert!(!record.predate(&seen, &storage));
    assert!(!record.predate(&transaction.snapshot(&storage), &storage));
    let journal = transaction.start(&mut storage);
    assert_eq!(journal.submit(&mut storage, &mut transaction), 1);
    assert!(!record.predate(&transaction.snapshot(&storage), &storage));
}

#[test]
fn rubicon_rollback() {
    let mut storage = Storage::new(Counter::new());
    let mut record: RecordVersion<usize> = RecordVersion::new(1);
    let mut transaction = storage.transaction();
    let mut journal = transaction.start(&mut storage);
    assert!(journal.create(&storage, &mut record, nothing, 0, None).is_ok());
    assert_eq!(journal.submit(&mut storage, &mut transaction), 1);
    let place = transaction.place();
    let rubicon = transaction.commit(&mut storage).unwrap();
    rubicon.rollback(&mut storage);
    assert!(!record.predate(&storage.snapshot(), &storage));
    assert_eq!(storage.anchor(place).unwrap().commit_snapshot(), 0);
    assert_eq!(storage.clock(), 0);
    assert_eq!(record.holder(&storage), None);
    assert!(record.consolidate(&storage));
    assert_eq!(record.len(), 0);
}

#[test]
fn commit_clocks_are_strictly_ordered() {
    let mut storage = Storage::new(Counter::new());
    let mut last = storage.clock();
    for _ in 0..5 {
        let transaction = storage.transaction();
        let place = transaction.place();
        let rubicon = transaction.commit(&mut storage).unwrap();
        let observed = storage.sequencer().get();
        assert_eq!(storage.anchor(place).unwrap().preliminary_snapshot(), observed);
        let clock = rubicon.commit(&mut storage);
        assert!(clock > observed);
        assert!(clock > last);
        assert_eq!(storage.anchor(place).unwrap().commit_snapshot(), clock);
        last = clock;
    }
    assert_eq!(last, 5);
}

#[test]
fn declined_constructor_installs_nothing() {
    let mut storage = Storage::new(Counter::new());
    let mut record: RecordVersion<usize> = RecordVersion::new(1);
    let transaction = storage.transaction();
    let mut journal = transaction.start(&mut storage);
    assert_eq!(
        journal.create(&storage, &mut record, || Err(Error::Fail), 0, None),
        Err(Error::Fail)
    );
    assert_eq!(record.len(), 0);
    assert_eq!(record.holder(&storage), None);
}

#[test]
fn counter_stays_at_its_greatest_clock() {
    let mut counter = Counter::at(u64::MAX - 1);
    assert_eq!(counter.get(), u64::MAX - 1);
    assert_eq!(counter.advance(), u64::MAX);
    assert_eq!(counter.advance(), u64::MAX);
    assert_eq!(counter.get(), u64::MAX);
}

#[test]
fn own_snapshots_show_the_record_up_to_their_clock() {
    let mut storage = Storage::new(Counter::new());
    let mut transaction = storage.transaction();
    let mut records: Vec<RecordVersion<usize>> = Vec::new();
    let mut snapshots = vec![transaction.snapshot(&storage)];
    for name in 0..3 {
        let mut record = RecordVersion::new(name);
        let mut journal = transaction.start(&mut storage);
        assert_eq!(
            journal.create(&storage, &mut record, || Ok(Some(1)), 0, None),
            Ok(Acquisition::Acquired)
        );
        assert!(!record.predate(&transaction.snapshot(&storage), &storage));
        journal.submit(&mut storage, &mut transaction);
        records.push(record);
        snapshots.push(transaction.snapshot(&storage));
    }
    for (clock, snapshot) in snapshots.iter().enumerate() {
        assert_eq!(snapshot.journal_clock, Some(clock));
        for (at, record) in records.iter().enumerate() {
            assert_eq!(record.predate(snapshot, &storage), at < clock);
        }
    }
    let outside = storage.snapshot();
    let other = storage.transaction().snapshot(&storage);
    for record in &records {
        assert!(!record.predate(&outside, &storage));
        assert!(!record.predate(&other, &storage));
    }
    assert_eq!(transaction.rewind(&mut storage, 2), Ok(2));
    let current = transaction.snapshot(&storage);
    assert!(records[0].predate(&current, &storage));
    assert!(records[1].predate(&current, &storage));
    assert!(!records[2].predate(&current, &storage));
    assert!(!records[2].predate(&snapshots[3], &storage));
}
