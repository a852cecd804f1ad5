use tss::{Anchor, Counter, Error, JournalState, Rubicon, Snapshot, Storage, DEFAULT_CLOCK};

fn at(sequencer_clock: u64) -> Snapshot {
    Snapshot {
        sequencer_clock,
        transaction: None,
        journal_clock: None,
    }
}

fn within(sequencer_clock: u64, transaction: usize, journal_clock: usize) -> Snapshot {
    Snapshot {
        sequencer_clock,
        transaction: Some(transaction),
        journal_clock: Some(journal_clock),
    }
}

#[test]
fn committed_changes_are_seen_from_the_commit_clock_on() {
    let anchor = Anchor {
        preliminary_snapshot: 4,
        commit_snapshot: 5,
    };
    let state = JournalState::Submitted(3);
    assert!(!at(4).sees(1, &anchor, state));
    assert!(at(5).sees(1, &anchor, state));
    assert!(at(6).sees(1, &anchor, state));
    assert!(at(u64::MAX).sees(1, &anchor, state));
    assert!(!within(4, 1, 3).sees(1, &anchor, state));
    assert!(within(5, 2, 0).sees(1, &anchor, state));
    assert!(!at(9).sees(1, &anchor, JournalState::Open));
    assert!(!at(9).sees(1, &anchor, JournalState::Discarded));
}

#[test]
fn uncommitted_changes_are_seen_within_their_transaction_only() {
    let anchor = Anchor::new();
    assert_eq!(anchor.preliminary_snapshot(), DEFAULT_CLOCK);
    assert_eq!(anchor.commit_snapshot(), DEFAULT_CLOCK);
    let state = JournalState::Submitted(3);
    assert!(!at(100).sees(1, &anchor, state));
    assert!(!within(100, 2, 9).sees(1, &anchor, state));
    assert!(!within(100, 1, 2).sees(1, &anchor, state));
    assert!(within(100, 1, 3).sees(1, &anchor, state));
    assert!(within(0, 1, 4).sees(1, &anchor, state));
    assert!(!within(100, 1, 9).sees(1, &anchor, JournalState::Open));
    assert!(!within(100, 1, 9).sees(1, &anchor, JournalState::Discarded));
    let unscoped = Snapshot {
        sequencer_clock: 100,
        transaction: Some(1),
        journal_clock: None,
    };
    assert!(!unscoped.sees(1, &anchor, JournalState::Submitted(1)));
}

#[test]
fn later_snapshot_of_another_scope_may_see_less() {
    let anchor = Anchor::new();
    let state = JournalState::Submitted(1);
    let earlier = within(5, 1, 1);
    let later = at(6);
    assert!(earlier.sees(1, &anchor, state));
    assert!(!later.sees(1, &anchor, state));
}

#[test]
fn handle_outlives_what_the_transaction_becomes() {
    let mut storage = Storage::new(Counter::at(41));
    let transaction = storage.transaction();
    let place = transaction.place();
    assert!(storage.anchor_handle(place + 1).is_none());
    assert_eq!(storage.anchor(place + 1), None);

    let fresh = storage.anchor_handle(place).unwrap();
    assert_eq!(*fresh, Anchor::new());

    let rubicon = transaction.commit(&mut storage).unwrap();
    let issued = storage.anchor_handle(place).unwrap();
    assert_eq!(
        *issued,
        Anchor {
            preliminary_snapshot: 41,
            commit_snapshot: 0
        }
    );
    assert_eq!(rubicon.commit(&mut storage), 42);
    let completed = storage.anchor_handle(place).unwrap();
    drop(storage);
    assert_eq!(*fresh, Anchor::new());
    assert_eq!(issued.commit_snapshot(), 0);
    assert_eq!(
        *completed,
        Anchor {
            preliminary_snapshot: 41,
            commit_snapshot: 42
        }
    );
}

#[test]
fn unknown_transaction_cannot_commit() {
    let mut home = Storage::new(Counter::new());
    let mut elsewhere = Storage::new(Counter::at(10));
    let first = home.transaction();
    let second = home.transaction();
    assert_eq!(second.place(), 1);
    let refused: Result<Rubicon, Error> = second.commit(&mut elsewhere);
    assert_eq!(refused.err(), Some(Error::Fail));
    assert_eq!(elsewhere.clock(), 10);

    let rubicon = first.commit(&mut home).unwrap();
    assert_eq!(rubicon.commit(&mut elsewhere), DEFAULT_CLOCK);
    assert_eq!(elsewhere.clock(), 10);
    assert_eq!(home.anchor(0).unwrap().commit_snapshot(), DEFAULT_CLOCK);
}

#[test]
fn exhausted_sequencer_still_completes_commits() {
    let mut storage = Storage::new(Counter::at(u64::MAX));
    let transaction = storage.transaction();
    let rubicon = transaction.commit(&mut storage).unwrap();
    assert_eq!(rubicon.commit(&mut storage), u64::MAX);
    assert_eq!(
        storage.anchor(0),
        Some(Anchor {
            preliminary_snapshot: u64::MAX,
            commit_snapshot: u64::MAX
        })
    );
}
