//! The logical clock that orders the commits of a storage.

use vstd::prelude::*;

verus! {

/// The clock value that precedes every clock that a sequencer hands out.
pub const DEFAULT_CLOCK: u64 = 0;

/// A source of logical clock values that never go back.
///
/// The value of a sequencer is its current clock. Whoever owns the sequencer decides who
/// advances it; between two advances every reader sees the same clock.
pub trait Sequencer {
    /// The current clock.
    spec fn now(&self) -> u64;

    /// Returns the current clock.
    fn get(&self) -> (clock: u64)
        ensures
            clock == self.now(),
    ;

    /// Moves the clock forward and returns the new current clock.
    ///
    /// The new clock is greater than every clock read before, unless the clock has reached the
    /// greatest value that it can hold; there it stays.
    fn advance(&mut self) -> (clock: u64)
        ensures
            clock == final(self).now(),
            clock >= old(self).now(),
            old(self).now() < u64::MAX ==> clock > old(self).now(),
    ;
}

/// A sequencer that counts upwards from [`DEFAULT_CLOCK`] one by one.
#[derive(Debug)]
pub struct Counter {
    clock: u64,
}

impl Counter {
    /// Creates a counter at [`DEFAULT_CLOCK`].
    pub fn new() -> (counter: Counter)
        ensures
            counter.now() == DEFAULT_CLOCK,
    {
        Counter { clock: DEFAULT_CLOCK }
    }

    /// Creates a counter at `clock`.
    pub fn at(clock: u64) -> (counter: Counter)
        ensures
            counter.now() == clock,
    {
        Counter { clock }
    }
}

impl Sequencer for Counter {
    closed spec fn now(&self) -> u64 {
        self.clock
    }

    fn get(&self) -> (clock: u64) {
        self.clock
    }

    fn advance(&mut self) -> (clock: u64)
        ensures
            clock == if old(self).now() < u64::MAX {
                old(self).now() + 1
            } else {
                u64::MAX as int
            },
    {
        if self.clock < u64::MAX {
            self.clock = self.clock + 1;
        }
        self.clock
    }
}

} // verus!
