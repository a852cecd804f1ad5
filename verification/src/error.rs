//! The errors that storage operations report.

use vstd::prelude::*;

verus! {

/// The kind of an input/output failure, as the backing store reports it.
#[derive(Clone, Copy, Debug, PartialEq, Eq, Structural)]
pub enum ErrorKind {
    /// Fewer bytes were available than an operation had to read.
    UnexpectedEof,
    /// An offset and a length do not describe an addressable range.
    InvalidInput,
    /// Any other failure of the backing store.
    Other,
}

/// The error of a storage operation.
#[derive(Clone, Copy, Debug, PartialEq, Eq, Structural)]
pub enum Error {
    /// A contract was violated: an invalid rewind target, or a commit on an anchor that has
    /// already been stamped.
    Fail,
    /// The deadline of a lock request passed before the lock could be acquired.
    Timeout,
    /// The lock is held by another open journal of the requester's own transaction.
    Conflict,
    /// The backing store failed.
    IO(ErrorKind),
}

} // verus!
