//! A transactional storage system core: transactions made of journals, snapshots bound to a
//! logical sequencer, and write locks on versioned records, together with the layout of the
//! database file header.

pub mod anchor;
pub mod db_header;
pub mod error;
pub mod journal;
pub mod random_access_file;
pub mod record;
pub mod sequencer;
pub mod snapshot;
pub mod storage;
pub mod transaction;

pub use anchor::Anchor;
pub use db_header::{DatabaseHeader, PAGE_SIZE, VERSION};
pub use error::{Error, ErrorKind};
pub use journal::{Annals, Journal};
pub use random_access_file::RandomAccessFile;
pub use record::{deadline, Acquisition, RecordVersion, Verdict, Version, Waiter};
pub use sequencer::{Counter, Sequencer, DEFAULT_CLOCK};
pub use snapshot::Snapshot;
pub use storage::{JournalAnchor, JournalState, Storage};
pub use transaction::{Rubicon, Transaction};
