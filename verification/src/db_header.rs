//! The header of the database file.
//!
//! The header occupies the first 32 bytes of the file: four 64-bit fields, each stored least
//! significant byte first, in the order `version`, `log_offset`, `directory_offset`,
//! `free_page_link`.

use crate::error::Error;
use crate::random_access_file::{resized, stored, RandomAccessFile};
use vstd::prelude::*;

verus! {

/// The database version.
pub const VERSION: u64 = 1;

/// The size of a page.
pub const PAGE_SIZE: u64 = 512;

/// The number of bytes that the header occupies.
pub const HEADER_SIZE: usize = 32;

/// The header of the database file.
#[derive(Clone, Copy, Debug, PartialEq, Eq, Structural)]
pub struct DatabaseHeader {
    /// Version.
    pub version: u64,
    /// The offset in the file that indicates the start page of the log space.
    pub log_offset: u64,
    /// The offset in the file that indicates the start page of the directory space.
    pub directory_offset: u64,
    /// A linked list of free pages.
    pub free_page_link: u64,
}

/// The number that the eight bytes of `bytes` from `at` on denote, least significant byte
/// first.
pub open spec fn word_at(bytes: Seq<u8>, at: int) -> int {
    bytes[at] + 0x100 * (bytes[at + 1] + 0x100 * (bytes[at + 2] + 0x100 * (bytes[at + 3] + 0x100
        * (bytes[at + 4] + 0x100 * (bytes[at + 5] + 0x100 * (bytes[at + 6] + 0x100 * bytes[at
        + 7]))))))
}

/// The eight bytes that denote `value`, least significant byte first: the remainders of
/// `value` under repeated division by 256.
pub open spec fn word_bytes(value: u64) -> Seq<u8> {
    let v0 = value as int;
    let v1 = v0 / 0x100;
    let v2 = v1 / 0x100;
    let v3 = v2 / 0x100;
    let v4 = v3 / 0x100;
    let v5 = v4 / 0x100;
    let v6 = v5 / 0x100;
    let v7 = v6 / 0x100;
    seq![
        (v0 % 0x100) as u8,
        (v1 % 0x100) as u8,
        (v2 % 0x100) as u8,
        (v3 % 0x100) as u8,
        (v4 % 0x100) as u8,
        (v5 % 0x100) as u8,
        (v6 % 0x100) as u8,
        (v7 % 0x100) as u8,
    ]
}

/// The content of a file after `header` has been flushed to a file that held `content`: at
/// least three pages long, with the header's image in its first 32 bytes.
pub open spec fn flushed(content: Seq<u8>, header: DatabaseHeader) -> Seq<u8> {
    let room = if content.len() < 3 * PAGE_SIZE {
        resized(content, 3 * PAGE_SIZE)
    } else {
        content
    };
    stored(room, header.image(), 0)
}

/// Decoding the bytes of a number gives the number back.
pub proof fn word_of_bytes(value: u64)
    ensures
        word_bytes(value).len() == 8,
        word_at(word_bytes(value), 0) == value,
{
    let v0 = value as int;
    let v1 = v0 / 0x100;
    let v2 = v1 / 0x100;
    let v3 = v2 / 0x100;
    let v4 = v3 / 0x100;
    let v5 = v4 / 0x100;
    let v6 = v5 / 0x100;
    let v7 = v6 / 0x100;
    assert(v7 < 0x100);
    assert(v6 == v6 % 0x100 + 0x100 * v7);
    assert(v5 == v5 % 0x100 + 0x100 * v6);
    assert(v4 == v4 % 0x100 + 0x100 * v5);
    assert(v3 == v3 % 0x100 + 0x100 * v4);
    assert(v2 == v2 % 0x100 + 0x100 * v3);
    assert(v1 == v1 % 0x100 + 0x100 * v2);
    assert(v0 == v0 % 0x100 + 0x100 * v1);
}

/// Encoding the number that eight bytes denote gives the bytes back.
pub proof fn bytes_of_word(bytes: Seq<u8>)
    requires
        bytes.len() == 8,
    ensures
        0 <= word_at(bytes, 0) <= u64::MAX,
        word_bytes(word_at(bytes, 0) as u64) == bytes,
{
    let w7 = bytes[7] as int;
    let w6 = bytes[6] + 0x100 * w7;
    let w5 = bytes[5] + 0x100 * w6;
    let w4 = bytes[4] + 0x100 * w5;
    let w3 = bytes[3] + 0x100 * w4;
    let w2 = bytes[2] + 0x100 * w3;
    let w1 = bytes[1] + 0x100 * w2;
    let w0 = bytes[0] + 0x100 * w1;
    assert(w0 == word_at(bytes, 0));
    assert(0 <= w0 <= u64::MAX);
    assert(w0 / 0x100 == w1 && w0 % 0x100 == bytes[0]);
    assert(w1 / 0x100 == w2 && w1 % 0x100 == bytes[1]);
    assert(w2 / 0x100 == w3 && w2 % 0x100 == bytes[2]);
    assert(w3 / 0x100 == w4 && w3 % 0x100 == bytes[3]);
    assert(w4 / 0x100 == w5 && w4 % 0x100 == bytes[4]);
    assert(w5 / 0x100 == w6 && w5 % 0x100 == bytes[5]);
    assert(w6 / 0x100 == w7 && w6 % 0x100 == bytes[6]);
    assert(w7 % 0x100 == bytes[7]);
    assert(word_bytes(w0 as u64) =~= bytes);
}

/// A header that was flushed to a file is the header that the file then holds.
pub proof fn header_survives_flush(content: Seq<u8>, header: DatabaseHeader)
    ensures
        flushed(content, header).len() >= HEADER_SIZE,
        DatabaseHeader::parsed(flushed(content, header)) == header,
{
    let image = header.image();
    let after = flushed(content, header);
    word_of_bytes(header.version);
    word_of_bytes(header.log_offset);
    word_of_bytes(header.directory_offset);
    word_of_bytes(header.free_page_link);
    assert(image.len() == 32);
    assert(forall|i: int| 0 <= i < 32 ==> after[i] == image[i]);
    assert(forall|i: int| 0 <= i < 8 ==> image[i] == word_bytes(header.version)[i]);
    assert(forall|i: int| 0 <= i < 8 ==> image[8 + i] == word_bytes(header.log_offset)[i]);
    assert(forall|i: int| 0 <= i < 8 ==> image[16 + i] == word_bytes(header.directory_offset)[i]);
    assert(forall|i: int| 0 <= i < 8 ==> image[24 + i] == word_bytes(header.free_page_link)[i]);
}

/// Returns the eight bytes of `value`, least significant byte first.
pub fn to_le_bytes(value: u64) -> (bytes: Vec<u8>)
    ensures
        bytes@ == word_bytes(value),
{
    let mut bytes: Vec<u8> = Vec::new();
    let mut rest: u64 = value;
    bytes.push((rest % 0x100) as u8);
    rest = rest / 0x100;
    bytes.push((rest % 0x100) as u8);
    rest = rest / 0x100;
    bytes.push((rest % 0x100) as u8);
    rest = rest / 0x100;
    bytes.push((rest % 0x100) as u8);
    rest = rest / 0x100;
    bytes.push((rest % 0x100) as u8);
    rest = rest / 0x100;
    bytes.push((rest % 0x100) as u8);
    rest = rest / 0x100;
    bytes.push((rest % 0x100) as u8);
    rest = rest / 0x100;
    bytes.push((rest % 0x100) as u8);
    assert(bytes@ =~= word_bytes(value));
    bytes
}

/// Returns the number that the eight bytes of `bytes` denote, least significant byte first.
pub fn from_le_bytes(bytes: &Vec<u8>) -> (value: u64)
    requires
        bytes@.len() == 8,
    ensures
        value == word_at(bytes@, 0),
{
    let mut value: u64 = bytes[7] as u64;
    value = value * 0x100 + bytes[6] as u64;
    value = value * 0x100 + bytes[5] as u64;
    value = value * 0x100 + bytes[4] as u64;
    value = value * 0x100 + bytes[3] as u64;
    value = value * 0x100 + bytes[2] as u64;
    value = value * 0x100 + bytes[1] as u64;
    value = value * 0x100 + bytes[0] as u64;
    value
}

impl DatabaseHeader {
    /// The header of a database file that has just been created.
    pub open spec fn initial() -> DatabaseHeader {
        DatabaseHeader {
            version: VERSION,
            log_offset: PAGE_SIZE,
            directory_offset: (PAGE_SIZE * 2) as u64,
            free_page_link: 0,
        }
    }

    /// The 32 bytes in which a file holds this header.
    pub open spec fn image(self) -> Seq<u8> {
        word_bytes(self.version) + word_bytes(self.log_offset) + word_bytes(
            self.directory_offset,
        ) + word_bytes(self.free_page_link)
    }

    /// The header that the first 32 bytes of `content` hold.
    pub open spec fn parsed(content: Seq<u8>) -> DatabaseHeader {
        DatabaseHeader {
            version: word_at(content, 0) as u64,
            log_offset: word_at(content, 8) as u64,
            directory_offset: word_at(content, 16) as u64,
            free_page_link: word_at(content, 24) as u64,
        }
    }

    /// Reads the header from the database file.
    ///
    /// It writes the header information into the file if none present: an empty file receives
    /// the initial header and grows to three pages. A file that is not empty is left as it is;
    /// if it ends before the header does, the read fails with `UnexpectedEof`.
    pub fn from_file(db: &mut RandomAccessFile) -> (result: Result<DatabaseHeader, Error>)
        ensures
            match result {
                Ok(header) => if old(db)@.len() == 0 {
                    header == DatabaseHeader::initial() && final(db)@ == flushed(
                        old(db)@,
                        DatabaseHeader::initial(),
                    )
                } else {
                    old(db)@.len() >= HEADER_SIZE && header == DatabaseHeader::parsed(old(db)@)
                        && final(db)@ == old(db)@
                },
                Err(e) => 0 < old(db)@.len() < HEADER_SIZE && e == Error::IO(
                    crate::error::ErrorKind::UnexpectedEof,
                ) && final(db)@ == old(db)@,
            },
    {
        if db.len() == 0 {
            let db_header = DatabaseHeader::default();
            db_header.flush_header(db)?;
            Ok(db_header)
        } else {
            let mut buffer;
            buffer = db.read(0, 8)?;
            let version = from_le_bytes(&buffer);
            buffer = db.read(8, 8)?;
            let log_offset = from_le_bytes(&buffer);
            buffer = db.read(16, 8)?;
            let directory_offset = from_le_bytes(&buffer);
            buffer = db.read(24, 8)?;
            let free_page_link = from_le_bytes(&buffer);
            Ok(DatabaseHeader { version, log_offset, directory_offset, free_page_link })
        }
    }

    /// Flushes the content of the [`DatabaseHeader`] to the database file.
    ///
    /// A file shorter than three pages grows to three pages first. What lies behind the header
    /// is kept.
    pub fn flush_header(&self, db: &mut RandomAccessFile) -> (result: Result<(), Error>)
        ensures
            result == Ok::<(), Error>(()),
            final(db)@ == flushed(old(db)@, *self),
    {
        let minimum: usize = (PAGE_SIZE * 3) as usize;
        if db.len() < minimum {
            db.set_len(minimum);
        }
        let ghost room = db@;
        let mut buffer;
        buffer = to_le_bytes(self.version);
        db.write(buffer.as_slice(), 0)?;
        buffer = to_le_bytes(self.log_offset);
        db.write(buffer.as_slice(), 8)?;
        buffer = to_le_bytes(self.directory_offset);
        db.write(buffer.as_slice(), 16)?;
        buffer = to_le_bytes(self.free_page_link);
        db.write(buffer.as_slice(), 24)?;
        assert(db@ =~= stored(room, self.image(), 0));
        Ok(())
    }
}

impl Default for DatabaseHeader {
    fn default() -> (header: DatabaseHeader)
        ensures
            header == DatabaseHeader::initial(),
    {
        DatabaseHeader {
            version: VERSION,
            log_offset: PAGE_SIZE,
            directory_offset: PAGE_SIZE * 2,
            free_page_link: 0,
        }
    }
}

} // verus!
