//! A random-access file, held as the sequence of its bytes.

use crate::error::{Error, ErrorKind};
use vstd::prelude::*;

verus! {

/// `content` brought to `len` bytes: cut off behind `len`, or continued with zero bytes.
pub open spec fn resized(content: Seq<u8>, len: int) -> Seq<u8> {
    Seq::new(
        len as nat,
        |i: int|
            if i < content.len() {
                content[i]
            } else {
                0u8
            },
    )
}

/// `content` after `bytes` have been stored at `offset`: as long as `content`, or as long as
/// the store reaches, with zero bytes in any gap between the two.
pub open spec fn stored(content: Seq<u8>, bytes: Seq<u8>, offset: int) -> Seq<u8> {
    let end = offset + bytes.len();
    let len = if content.len() >= end {
        content.len() as int
    } else {
        end
    };
    Seq::new(
        len as nat,
        |i: int|
            if offset <= i < end {
                bytes[i - offset]
            } else if i < content.len() {
                content[i]
            } else {
                0u8
            },
    )
}

/// A file that is read and written at byte offsets.
///
/// The value is the file's content; whoever owns the value moves the bytes between it and a
/// device.
pub struct RandomAccessFile {
    content: Vec<u8>,
}

impl View for RandomAccessFile {
    type V = Seq<u8>;

    closed spec fn view(&self) -> Seq<u8> {
        self.content@
    }
}

impl RandomAccessFile {
    /// Creates an empty file.
    pub fn new() -> (file: RandomAccessFile)
        ensures
            file@ == Seq::<u8>::empty(),
    {
        RandomAccessFile { content: Vec::new() }
    }

    /// Creates a file that holds `content`.
    pub fn from_bytes(content: Vec<u8>) -> (file: RandomAccessFile)
        ensures
            file@ == content@,
    {
        RandomAccessFile { content }
    }

    /// Returns the content of the file.
    pub fn into_bytes(self) -> (content: Vec<u8>)
        ensures
            content@ == self@,
    {
        self.content
    }

    /// Returns the length of the file in bytes.
    pub fn len(&self) -> (len: usize)
        ensures
            len == self@.len(),
    {
        self.content.len()
    }

    /// Truncates or extends the file to `len` bytes; new bytes are zero.
    pub fn set_len(&mut self, len: usize)
        ensures
            final(self)@ == resized(old(self)@, len as int),
    {
        if len <= self.content.len() {
            self.content.truncate(len);
        } else {
            while self.content.len() < len
                invariant
                    old(self)@.len() <= self.content@.len() <= len,
                    self.content@ == resized(old(self)@, self.content@.len() as int),
                decreases len - self.content.len(),
            {
                self.content.push(0u8);
            }
        }
    }

    /// Reads `count` bytes at `offset`.
    ///
    /// Fails with `UnexpectedEof` if the file ends before `offset + count`.
    pub fn read(&self, offset: usize, count: usize) -> (result: Result<Vec<u8>, Error>)
        ensures
            match result {
                Ok(bytes) => offset + count <= self@.len() && bytes@ == self@.subrange(
                    offset as int,
                    offset + count,
                ),
                Err(e) => offset + count > self@.len() && e == Error::IO(ErrorKind::UnexpectedEof),
            },
    {
        if offset > self.content.len() || count > self.content.len() - offset {
            return Err(Error::IO(ErrorKind::UnexpectedEof));
        }
        let mut bytes: Vec<u8> = Vec::new();
        let mut i: usize = 0;
        while i < count
            invariant
                i <= count,
                offset + count <= self.content@.len() <= usize::MAX,
                bytes@ == self.content@.subrange(offset as int, offset + i),
            decreases count - i,
        {
            bytes.push(self.content[offset + i]);
            i += 1;
        }
        Ok(bytes)
    }

    /// Writes `bytes` at `offset`, extending the file with zero bytes where it is too short.
    ///
    /// Fails with `InvalidInput`, and writes nothing, if the end of the written range cannot be
    /// addressed.
    pub fn write(&mut self, bytes: &[u8], offset: usize) -> (result: Result<(), Error>)
        ensures
            match result {
                Ok(()) => offset + bytes@.len() <= usize::MAX && final(self)@ == stored(
                    old(self)@,
                    bytes@,
                    offset as int,
                ),
                Err(e) => offset + bytes@.len() > usize::MAX && e == Error::IO(
                    ErrorKind::InvalidInput,
                ) && final(self)@ == old(self)@,
            },
    {
        let count = bytes.len();
        if count > usize::MAX - offset {
            return Err(Error::IO(ErrorKind::InvalidInput));
        }
        if self.content.len() < offset + count {
            self.set_len(offset + count);
        }
        let ghost grown = self.content@;
        let mut i: usize = 0;
        while i < count
            invariant
                i <= count,
                count == bytes@.len(),
                offset + count <= self.content@.len() <= usize::MAX,
                self.content@.len() == grown.len(),
                grown == resized(old(self)@, grown.len() as int),
                grown.len() == stored(old(self)@, bytes@, offset as int).len(),
                forall|k: int|
                    0 <= k < grown.len() ==> self.content@[k] == if offset <= k < offset + i {
                        bytes@[k - offset]
                    } else {
                        grown[k]
                    },
            decreases count - i,
        {
            self.content.set(offset + i, bytes[i]);
            i += 1;
        }
        assert(self.content@ =~= stored(old(self)@, bytes@, offset as int));
        Ok(())
    }
}

} // verus!
