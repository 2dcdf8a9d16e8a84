//! Reading a part of a file piece by piece.

use vstd::prelude::*;

verus! {

/// The most that one read asks for.
pub const MAX_READ: u64 = 65_536;

/// Where a piecewise read of `size` bytes stands: the place of the next read
/// in the file and the bytes handed out so far.
#[derive(Clone, Copy, Debug, PartialEq, Eq, Structural)]
pub struct ChunkedReadFile {
    pub size: u64,
    pub offset: u64,
    pub counter: u64,
}

/// Why a read could not go on.
#[derive(Clone, Copy, Debug, PartialEq, Eq, Structural)]
pub enum ReadError {
    /// The file ended before the part was read.
    UnexpectedEof,
}

impl ChunkedReadFile {
    /// No more was handed out than asked for, and the part ends within what
    /// sixty-four bits can address.
    pub open spec fn wf(&self) -> bool {
        self.counter <= self.size && self.offset + (self.size - self.counter) <= u64::MAX
    }

    /// Every byte was handed out.
    pub open spec fn done(&self) -> bool {
        self.counter == self.size
    }

    /// A read of `size` bytes that starts at `offset`.
    pub fn new(offset: u64, size: u64) -> (reader: ChunkedReadFile)
        requires
            offset + size <= u64::MAX,
        ensures
            reader == (ChunkedReadFile { size, offset, counter: 0 }),
            reader.wf(),
    {
        ChunkedReadFile { size, offset, counter: 0 }
    }

    /// The next read: where it starts and how many bytes it may bring at
    /// most; none when all was read.
    pub fn next_read(&self) -> (read: Option<(u64, u64)>)
        requires
            self.wf(),
        ensures
            read == if self.done() {
                None
            } else {
                Some(
                    (
                        self.offset,
                        if self.size - self.counter < MAX_READ {
                            (self.size - self.counter) as u64
                        } else {
                            MAX_READ
                        },
                    ),
                )
            },
    {
        if self.size == self.counter {
            None
        } else {
            let left: u64 = self.size - self.counter;
            let most: u64 = if left < MAX_READ {
                left
            } else {
                MAX_READ
            };
            Some((self.offset, most))
        }
    }

    /// Takes note that a read brought `nbytes`: both counters move on by as
    /// much. A read that brought nothing, or more than was left, is an error
    /// and changes nothing.
    pub fn advance(&mut self, nbytes: u64) -> (moved: Result<(), ReadError>)
        requires
            old(self).wf(),
        ensures
            final(self).wf(),
            match moved {
                Ok(()) => {
                    &&& 0 < nbytes <= old(self).size - old(self).counter
                    &&& *final(self) == (ChunkedReadFile {
                        size: old(self).size,
                        offset: (old(self).offset + nbytes) as u64,
                        counter: (old(self).counter + nbytes) as u64,
                    })
                },
                Err(e) => {
                    &&& e == ReadError::UnexpectedEof
                    &&& (nbytes == 0 || nbytes > old(self).size - old(self).counter)
                    &&& *final(self) == *old(self)
                },
            },
    {
        if nbytes == 0 || nbytes > self.size - self.counter {
            return Err(ReadError::UnexpectedEof);
        }
        self.offset = self.offset + nbytes;
        self.counter = self.counter + nbytes;
        Ok(())
    }
}

} // verus!
