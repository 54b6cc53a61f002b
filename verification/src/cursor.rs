//! A bounds-checked sequential reader over a byte buffer.

use crate::error::AviError;
use vstd::prelude::*;

verus! {

/// Where a seek moves the position to.
#[derive(Clone, Copy, Debug, PartialEq, Eq, Structural)]
pub enum Seek {
    /// By a signed distance from the current position.
    Current(isize),
    /// To an absolute offset from the start of the buffer.
    Start(usize),
}

impl Seek {
    /// The position that the seek leads to from `from`, as a mathematical
    /// integer.
    pub open spec fn target(self, from: int) -> int {
        match self {
            Seek::Current(delta) => from + delta,
            Seek::Start(offset) => offset as int,
        }
    }
}

/// A reader that walks a byte buffer from front to back. The position may
/// be moved anywhere; whether bytes are there is checked when they are read.
pub struct Cursor<'a> {
    data: &'a [u8],
    pointer: usize,
}

impl<'a> Cursor<'a> {
    /// The bytes that the cursor reads from.
    pub closed spec fn bytes(&self) -> Seq<u8> {
        self.data@
    }

    /// The current position, as a specification value.
    pub closed spec fn pos(&self) -> int {
        self.pointer as int
    }

    /// A cursor at the start of `data`.
    pub fn new(data: &'a [u8]) -> (cursor: Self)
        ensures
            cursor.bytes() == data@,
            cursor.pos() == 0,
    {
        Cursor { data, pointer: 0 }
    }

    /// The current position.
    pub fn position(&self) -> (p: usize)
        ensures
            p == self.pos(),
    {
        self.pointer
    }

    /// Moves the position. An absolute seek always succeeds. A relative seek
    /// fails, and moves nothing, exactly when its target is negative or
    /// larger than an offset can be.
    pub fn seek(&mut self, seek: Seek) -> (r: Result<(), AviError>)
        ensures
            final(self).bytes() == old(self).bytes(),
            0 <= seek.target(old(self).pos()) <= usize::MAX ==> r == Ok::<(), AviError>(())
                && final(self).pos() == seek.target(old(self).pos()),
            !(0 <= seek.target(old(self).pos()) <= usize::MAX) ==> r == Err::<(), AviError>(
                AviError::Overflow,
            ) && final(self).pos() == old(self).pos(),
    {
        match seek {
            Seek::Start(offset) => {
                self.pointer = offset;
                Ok(())
            },
            Seek::Current(delta) => {
                if delta >= 0 {
                    let forward: usize = delta as usize;
                    if forward > usize::MAX - self.pointer {
                        return Err(AviError::Overflow);
                    }
                    self.pointer = self.pointer + forward;
                    Ok(())
                } else {
                    let back: usize = (-(delta + 1)) as usize;
                    if self.pointer <= back {
                        return Err(AviError::Overflow);
                    }
                    self.pointer = self.pointer - back - 1;
                    Ok(())
                }
            },
        }
    }

    /// Reads the next `n` bytes and moves the position past them. Fails
    /// with `OutOfRange`, and moves nothing, exactly when fewer than `n`
    /// bytes remain after the position.
    pub fn read_exact(&mut self, n: usize) -> (r: Result<Vec<u8>, AviError>)
        ensures
            final(self).bytes() == old(self).bytes(),
            old(self).pos() + n <= old(self).bytes().len() ==> r is Ok && r->Ok_0@
                == old(self).bytes().subrange(old(self).pos(), old(self).pos() + n)
                && final(self).pos() == old(self).pos() + n,
            old(self).pos() + n > old(self).bytes().len() ==> r == Err::<Vec<u8>, AviError>(
                AviError::OutOfRange,
            ) && final(self).pos() == old(self).pos(),
    {
        let len = self.data.len();
        if self.pointer > len || n > len - self.pointer {
            return Err(AviError::OutOfRange);
        }
        let start = self.pointer;
        let mut buffer: Vec<u8> = Vec::new();
        for i in 0..n
            invariant
                start + n <= self.data@.len(),
                self.pointer == start + i,
                self.data == old(self).data,
                buffer@ == self.data@.subrange(start as int, start + i),
        {
            buffer.push(self.data[self.pointer]);
            self.pointer += 1;
            assert(buffer@ =~= self.data@.subrange(start as int, start + i + 1));
        }
        Ok(buffer)
    }
}

} // verus!
