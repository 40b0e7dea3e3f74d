//! The byte stream that frames are read from.

use vstd::prelude::*;

verus! {

/// A readable, seekable file. Its model is the whole content and the offset of
/// the next byte to read. Verified implementations define the model; the
/// defaults let plain Rust implement the trait, and claim nothing, since
/// proofs about an arbitrary implementation cannot rely on them.
pub trait ReadFile {
    type Error;

    /// Every byte of the file.
    closed spec fn content(&self) -> Seq<u8> {
        vstd::pervasive::arbitrary()
    }

    /// Offset of the next byte to read.
    closed spec fn cursor(&self) -> nat {
        vstd::pervasive::arbitrary()
    }

    /// Reads up to `buffer`'s length into buffer, starting at the current offset,
    /// and moves the offset past what was read. Fewer bytes come back only at the
    /// end of the file.
    fn read(&mut self, buffer: &mut [u8]) -> (r: Result<usize, Self::Error>)
        ensures
            final(self).content() == old(self).content(),
            final(buffer)@.len() == old(buffer)@.len(),
            r matches Ok(n) ==> {
                &&& n <= old(buffer)@.len()
                &&& old(self).cursor() + n <= old(self).content().len()
                &&& final(self).cursor() == old(self).cursor() + n
                &&& final(buffer)@.subrange(0, n as int) == old(self).content().subrange(
                    old(self).cursor() as int,
                    old(self).cursor() + n,
                )
                &&& n < old(buffer)@.len() ==> final(self).cursor() == old(self).content().len()
            },
    ;

    /// Moves the offset to `offset` bytes from the start of the file.
    fn seek_from_start(&mut self, offset: u32) -> (r: Result<(), Self::Error>)
        ensures
            final(self).content() == old(self).content(),
            r is Ok ==> offset <= old(self).content().len() && final(self).cursor() == offset,
    ;

    /// Moves the offset by `offset` bytes from where it is.
    fn seek_from_current(&mut self, offset: i32) -> (r: Result<(), Self::Error>)
        ensures
            final(self).content() == old(self).content(),
            r is Ok ==> 0 <= old(self).cursor() + offset <= old(self).content().len()
                && final(self).cursor() == old(self).cursor() + offset,
    ;
}

/// Seeking outside the file.
#[derive(Debug, Clone, Copy, PartialEq, Eq, Structural)]
pub struct InvalidOffset;

/// A file held in memory.
pub struct MemoryFile {
    data: Vec<u8>,
    offset: usize,
}

impl MemoryFile {
    /// Well formed: the offset lies within the data.
    pub closed spec fn wf(&self) -> bool {
        self.offset <= self.data@.len()
    }

    /// A file holding `data`, to be read from the start.
    pub fn new(data: Vec<u8>) -> (r: Self)
        ensures
            r.wf(),
            r.content() == data@,
            r.cursor() == 0,
    {
        MemoryFile { data, offset: 0 }
    }

    /// Offset of the next byte to read.
    pub fn offset(&self) -> (r: usize)
        ensures
            r == self.cursor(),
    {
        self.offset
    }
}

impl ReadFile for MemoryFile {
    type Error = InvalidOffset;

    closed spec fn content(&self) -> Seq<u8> {
        self.data@
    }

    closed spec fn cursor(&self) -> nat {
        self.offset as nat
    }

    fn read(&mut self, buffer: &mut [u8]) -> (r: Result<usize, InvalidOffset>) {
        if self.offset > self.data.len() {
            return Err(InvalidOffset);
        }
        let start = self.offset;
        let len = self.data.len();
        let left = len - start;
        let n: usize = if buffer.len() < left {
            buffer.len()
        } else {
            left
        };
        let mut i: usize = 0;
        while i < n
            invariant
                n <= buffer@.len(),
                start + n <= len,
                len == self.data@.len(),
                start == self.offset,
                i <= n,
                buffer@.len() == old(buffer)@.len(),
                forall|k: int| 0 <= k < i ==> #[trigger] buffer@[k] == self.data@[start + k],
            decreases n - i,
        {
            buffer[i] = self.data[start + i];
            i = i + 1;
        }
        assert(buffer@.subrange(0, n as int) =~= self.data@.subrange(
            self.offset as int,
            self.offset + n,
        ));
        self.offset = self.offset + n;
        Ok(n)
    }

    fn seek_from_start(&mut self, offset: u32) -> (r: Result<(), InvalidOffset>) {
        if offset as usize > self.data.len() {
            return Err(InvalidOffset);
        }
        self.offset = offset as usize;
        Ok(())
    }

    fn seek_from_current(&mut self, offset: i32) -> (r: Result<(), InvalidOffset>) {
        if self.offset > self.data.len() {
            return Err(InvalidOffset);
        }
        if offset < 0 {
            let back = (-(offset as i64)) as usize;
            if back > self.offset {
                return Err(InvalidOffset);
            }
            self.offset = self.offset - back;
        } else {
            let fwd = offset as usize;
            if fwd > self.data.len() - self.offset {
                return Err(InvalidOffset);
            }
            self.offset = self.offset + fwd;
        }
        Ok(())
    }
}

} // verus!
