//! In-memory collaborators: a source stream drawn from a vector, a store
//! backed by a vector, and a store that refuses operations on demand, for
//! exercising failure paths.

use vstd::prelude::*;

use crate::types::{Byte, FileLike, IoError, Stream, splice};

verus! {

/// A source stream that yields the bytes of a vector, front to back.
pub struct MemStream {
    pub data: Vec<Byte>,
    pub taken: usize,
}

impl MemStream {
    /// A stream that will yield exactly the bytes of `data`, in order.
    pub fn new(data: Vec<Byte>) -> (s: MemStream)
        ensures
            s.remaining() == data@,
    {
        let s = MemStream { data, taken: 0 };
        proof {
            assert(s.remaining() =~= s.data@);
        }
        s
    }
}

impl Stream for MemStream {
    open spec fn remaining(&self) -> Seq<Byte> {
        if self.taken as int <= self.data@.len() {
            self.data@.skip(self.taken as int)
        } else {
            Seq::<Byte>::empty()
        }
    }

    fn next(&mut self) -> (r: Option<Byte>) {
        if self.taken < self.data.len() {
            let b = self.data[self.taken];
            self.taken = self.taken + 1;
            proof {
                assert(self.remaining() =~= old(self).remaining().drop_first());
            }
            Some(b)
        } else {
            None
        }
    }
}

/// A backing store held entirely in a vector; its operations never fail.
pub struct MemFile {
    pub data: Vec<Byte>,
    pub at: usize,
}

impl MemFile {
    /// An empty store with its position at the start.
    pub fn new() -> (f: MemFile)
        ensures
            f.contents() == Seq::<Byte>::empty(),
            f.pos() == 0,
    {
        MemFile { data: Vec::new(), at: 0 }
    }
}

impl FileLike for MemFile {
    open spec fn contents(&self) -> Seq<Byte> {
        self.data@
    }

    open spec fn pos(&self) -> int {
        self.at as int
    }

    fn seek(&mut self, offset: usize) -> (r: Result<(), IoError>) {
        self.at = offset;
        Ok(())
    }

    fn write(&mut self, buf: &Vec<Byte>) -> (r: Result<(), IoError>) {
        let mut i: usize = 0;
        while i < buf.len()
            invariant
                i <= buf@.len(),
                self.at as int == old(self).at + i,
                self.at <= self.data@.len(),
                self.data@ == splice(old(self).data@, old(self).at as int, buf@.take(i as int)),
            decreases buf@.len() - i,
        {
            let b = buf[i];
            proof {
                assert(buf@.take(i as int).push(b) =~= buf@.take(i + 1));
                assert(splice(old(self).data@, old(self).at as int, buf@.take(i + 1)) =~= (
                if self.at < self.data@.len() {
                    self.data@.update(self.at as int, b)
                } else {
                    self.data@.push(b)
                }));
            }
            if self.at < self.data.len() {
                self.data.set(self.at, b);
                self.at = self.at + 1;
            } else {
                self.data.push(b);
                self.at = self.data.len();
            }
            i = i + 1;
        }
        proof {
            assert(buf@.take(buf@.len() as int) =~= buf@);
        }
        Ok(())
    }

    fn read(&mut self, buf: &mut Vec<Byte>) -> (r: Result<(), IoError>) {
        let n = buf.len();
        let dlen: usize = self.data.len();
        let mut i: usize = 0;
        while i < n
            invariant
                i <= n,
                n == buf@.len(),
                dlen == self.data@.len(),
                self.at + n <= dlen,
                self.data@ == old(self).data@,
                self.at == old(self).at,
                forall|j: int| 0 <= j < i ==> buf@[j] == self.data@[self.at + j],
            decreases n - i,
        {
            let b = self.data[self.at + i];
            buf.set(i, b);
            i = i + 1;
        }
        self.at = self.at + n;
        proof {
            assert(buf@ =~= old(self).data@.subrange(old(self).at as int, old(self).at + n));
        }
        Ok(())
    }
}

/// A backing store that can be told to refuse any of its operations, so that
/// store-failure handling can be driven from tests. Refused operations leave
/// the underlying store untouched.
pub struct FaultFile {
    pub inner: MemFile,
    pub deny_seek: bool,
    pub deny_write: bool,
    pub deny_read: bool,
}

impl FileLike for FaultFile {
    open spec fn contents(&self) -> Seq<Byte> {
        self.inner.contents()
    }

    open spec fn pos(&self) -> int {
        self.inner.pos()
    }

    fn seek(&mut self, offset: usize) -> (r: Result<(), IoError>) {
        if self.deny_seek {
            Err(IoError::Seek)
        } else {
            self.inner.seek(offset)
        }
    }

    fn write(&mut self, buf: &Vec<Byte>) -> (r: Result<(), IoError>) {
        if self.deny_write {
            Err(IoError::Write)
        } else {
            self.inner.write(buf)
        }
    }

    fn read(&mut self, buf: &mut Vec<Byte>) -> (r: Result<(), IoError>) {
        if self.deny_read {
            Err(IoError::Read)
        } else {
            self.inner.read(buf)
        }
    }
}

} // verus!
