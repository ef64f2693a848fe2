//! Shared types and the collaborator contracts: the forward-only source
//! stream and the seekable backing store that together back a buffer.

use vstd::prelude::*;

verus! {

/// A single item of the source stream.
pub type Byte = u8;

/// A contiguous run of bytes handed back by a read.
pub type ByteBuf = Vec<Byte>;

/// What a read returns: the requested window, or the store failure that
/// aborted it.
pub type BufResult = Result<ByteBuf, IoError>;

/// A backing-store failure, named after the operation that refused.
/// Source exhaustion is never an error: it shortens the result instead.
#[derive(Clone, Copy, Debug, PartialEq, Eq, Structural)]
pub enum IoError {
    Seek,
    Read,
    Write,
}

/// `s` with `b` written over its bytes starting at `at`: bytes before `at`
/// and bytes past the written range keep their values, and the result grows
/// exactly as far as the write reaches past the end of `s`.
pub open spec fn splice(s: Seq<Byte>, at: int, b: Seq<Byte>) -> Seq<Byte>
    recommends
        0 <= at <= s.len(),
{
    Seq::new(
        if at + b.len() < s.len() {
            s.len()
        } else {
            (at + b.len()) as nat
        },
        |i: int|
            if at <= i < at + b.len() {
                b[i - at]
            } else {
                s[i]
            },
    )
}

/// Writing `b` and then `c` right after it is one write of `b + c`.
pub proof fn lemma_splice_concat(s: Seq<Byte>, at: int, b: Seq<Byte>, c: Seq<Byte>)
    requires
        0 <= at <= s.len(),
    ensures
        splice(splice(s, at, b), at + b.len(), c) == splice(s, at, b + c),
{
    assert(splice(splice(s, at, b), at + b.len(), c) =~= splice(s, at, b + c));
}

/// A write of nothing leaves the store as it was.
pub proof fn lemma_splice_empty(s: Seq<Byte>, at: int)
    requires
        0 <= at <= s.len(),
    ensures
        splice(s, at, Seq::<Byte>::empty()) == s,
{
    assert(splice(s, at, Seq::<Byte>::empty()) =~= s);
}

/// The one-shot, forward-only producer feeding a buffer. `remaining()` is
/// the sequence of bytes the stream will still yield, in order; `next`
/// consumes exactly its head, and answers `None` exactly when nothing is
/// left. An implementation whose underlying source can fail mid-stream
/// models the failure by ending `remaining()` at the failing item, so an
/// erroring fetch reads as exhaustion, never as a distinct error.
pub trait Stream: Sized {
    /// The bytes this stream will still yield, front to back.
    spec fn remaining(&self) -> Seq<Byte>;

    /// Yield the next byte, or report exhaustion.
    fn next(&mut self) -> (r: Option<Byte>)
        ensures
            match r {
                Some(b) => {
                    &&& old(self).remaining().len() > 0
                    &&& b == old(self).remaining()[0]
                    &&& final(self).remaining() == old(self).remaining().drop_first()
                },
                None => {
                    &&& old(self).remaining().len() == 0
                    &&& final(self).remaining() == old(self).remaining()
                },
            },
    ;
}

/// The randomly addressable store caching every byte already pulled from the
/// source: an absolute-offset seek, a positioned write and a positioned read,
/// each fallible. `contents()` is the bytes it durably holds and `pos()` its
/// current position. A failed operation never disturbs bytes below the
/// position it was issued at, so a buffer stays consistent across failures.
pub trait FileLike: Sized {
    /// The bytes the store holds, from offset zero.
    spec fn contents(&self) -> Seq<Byte>;

    /// The store's current read/write position.
    spec fn pos(&self) -> int;

    /// Move the position to `offset`, touching no stored byte.
    fn seek(&mut self, offset: usize) -> (r: Result<(), IoError>)
        ensures
            final(self).contents() == old(self).contents(),
            r is Ok ==> final(self).pos() == offset as int,
    ;

    /// Write all of `buf` at the current position, overwriting what is there
    /// and extending the store as needed. On failure the store may have
    /// grown, but every byte below the old position keeps its value.
    fn write(&mut self, buf: &Vec<Byte>) -> (r: Result<(), IoError>)
        requires
            0 <= old(self).pos() <= old(self).contents().len(),
        ensures
            r is Ok ==> {
                &&& final(self).contents() == splice(
                    old(self).contents(),
                    old(self).pos(),
                    buf@,
                )
                &&& final(self).pos() == old(self).pos() + buf@.len()
            },
            r is Err ==> {
                &&& old(self).contents().len() <= final(self).contents().len()
                &&& forall|i: int|
                    0 <= i < old(self).pos() ==> final(self).contents()[i] == old(
                        self,
                    ).contents()[i]
            },
    ;

    /// Fill `buf` from the current position, which must address bytes the
    /// store already holds. The store's contents never change; on failure
    /// `buf` keeps its length but its bytes are unspecified.
    fn read(&mut self, buf: &mut Vec<Byte>) -> (r: Result<(), IoError>)
        requires
            0 <= old(self).pos(),
            old(self).pos() + old(buf)@.len() <= old(self).contents().len(),
        ensures
            final(self).contents() == old(self).contents(),
            final(buf)@.len() == old(buf)@.len(),
            r is Ok ==> {
                &&& final(buf)@ == old(self).contents().subrange(
                    old(self).pos(),
                    old(self).pos() + old(buf)@.len(),
                )
                &&& final(self).pos() == old(self).pos() + old(buf)@.len()
            },
    ;
}

} // verus!
