//! Window classification and the four fetch strategies of the read engine.

use vstd::prelude::*;

use crate::buf::{
    Buffer, StreamBuffer, lemma_model_split, model, read_aborted, read_complete, state_unchanged,
};
use crate::constants::ZERO_BYTE;
use crate::types::{
    BufResult, Byte, FileLike, Stream, lemma_splice_concat, lemma_splice_empty, splice,
};
use crate::utils::{no_capacity_vec, sized_vec};

verus! {

/// `x`, clipped from above to `bound`.
pub open spec fn cap(x: int, bound: int) -> int {
    if x <= bound {
        x
    } else {
        bound
    }
}

/// The byte window `[offset, offset + size)` of `m`, clipped to the bytes
/// `m` actually has: a request past the end shortens to what exists, and a
/// request entirely past the end is empty.
pub open spec fn window(m: Seq<Byte>, offset: int, size: int) -> Seq<Byte>
    recommends
        0 <= offset,
        0 <= size,
{
    m.subrange(cap(offset, m.len() as int), cap(offset + size, m.len() as int))
}

/// Where the cursor stands after serving `[offset, offset + size)` against a
/// buffer whose model is `m` and whose cursor is `cursor`: an empty request
/// moves nothing, and otherwise the cursor advances to the clipped end of
/// the window whenever that lies beyond it.
pub open spec fn next_cursor(m: Seq<Byte>, cursor: int, offset: int, size: int) -> int {
    if size == 0 {
        cursor
    } else if cap(offset + size, m.len() as int) >= cursor {
        cap(offset + size, m.len() as int)
    } else {
        cursor
    }
}

/// How a requested window lies relative to the cursor.
pub enum Location {
    /// Entirely below the cursor: already cached.
    BeforeIndex,
    /// Straddling the cursor: the head is cached, the tail is not.
    Bisected,
    /// Starting exactly at the cursor.
    AtIndex,
    /// Starting strictly beyond the cursor.
    AfterIndex,
}

/// The classification of `[offset, offset + size)` against `cursor`. The
/// four cases are mutually exclusive and exhaustive for any `offset >= 0`.
pub open spec fn classify(cursor: int, offset: int, size: int) -> Location {
    if offset < cursor && offset + size <= cursor {
        Location::BeforeIndex
    } else if offset < cursor && cursor < offset + size {
        Location::Bisected
    } else if offset == cursor {
        Location::AtIndex
    } else {
        Location::AfterIndex
    }
}

/// Exactly one classification fits any request: each case holds if and only
/// if its defining window/cursor relation does.
pub proof fn lemma_classify_cases(cursor: int, offset: int, size: int)
    requires
        0 <= offset,
        0 <= size,
    ensures
        classify(cursor, offset, size) is BeforeIndex <==> (offset < cursor && offset + size
            <= cursor),
        classify(cursor, offset, size) is Bisected <==> (offset < cursor && cursor < offset
            + size),
        classify(cursor, offset, size) is AtIndex <==> offset == cursor,
        classify(cursor, offset, size) is AfterIndex <==> offset > cursor,
{
}

/// Classifying a request window against the cursor.
pub trait ChunkLocation: Buffer {
    /// Which of the four fetch strategies `[offset, offset + size)` needs.
    fn _chunk_location(&self, offset: usize, size: usize) -> (loc: Location)
        requires
            offset + size <= usize::MAX,
        ensures
            loc == classify(self.cursor(), offset as int, size as int),
    ;
}

/// The four fetch strategies. Each serves one classification and meets the
/// same completion contract as the dispatching read, for its own window.
pub trait ChunkRead: Buffer {
    /// Serve a window lying entirely below the cursor from the store. This
    /// strategy only reads: also when the store fails, nothing is pulled
    /// from the source and the cursor stands where it stood.
    fn _chunk_before_index(&mut self, offset: usize, size: usize) -> (r: BufResult)
        requires
            old(self).wf(),
            offset + size <= old(self).cursor(),
        ensures
            match r {
                Ok(out) => read_complete(
                    *old(self),
                    *final(self),
                    offset as int,
                    size as int,
                    out@,
                ),
                Err(_) => {
                    &&& read_aborted(*old(self), *final(self))
                    &&& state_unchanged(*old(self), *final(self))
                },
            },
    ;

    /// Serve a window straddling the cursor: the cached head from the store,
    /// the rest from the source.
    fn _chunk_bisected_by_index(&mut self, offset: usize, size: usize) -> (r: BufResult)
        requires
            old(self).wf(),
            offset < old(self).cursor(),
            old(self).cursor() < offset + size,
            offset + size <= usize::MAX,
        ensures
            match r {
                Ok(out) => read_complete(
                    *old(self),
                    *final(self),
                    offset as int,
                    size as int,
                    out@,
                ),
                Err(_) => read_aborted(*old(self), *final(self)),
            },
    ;

    /// Serve a window starting exactly at the cursor by pulling from the
    /// source, persisting every byte pulled.
    fn _chunk_at_index(&mut self, size: usize) -> (r: BufResult)
        requires
            old(self).wf(),
            old(self).cursor() + size <= usize::MAX,
        ensures
            match r {
                Ok(out) => read_complete(
                    *old(self),
                    *final(self),
                    old(self).cursor(),
                    size as int,
                    out@,
                ),
                Err(_) => read_aborted(*old(self), *final(self)),
            },
    ;

    /// Serve a window starting beyond the cursor: every intervening byte is
    /// pulled and persisted but kept out of the result.
    fn _chunk_after_index(&mut self, offset: usize, size: usize) -> (r: BufResult)
        requires
            old(self).wf(),
            old(self).cursor() < offset,
            offset + size <= usize::MAX,
        ensures
            match r {
                Ok(out) => read_complete(
                    *old(self),
                    *final(self),
                    offset as int,
                    size as int,
                    out@,
                ),
                Err(_) => read_aborted(*old(self), *final(self)),
            },
    ;
}

impl<S: Stream, F: FileLike> ChunkLocation for StreamBuffer<S, F> {
    fn _chunk_location(&self, offset: usize, size: usize) -> (loc: Location) {
        let end = offset + size;
        if offset < self.index && end <= self.index {
            Location::BeforeIndex
        } else if offset < self.index && self.index < end {
            Location::Bisected
        } else if offset == self.index {
            Location::AtIndex
        } else {
            Location::AfterIndex
        }
    }
}

impl<S: Stream, F: FileLike> ChunkRead for StreamBuffer<S, F> {
    fn _chunk_before_index(&mut self, offset: usize, size: usize) -> (r: BufResult) {
        proof {
            lemma_model_split(*self);
        }
        let mut buf = sized_vec(size, ZERO_BYTE);
        match self.file.seek(offset) {
            Ok(()) => {},
            Err(e) => {
                return Err(e);
            },
        }
        match self.file.read(&mut buf) {
            Ok(()) => {},
            Err(e) => {
                return Err(e);
            },
        }
        proof {
            let m = model(*old(self));
            assert(buf@ =~= window(m, offset as int, size as int));
        }
        Ok(buf)
    }

    fn _chunk_bisected_by_index(&mut self, offset: usize, size: usize) -> (r: BufResult) {
        proof {
            lemma_model_split(*self);
        }
        let existing_size = self.index - offset;
        let mut buf = match self._chunk_before_index(offset, existing_size) {
            Ok(b) => b,
            Err(e) => {
                return Err(e);
            },
        };
        let new_size = size - buf.len();
        let mut tail = match self._chunk_at_index(new_size) {
            Ok(b) => b,
            Err(e) => {
                return Err(e);
            },
        };
        buf.append(&mut tail);
        proof {
            let m = model(*old(self));
            assert(buf@ =~= window(m, offset as int, size as int));
        }
        Ok(buf)
    }

    fn _chunk_at_index(&mut self, size: usize) -> (r: BufResult) {
        proof {
            lemma_model_split(*self);
        }
        let seek_to = self.index;
        match self.file.seek(seek_to) {
            Ok(()) => {},
            Err(e) => {
                return Err(e);
            },
        }
        let mut buf: Vec<Byte> = no_capacity_vec();
        proof {
            lemma_splice_empty(old(self).file.contents(), old(self).index as int);
        }
        while buf.len() < size
            invariant
                old(self).wf(),
                old(self).cursor() + size <= usize::MAX,
                self.size == old(self).size,
                buf@.len() <= size,
                buf@.len() <= old(self).stream.remaining().len(),
                self.index as int == old(self).index + buf@.len(),
                buf@ == old(self).stream.remaining().take(buf@.len() as int),
                self.stream.remaining() == old(self).stream.remaining().skip(
                    buf@.len() as int,
                ),
                self.file.contents() == splice(
                    old(self).file.contents(),
                    old(self).index as int,
                    buf@,
                ),
                self.file.pos() == self.index as int,
                self.index as int <= self.file.contents().len(),
            ensures
                buf@.len() == size || self.stream.remaining().len() == 0,
            decreases size - buf@.len(),
        {
            match self.stream.next() {
                None => {
                    break ;
                },
                Some(b) => {
                    let mut one: Vec<Byte> = no_capacity_vec();
                    one.push(b);
                    proof {
                        lemma_splice_concat(
                            old(self).file.contents(),
                            old(self).index as int,
                            buf@,
                            one@,
                        );
                        assert(buf@ + one@ =~= buf@.push(b));
                        assert(buf@.push(b) =~= old(self).stream.remaining().take(
                            buf@.len() as int + 1,
                        ));
                    }
                    match self.file.write(&one) {
                        Ok(()) => {},
                        Err(e) => {
                            proof {
                                let k = buf@.len() as int;
                                assert(old(self).stream.remaining().skip(k).drop_first()
                                    =~= old(self).stream.remaining().skip(k + 1));
                                lemma_at_index_aborted(*old(self), *self, k);
                            }
                            return Err(e);
                        },
                    }
                    self.index = self.index + 1;
                    buf.push(b);
                },
            }
        }
        proof {
            lemma_at_index_complete(*old(self), *self, size as int, buf@);
        }
        Ok(buf)
    }

    fn _chunk_after_index(&mut self, offset: usize, size: usize) -> (r: BufResult) {
        proof {
            lemma_model_split(*self);
        }
        let seek_to = self.index;
        match self.file.seek(seek_to) {
            Ok(()) => {},
            Err(e) => {
                return Err(e);
            },
        }
        let mut buf: Vec<Byte> = no_capacity_vec();
        proof {
            lemma_splice_empty(old(self).file.contents(), old(self).index as int);
        }
        while buf.len() < size
            invariant
                old(self).wf(),
                old(self).cursor() < offset,
                offset + size <= usize::MAX,
                self.size == old(self).size,
                buf@.len() <= size,
                old(self).index as int <= self.index as int,
                self.index as int <= offset + size,
                size == 0 ==> self.index as int == old(self).index as int,
                self.index as int - old(self).index <= old(self).stream.remaining().len(),
                self.stream.remaining() == old(self).stream.remaining().skip(
                    self.index - old(self).index,
                ),
                self.file.contents() == splice(
                    old(self).file.contents(),
                    old(self).index as int,
                    old(self).stream.remaining().take(self.index - old(self).index),
                ),
                self.file.pos() == self.index as int,
                self.index as int <= self.file.contents().len(),
                self.index as int <= offset ==> buf@ =~= Seq::<Byte>::empty(),
                self.index as int > offset ==> buf@ == old(self).stream.remaining().subrange(
                    offset - old(self).index,
                    self.index - old(self).index,
                ),
            ensures
                buf@.len() == size || self.stream.remaining().len() == 0,
            decreases old(self).stream.remaining().len() - (self.index - old(self).index),
        {
            match self.stream.next() {
                None => {
                    break ;
                },
                Some(b) => {
                    let ghost pulled = self.index - old(self).index;
                    let mut one: Vec<Byte> = no_capacity_vec();
                    one.push(b);
                    proof {
                        lemma_splice_concat(
                            old(self).file.contents(),
                            old(self).index as int,
                            old(self).stream.remaining().take(pulled),
                            one@,
                        );
                        assert(old(self).stream.remaining().take(pulled) + one@
                            =~= old(self).stream.remaining().take(pulled + 1));
                    }
                    match self.file.write(&one) {
                        Ok(()) => {},
                        Err(e) => {
                            proof {
                                assert(old(self).stream.remaining().skip(pulled).drop_first()
                                    =~= old(self).stream.remaining().skip(pulled + 1));
                                lemma_after_index_aborted(*old(self), *self, pulled);
                            }
                            return Err(e);
                        },
                    }
                    self.index = self.index + 1;
                    if self.index > offset {
                        buf.push(b);
                        proof {
                            assert(buf@ =~= old(self).stream.remaining().subrange(
                                offset - old(self).index,
                                self.index - old(self).index,
                            ));
                        }
                    }
                },
            }
        }
        proof {
            lemma_after_index_complete(*old(self), *self, offset as int, size as int, buf@);
        }
        Ok(buf)
    }
}

/// After `k` bytes were pulled and written in an at-the-cursor fetch and the
/// store then refused a write, the buffer state is an aborted-read state.
proof fn lemma_at_index_aborted<S: Stream, F: FileLike>(
    pre: StreamBuffer<S, F>,
    post: StreamBuffer<S, F>,
    k: int,
)
    requires
        pre.wf(),
        0 <= k,
        k < pre.stream.remaining().len(),
        post.size == pre.size,
        post.index as int == pre.index + k,
        post.stream.remaining() == pre.stream.remaining().skip(k + 1),
        post.index as int <= post.file.contents().len(),
        forall|i: int|
            0 <= i < post.index as int ==> post.file.contents()[i] == splice(
                pre.file.contents(),
                pre.index as int,
                pre.stream.remaining().take(k),
            )[i],
    ensures
        read_aborted(pre, post),
{
    lemma_model_split(pre);
    let m = model(pre);
    assert(post.cached() =~= m.take(post.cursor()));
    assert(model(post) =~= m.take(post.cursor()) + m.skip(post.cursor() + 1));
}

/// When the at-the-cursor loop exits cleanly having collected `out`, the
/// buffer state is a completed-read state for the window at the old cursor.
proof fn lemma_at_index_complete<S: Stream, F: FileLike>(
    pre: StreamBuffer<S, F>,
    post: StreamBuffer<S, F>,
    size: int,
    out: Seq<Byte>,
)
    requires
        pre.wf(),
        0 <= size,
        pre.index + size <= usize::MAX,
        post.size == pre.size,
        out.len() <= size,
        out.len() <= pre.stream.remaining().len(),
        post.index as int == pre.index + out.len(),
        out == pre.stream.remaining().take(out.len() as int),
        post.stream.remaining() == pre.stream.remaining().skip(out.len() as int),
        post.file.contents() == splice(pre.file.contents(), pre.index as int, out),
        post.index as int <= post.file.contents().len(),
        out.len() == size || post.stream.remaining().len() == 0,
    ensures
        read_complete(pre, post, pre.cursor(), size, out),
{
    lemma_model_split(pre);
    let m = model(pre);
    assert(post.cached() =~= m.take(post.cursor()));
    assert(post.pending() =~= m.skip(post.cursor()));
    assert(model(post) =~= m);
    assert(post.cursor() == next_cursor(m, pre.cursor(), pre.cursor(), size));
    assert(out =~= window(m, pre.cursor(), size));
}

/// After `k` bytes were pulled and written in a beyond-the-cursor fetch and
/// the store then refused a write, the buffer state is an aborted-read
/// state.
proof fn lemma_after_index_aborted<S: Stream, F: FileLike>(
    pre: StreamBuffer<S, F>,
    post: StreamBuffer<S, F>,
    k: int,
)
    requires
        pre.wf(),
        0 <= k,
        k < pre.stream.remaining().len(),
        post.size == pre.size,
        post.index as int == pre.index + k,
        post.stream.remaining() == pre.stream.remaining().skip(k + 1),
        post.index as int <= post.file.contents().len(),
        forall|i: int|
            0 <= i < post.index as int ==> post.file.contents()[i] == splice(
                pre.file.contents(),
                pre.index as int,
                pre.stream.remaining().take(k),
            )[i],
    ensures
        read_aborted(pre, post),
{
    lemma_at_index_aborted(pre, post, k);
}

/// When the beyond-the-cursor loop exits cleanly having collected `out`,
/// the buffer state is a completed-read state for `[offset, offset+size)`.
proof fn lemma_after_index_complete<S: Stream, F: FileLike>(
    pre: StreamBuffer<S, F>,
    post: StreamBuffer<S, F>,
    offset: int,
    size: int,
    out: Seq<Byte>,
)
    requires
        pre.wf(),
        0 <= size,
        pre.cursor() < offset,
        offset + size <= usize::MAX,
        post.size == pre.size,
        out.len() <= size,
        pre.index as int <= post.index as int,
        post.index as int <= offset + size,
        post.index - pre.index <= pre.stream.remaining().len(),
        post.stream.remaining() == pre.stream.remaining().skip(post.index - pre.index),
        post.file.contents() == splice(
            pre.file.contents(),
            pre.index as int,
            pre.stream.remaining().take(post.index - pre.index),
        ),
        post.index as int <= post.file.contents().len(),
        post.index as int <= offset ==> out =~= Seq::<Byte>::empty(),
        post.index as int > offset ==> out == pre.stream.remaining().subrange(
            offset - pre.index,
            post.index - pre.index,
        ),
        out.len() == size || post.stream.remaining().len() == 0,
        size == 0 ==> post.index == pre.index,
    ensures
        read_complete(pre, post, offset, size, out),
{
    lemma_model_split(pre);
    let m = model(pre);
    let d = post.index - pre.index;
    assert(post.cached() =~= m.take(post.cursor()));
    assert(post.pending() =~= m.skip(post.cursor()));
    assert(model(post) =~= m);
    if size == 0 {
        assert(post.cursor() == next_cursor(m, pre.cursor(), offset, size));
    } else if out.len() == size {
        assert(post.index as int > offset);
        assert(out.len() == post.index - offset);
        assert(post.index as int == offset + size);
        assert(offset + size <= m.len());
        assert(post.cursor() == next_cursor(m, pre.cursor(), offset, size));
    } else {
        assert(post.stream.remaining().len() == pre.stream.remaining().len() - d);
        assert(d == pre.stream.remaining().len());
        assert(post.index as int == m.len());
        assert(post.cursor() == next_cursor(m, pre.cursor(), offset, size));
    }
    assert(out =~= window(m, offset, size));
}

} // verus!
