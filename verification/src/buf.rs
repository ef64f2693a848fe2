//! The buffer aggregate: a one-shot source stream, a seekable backing store,
//! and the cursor counting how many bytes have moved from the one to the
//! other. Reads are answered from the store below the cursor and from the
//! source at or above it.

use vstd::prelude::*;

use tempfile::SpooledTempFile;

use crate::chunk::{ChunkLocation, ChunkRead, Location, next_cursor, window};
use crate::constants::{MAX_SIZE, START_INDEX};
use crate::spooled::spooled_file;
use crate::types::{BufResult, Byte, FileLike, Stream};
use crate::utils::no_capacity_vec;

verus! {

/// The abstract state of a buffer: the bytes already cached in the store,
/// the bytes the source will still yield, the cursor dividing the two, and
/// the declared upper bound on the total stream length.
pub trait Buffer: Sized {
    /// The bytes durably cached so far, in stream order.
    spec fn cached(&self) -> Seq<Byte>;

    /// The bytes the source will still yield.
    spec fn pending(&self) -> Seq<Byte>;

    /// How many bytes have been durably transferred from source to store.
    spec fn cursor(&self) -> int;

    /// The caller's stated upper bound on the total stream length; used for
    /// boundary reasoning only, never enforced as a cap.
    spec fn declared(&self) -> int;

    /// The store really holds every byte the cursor claims it holds.
    spec fn wf(&self) -> bool;

    proof fn wf_facts(&self)
        requires
            self.wf(),
        ensures
            self.cached().len() == self.cursor(),
            0 <= self.cursor(),
    ;
}

/// The whole byte sequence a buffer gives access to: the cached prefix
/// followed by everything the source will still yield.
pub open spec fn model<B: Buffer>(b: B) -> Seq<Byte> {
    b.cached() + b.pending()
}

/// The model splits at the cursor into the cached and the pending part.
pub proof fn lemma_model_split<B: Buffer>(b: B)
    requires
        b.wf(),
    ensures
        model(b).take(b.cursor()) == b.cached(),
        model(b).skip(b.cursor()) == b.pending(),
        model(b).len() == b.cursor() + b.pending().len(),
        b.cursor() <= model(b).len(),
{
    b.wf_facts();
    assert(model(b).take(b.cursor()) =~= b.cached());
    assert(model(b).skip(b.cursor()) =~= b.pending());
}

/// What a successful read of `[offset, offset+size)` does to a buffer: it
/// returns exactly the requested window of the model (clipped to what the
/// source can still supply), moves nothing but bytes from the pending part
/// to the cache, and advances the cursor to the end of the window wherever
/// that lies beyond it.
pub open spec fn read_complete<B: Buffer>(
    pre: B,
    post: B,
    offset: int,
    size: int,
    out: Seq<Byte>,
) -> bool {
    &&& post.wf()
    &&& out == window(model(pre), offset, size)
    &&& model(post) == model(pre)
    &&& post.cursor() == next_cursor(model(pre), pre.cursor(), offset, size)
    &&& post.cached() == model(pre).take(post.cursor())
    &&& post.pending() == model(pre).skip(post.cursor())
    &&& post.declared() == pre.declared()
}

/// The buffer's abstract state is exactly as it was: nothing pulled from the
/// source, nothing cached, the cursor where it stood.
pub open spec fn state_unchanged<B: Buffer>(pre: B, post: B) -> bool {
    &&& post.cached() == pre.cached()
    &&& post.pending() == pre.pending()
    &&& post.cursor() == pre.cursor()
    &&& post.declared() == pre.declared()
}

/// What a store failure leaves behind: the buffer is still well formed, the
/// cursor has not moved backwards and still counts only durably written
/// bytes, and at worst the one byte in flight when the store refused has
/// been lost from the model.
pub open spec fn read_aborted<B: Buffer>(pre: B, post: B) -> bool {
    &&& post.wf()
    &&& pre.cursor() <= post.cursor()
    &&& post.declared() == pre.declared()
    &&& post.cached() == model(pre).take(post.cursor())
    &&& {
        ||| model(post) == model(pre)
        ||| (post.cursor() < model(pre).len() && model(post) == model(pre).take(post.cursor())
            + model(pre).skip(post.cursor() + 1))
    }
}

/// A buffer over a source stream `S` and a backing store `F`. `size` is the
/// declared upper bound on the stream length and `index` the cursor: the
/// store holds the first `index` bytes of the stream, and the stream itself
/// stands at position `index`.
pub struct StreamBuffer<S: Stream, F: FileLike> {
    pub size: usize,
    pub index: usize,
    pub stream: S,
    pub file: F,
}

impl<S: Stream, F: FileLike> Buffer for StreamBuffer<S, F> {
    open spec fn cached(&self) -> Seq<Byte> {
        self.file.contents().take(self.index as int)
    }

    open spec fn pending(&self) -> Seq<Byte> {
        self.stream.remaining()
    }

    open spec fn cursor(&self) -> int {
        self.index as int
    }

    open spec fn declared(&self) -> int {
        self.size as int
    }

    open spec fn wf(&self) -> bool {
        self.index as int <= self.file.contents().len()
    }

    proof fn wf_facts(&self) {
    }
}

impl<S: Stream> StreamBuffer<S, SpooledTempFile> {
    /// A buffer over `stream` with a freshly created spooled temporary file
    /// as its backing store; `size` is the declared upper bound on the
    /// stream's length.
    pub fn new(stream: S, size: usize) -> (buf: StreamBuffer<S, SpooledTempFile>)
        ensures
            buf.index == START_INDEX,
            buf.size == size,
            buf.stream == stream,
            buf.wf(),
            buf.cached() == Seq::<Byte>::empty(),
            buf.pending() == stream.remaining(),
            buf.file.contents() == Seq::<Byte>::empty(),
    {
        let file = spooled_file(MAX_SIZE);
        let buf = StreamBuffer { size, stream, file, index: START_INDEX };
        proof {
            assert(buf.cached() =~= Seq::<Byte>::empty());
        }
        buf
    }
}

/// Construction from an injected backing store.
pub trait BufferCreate<S: Stream, F: FileLike>: Buffer {
    /// A buffer that will serve `[0, cursor)` from `file` and everything
    /// beyond from `stream`; the cursor starts at zero, so whatever `file`
    /// already holds is ignored and overwritten in order.
    fn from_file(stream: S, size: usize, file: F) -> (buf: StreamBuffer<S, F>)
        ensures
            buf.index == START_INDEX,
            buf.size == size,
            buf.stream == stream,
            buf.file == file,
            buf.wf(),
            buf.cached() == Seq::<Byte>::empty(),
            buf.pending() == stream.remaining(),
    ;
}

impl<S: Stream, F: FileLike> BufferCreate<S, F> for StreamBuffer<S, F> {
    fn from_file(stream: S, size: usize, file: F) -> (buf: StreamBuffer<S, F>) {
        let buf = StreamBuffer { size, stream, file, index: START_INDEX };
        proof {
            assert(buf.cached() =~= Seq::<Byte>::empty());
        }
        buf
    }
}

/// The read engine's public operation.
pub trait BufferRead: Buffer {
    /// Serve the byte window `[offset, offset + size)` of the stream,
    /// classifying it against the cursor and fetching each part from the
    /// store or the source as the classification demands. The result is
    /// exactly the requested window of the buffer's model, shortened only
    /// if the source runs out first; a store failure aborts the call and
    /// is returned instead, with the cursor still counting only durably
    /// written bytes. An empty request touches neither source nor store
    /// and always succeeds.
    fn read(&mut self, offset: usize, size: usize) -> (r: BufResult)
        requires
            old(self).wf(),
            offset + size <= usize::MAX,
        ensures
            old(self).cursor() <= final(self).cursor(),
            size == 0 ==> r is Ok,
            match r {
                Ok(out) => read_complete(
                    *old(self),
                    *final(self),
                    offset as int,
                    size as int,
                    out@,
                ),
                Err(_) => read_aborted(*old(self), *final(self)),
            },
    ;
}

impl<T: ChunkRead + ChunkLocation> BufferRead for T {
    fn read(&mut self, offset: usize, size: usize) -> (r: BufResult) {
        if size == 0 {
            let out = no_capacity_vec();
            proof {
                lemma_model_split(*self);
                assert(window(model(*self), offset as int, 0) =~= Seq::<Byte>::empty());
            }
            return Ok(out);
        }
        match self._chunk_location(offset, size) {
            Location::BeforeIndex => self._chunk_before_index(offset, size),
            Location::Bisected => self._chunk_bisected_by_index(offset, size),
            Location::AtIndex => self._chunk_at_index(size),
            Location::AfterIndex => self._chunk_after_index(offset, size),
        }
    }
}

} // verus!
