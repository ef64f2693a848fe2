//! The engine's guiding properties, stated and proved over the buffer model
//! that `read`'s contract speaks of.

use vstd::prelude::*;

use crate::buf::{Buffer, lemma_model_split, model, read_aborted, read_complete};
use crate::chunk::{classify, next_cursor, window};
use crate::types::Byte;

verus! {

/// Cached-prefix determinism: a one-byte window at a position below the
/// cursor is exactly the byte the cache holds there. Because a successful
/// `read` leaves the model unchanged and never moves the cursor backwards,
/// re-reading `[p, p+1)` after any sequence of successful reads returns the
/// byte first observed there.
pub proof fn lemma_cached_prefix_determinism<B: Buffer>(b: B, p: int)
    requires
        b.wf(),
        0 <= p < b.cursor(),
    ensures
        window(model(b), p, 1) =~= seq![b.cached()[p]],
        next_cursor(model(b), b.cursor(), p, 1) == b.cursor(),
{
    lemma_model_split(b);
}

/// Cursor bounds: one `read` moves the cursor from `cursor` to
/// `next_cursor(...)`, which never moves backwards, never passes what the
/// source can supply, and pulls at most the bytes the source still holds;
/// whenever the declared size bounds the bytes available it therefore
/// bounds the cursor too.
pub proof fn lemma_cursor_bounds(m: Seq<Byte>, cursor: int, offset: int, size: int, declared: int)
    requires
        0 <= cursor <= m.len(),
        m.len() <= declared,
        0 <= offset,
        0 <= size,
    ensures
        cursor <= next_cursor(m, cursor, offset, size),
        next_cursor(m, cursor, offset, size) <= m.len(),
        next_cursor(m, cursor, offset, size) <= declared,
        next_cursor(m, cursor, offset, size) - cursor <= m.len() - cursor,
{
}

/// Round trip after full consumption: once the cursor has reached the end
/// of the model, every non-empty window inside `[0, cursor)` is classified
/// as already cached, is served verbatim from the cache, and leaves the
/// cursor where it stands — so re-reading the whole stream touches the
/// source no further and returns every byte as first produced.
pub proof fn lemma_full_consumption_round_trip<B: Buffer>(b: B, offset: int, size: int)
    requires
        b.wf(),
        b.cursor() == model(b).len(),
        0 <= offset,
        0 < size,
        offset + size <= b.cursor(),
    ensures
        classify(b.cursor(), offset, size) is BeforeIndex,
        window(model(b), offset, size) == b.cached().subrange(offset, offset + size),
        next_cursor(model(b), b.cursor(), offset, size) == b.cursor(),
{
    lemma_model_split(b);
    assert(window(model(b), offset, size) =~= b.cached().subrange(offset, offset + size));
}

/// The cursor counts pulls exactly: across any successful read, the cursor
/// advances by precisely the number of bytes the source gave up. A buffer
/// built with its cursor at zero therefore always shows as its cursor the
/// total number of bytes ever pulled from its source.
pub proof fn lemma_cursor_counts_pulls<B: Buffer>(
    pre: B,
    post: B,
    offset: int,
    size: int,
    out: Seq<Byte>,
)
    requires
        pre.wf(),
        0 <= offset,
        0 <= size,
        read_complete(pre, post, offset, size, out),
    ensures
        post.cursor() - pre.cursor() == pre.pending().len() - post.pending().len(),
        pre.cursor() <= post.cursor(),
{
    lemma_model_split(pre);
}

/// The cursor bounds hold on failure too: an aborted read never drives the
/// cursor past what source and cache together held, advances it by at most
/// the bytes actually given up by the source, and respects the declared
/// size whenever the declared size really bounds the bytes available.
pub proof fn lemma_aborted_cursor_bounds<B: Buffer>(pre: B, post: B)
    requires
        pre.wf(),
        read_aborted(pre, post),
    ensures
        post.cursor() <= model(pre).len(),
        post.cursor() - pre.cursor() <= pre.pending().len() - post.pending().len(),
        model(pre).len() <= pre.declared() ==> post.cursor() <= post.declared(),
        model(pre).len() <= pre.declared() ==> model(post).len() <= post.declared(),
{
    lemma_model_split(pre);
    post.wf_facts();
    let m = model(pre);
    let c = post.cursor();
    assert(model(post).len() == c + post.pending().len());
    if model(post) != m {
        assert(m.take(c).len() == c);
        assert(m.skip(c + 1).len() == m.len() - c - 1);
        assert(model(post).len() == m.len() - 1);
    }
}

/// A successful read never drives the cursor past the declared size as long
/// as the declared size really bounds the bytes the buffer gives access to.
pub proof fn lemma_read_respects_declared<B: Buffer>(
    pre: B,
    post: B,
    offset: int,
    size: int,
    out: Seq<Byte>,
)
    requires
        pre.wf(),
        0 <= offset,
        0 <= size,
        model(pre).len() <= pre.declared(),
        read_complete(pre, post, offset, size, out),
    ensures
        post.cursor() <= post.declared(),
        model(post).len() <= post.declared(),
{
    lemma_model_split(pre);
}

/// A served window never reaches past what source and cache together hold,
/// and always delivers the full request when the model covers it: a short
/// read happens exactly when the request runs past the end of the model.
pub proof fn lemma_short_read(m: Seq<Byte>, offset: int, size: int)
    requires
        0 <= offset,
        0 <= size,
    ensures
        window(m, offset, size).len() <= size,
        offset + size <= m.len() ==> window(m, offset, size).len() == size,
        window(m, offset, size).len() < size ==> offset + size > m.len(),
{
}

} // verus!
