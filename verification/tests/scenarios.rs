//! The canonical walk over a ten-byte source: each classification in turn,
//! the cached-prefix and cursor invariants, short reads, and the final
//! round trip served entirely from the cache.

use buffer::StreamBuffer;
use buffer::buf::{BufferCreate, BufferRead};
use buffer::mem::{MemFile, MemStream};

const DECLARED: usize = 10;

fn alphabet() -> StreamBuffer<MemStream, MemFile> {
    StreamBuffer::from_file(MemStream::new(b"ABCDEFGHIJ".to_vec()), DECLARED, MemFile::new())
}

#[test]
fn scenario_sequential() {
    let mut b = alphabet();
    assert_eq!(b.read(0, 3).unwrap(), b"ABC");
    assert_eq!(b.index, 3);
}

#[test]
fn scenario_cached_repeat() {
    let mut b = alphabet();
    assert_eq!(b.read(0, 3).unwrap(), b"ABC");
    assert_eq!(b.read(0, 3).unwrap(), b"ABC");
    assert_eq!(b.index, 3);
}

#[test]
fn scenario_continue() {
    let mut b = alphabet();
    assert_eq!(b.read(0, 3).unwrap(), b"ABC");
    assert_eq!(b.read(3, 2).unwrap(), b"DE");
    assert_eq!(b.index, 5);
}

#[test]
fn scenario_straddling() {
    let mut b = alphabet();
    assert_eq!(b.read(0, 3).unwrap(), b"ABC");
    assert_eq!(b.read(3, 2).unwrap(), b"DE");
    assert_eq!(b.read(1, 5).unwrap(), b"BCDEF");
    assert_eq!(b.index, 6);
}

#[test]
fn scenario_skip_ahead() {
    let mut b = alphabet();
    assert_eq!(b.read(0, 3).unwrap(), b"ABC");
    assert_eq!(b.read(3, 2).unwrap(), b"DE");
    assert_eq!(b.read(1, 5).unwrap(), b"BCDEF");
    assert_eq!(b.read(8, 2).unwrap(), b"IJ");
    assert_eq!(b.index, 10);
    // The skipped positions 6 and 7 were persisted even though the result
    // left them out.
    assert_eq!(b.file.data, b"ABCDEFGHIJ");
}

#[test]
fn scenario_short_read() {
    let mut b = alphabet();
    assert_eq!(b.read(0, 3).unwrap(), b"ABC");
    assert_eq!(b.read(3, 2).unwrap(), b"DE");
    assert_eq!(b.read(1, 5).unwrap(), b"BCDEF");
    assert_eq!(b.read(8, 2).unwrap(), b"IJ");
    // Five bytes requested at offset 8, but only positions 8 and 9 exist:
    // a short read, not an error.
    assert_eq!(b.read(8, 5).unwrap(), b"IJ");
    assert_eq!(b.index, 10);
}

#[test]
fn scenario_round_trip() {
    let mut b = alphabet();
    assert_eq!(b.read(0, 3).unwrap(), b"ABC");
    assert_eq!(b.read(3, 2).unwrap(), b"DE");
    assert_eq!(b.read(1, 5).unwrap(), b"BCDEF");
    assert_eq!(b.read(8, 2).unwrap(), b"IJ");
    // Everything is cached now: the whole stream comes back verbatim and
    // the cursor stays put.
    assert_eq!(b.read(0, 10).unwrap(), b"ABCDEFGHIJ");
    assert_eq!(b.index, 10);
}

#[test]
fn invariant_cached_prefix() {
    let mut b = alphabet();
    let first = b.read(0, 7).unwrap();
    assert_eq!(b.index, 7);
    // Every position below the cursor re-reads to the byte first observed,
    // as many times as asked.
    for p in 0..7usize {
        let again = b.read(p, 1).unwrap();
        assert_eq!(again, &first[p..p + 1]);
        let again = b.read(p, 1).unwrap();
        assert_eq!(again, &first[p..p + 1]);
    }
    assert_eq!(b.index, 7);
}

#[test]
fn invariant_cursor_bound() {
    let mut b = alphabet();
    b.read(2, 3).unwrap();
    // The cursor counts exactly the bytes pulled from the source, all of
    // which the store holds.
    assert_eq!(b.index, 5);
    assert_eq!(b.file.data.len(), 5);
    b.read(0, 9).unwrap();
    assert_eq!(b.index, 9);
    assert_eq!(b.file.data.len(), 9);
    // Asking past the end never drives the cursor past what the source
    // held, nor past the declared size.
    b.read(4, 100).unwrap();
    assert_eq!(b.index, 10);
    assert_eq!(b.file.data.len(), 10);
    assert!(b.index <= DECLARED);
}

#[test]
fn empty_request_touches_nothing() {
    let mut b = alphabet();
    assert_eq!(b.read(0, 0).unwrap(), b"");
    assert_eq!(b.read(7, 0).unwrap(), b"");
    assert_eq!(b.index, 0);
    assert_eq!(b.file.data.len(), 0);
}

#[test]
fn exhausted_source_yields_empty() {
    let mut b = alphabet();
    assert_eq!(b.read(0, 10).unwrap(), b"ABCDEFGHIJ");
    assert_eq!(b.read(10, 4).unwrap(), b"");
    assert_eq!(b.read(20, 4).unwrap(), b"");
    assert_eq!(b.index, 10);
}

#[test]
fn empty_source_short_reads() {
    let mut b = StreamBuffer::from_file(MemStream::new(Vec::new()), 0, MemFile::new());
    assert_eq!(b.read(0, 5).unwrap(), b"");
    assert_eq!(b.index, 0);
}
