//! Reads through the engine over a digits-and-newlines source, covering all
//! four window classifications and repeated reads of cached windows.

use std::io::{Read, Seek, SeekFrom};

use tempfile::SpooledTempFile;

use buffer::StreamBuffer;
use buffer::buf::{BufferCreate, BufferRead};
use buffer::constants::MAX_SIZE;
use buffer::mem::MemStream;
use buffer::types::Stream;

const START: usize = 0;
const LEN: usize = 25;
const BUF_SIZE: usize = 5;

fn digits() -> Vec<u8> {
    b"0\n1\n2\n3\n4\n5\n6\n7\n8\n9\n10\n11".to_vec()
}

fn digit_stream() -> MemStream {
    MemStream::new(digits())
}

#[test]
fn create() {
    let _stream_buffer = StreamBuffer::new(digit_stream(), LEN);
}

#[test]
fn chunk_from_0() {
    let mut stream_buffer = StreamBuffer::new(digit_stream(), LEN);

    let result = stream_buffer.read(START, BUF_SIZE).unwrap();
    assert_eq!(result, b"0\n1\n2");
}

#[test]
fn forward() {
    let mut stream_buffer = StreamBuffer::new(digit_stream(), LEN);

    let result = stream_buffer.read(START, BUF_SIZE).unwrap();
    assert_eq!(result, b"0\n1\n2");

    let result = stream_buffer.read(5, BUF_SIZE).unwrap();
    assert_eq!(result, b"\n3\n4\n");
}

#[test]
fn stutter() {
    let mut stream_buffer = StreamBuffer::new(digit_stream(), LEN);

    let result = stream_buffer.read(START, BUF_SIZE).unwrap();
    assert_eq!(result, b"0\n1\n2");
    assert_eq!(stream_buffer.index, BUF_SIZE);

    let slice = b"2\n3\n";
    let result = stream_buffer.read(4, 4).unwrap();
    assert_eq!(result, slice);

    stream_buffer.file.seek(SeekFrom::Start(0u64)).unwrap();

    let result = stream_buffer.read(4, 4).unwrap();
    stream_buffer.file.seek(SeekFrom::Start(0usize as u64)).unwrap();
    assert_eq!(stream_buffer.index, 8);

    let mut buf = String::new();
    stream_buffer.file.read_to_string(&mut buf).unwrap();
    let s = "0\n1\n2\n3\n".to_string();
    assert_eq!(buf, s);

    assert_eq!(result, slice);
}

#[test]
fn inject_file_dependency() {
    let temp = SpooledTempFile::new(MAX_SIZE);

    let _buf = StreamBuffer::from_file(digit_stream(), LEN, temp);
}

#[test]
fn backwards() {
    let mut stream_buffer = StreamBuffer::new(digit_stream(), LEN);

    let result = stream_buffer.read(START, BUF_SIZE).unwrap();
    assert_eq!(result, b"0\n1\n2");

    let result = stream_buffer.read(5, BUF_SIZE).unwrap();
    assert_eq!(result, b"\n3\n4\n");

    let result = stream_buffer.read(START, BUF_SIZE).unwrap();
    assert_eq!(result, b"0\n1\n2");
}

#[test]
fn same_chunk_from_0() {
    let mut stream_buffer = StreamBuffer::new(digit_stream(), LEN);

    let result = stream_buffer.read(START, BUF_SIZE).unwrap();
    assert_eq!(result, b"0\n1\n2");

    let result = stream_buffer.read(START, BUF_SIZE).unwrap();
    assert_eq!(result, b"0\n1\n2");
}

#[test]
fn forward_then_extend_from_0() {
    let mut buffer = StreamBuffer::new(digit_stream(), LEN);

    let result = buffer.read(START, BUF_SIZE).unwrap();
    assert_eq!(result, b"0\n1\n2");

    let result = buffer.read(START, BUF_SIZE).unwrap();
    assert_eq!(result, b"0\n1\n2");

    let result = buffer.read(START, 10).unwrap();
    assert_eq!(result, b"0\n1\n2\n3\n4\n");
}

#[test]
fn forward_skip_ahead() {
    let mut buffer = StreamBuffer::new(digit_stream(), LEN);

    let result = buffer.read(START, BUF_SIZE).unwrap();
    assert_eq!(result, b"0\n1\n2");

    // Skipping from position 5 to 8: positions 5..8 are pulled and
    // persisted but left out of the result, which holds positions 8..11.
    let result = buffer.read(8, 3).unwrap();
    assert_eq!(result, b"4\n5");
}

#[test]
fn vec_iter() {
    let mut stream = digit_stream();
    let mut collected: Vec<u8> = Vec::new();
    while let Some(b) = stream.next() {
        collected.push(b);
    }
    assert_eq!(collected, digits());
    assert_eq!(stream.next(), None);
}

#[test]
fn old_main_fn() {
    let mut buffer: StreamBuffer<_, SpooledTempFile> = StreamBuffer::new(digit_stream(), LEN);

    let _result = buffer.read(4, 4).unwrap();

    let result = buffer.read(START, BUF_SIZE).unwrap();
    assert_eq!(result, b"0\n1\n2");

    let result = buffer.read(START, BUF_SIZE).unwrap();
    assert_eq!(result, b"0\n1\n2");

    buffer.file.seek(SeekFrom::Start(START as u64)).unwrap();
    let mut buf = String::new();
    buffer.file.read_to_string(&mut buf).unwrap();
    assert_eq!(buf, "0\n1\n2\n3\n");

    let zeroes = buffer::sized_vec(10, 0u8);
    let _sb = StreamBuffer::new(MemStream::new(zeroes), 10);
}
