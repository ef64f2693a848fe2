//! The small pieces: vector constructors, the in-memory stream, and the
//! window classification.

use buffer::buf::BufferCreate;
use buffer::chunk::{ChunkLocation, Location};
use buffer::mem::{MemFile, MemStream};
use buffer::types::Stream;
use buffer::{StreamBuffer, no_capacity_vec, sized_vec};

#[test]
fn sized_vec_fills() {
    let v = sized_vec(5, 7u8);
    assert_eq!(v, vec![7u8; 5]);
    let v = sized_vec(0, 1u8);
    assert_eq!(v, Vec::<u8>::new());
}

#[test]
fn no_capacity_vec_is_empty() {
    let v: Vec<u8> = no_capacity_vec();
    assert!(v.is_empty());
}

#[test]
fn mem_stream_yields_in_order() {
    let mut s = MemStream::new(vec![10u8, 20, 30]);
    assert_eq!(s.next(), Some(10));
    assert_eq!(s.next(), Some(20));
    assert_eq!(s.next(), Some(30));
    assert_eq!(s.next(), None);
    assert_eq!(s.next(), None);
}

#[test]
fn classification_matches_cursor() {
    let mut b = StreamBuffer::from_file(MemStream::new(b"ABCDEFGHIJ".to_vec()), 10, MemFile::new());
    b.index = 5;
    assert!(matches!(b._chunk_location(0, 5), Location::BeforeIndex));
    assert!(matches!(b._chunk_location(4, 1), Location::BeforeIndex));
    assert!(matches!(b._chunk_location(4, 2), Location::Bisected));
    assert!(matches!(b._chunk_location(1, 9), Location::Bisected));
    assert!(matches!(b._chunk_location(5, 3), Location::AtIndex));
    assert!(matches!(b._chunk_location(5, 0), Location::AtIndex));
    assert!(matches!(b._chunk_location(6, 1), Location::AfterIndex));
    assert!(matches!(b._chunk_location(9, 0), Location::AfterIndex));
}
