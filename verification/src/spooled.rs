//! The default backing store: a spooled temporary file that keeps its bytes
//! in memory up to a threshold and spills to secondary storage beyond it.
//! Every operation of the outside crate stands behind a trusted wrapper; the
//! store's bytes and position are named by uninterpreted functions that the
//! wrappers' contracts relate.

use vstd::prelude::*;

use tempfile::SpooledTempFile;

use crate::types::{Byte, FileLike, IoError, splice};

verus! {

#[verifier::external_type_specification]
#[verifier::external_body]
pub struct ExSpooledTempFile(SpooledTempFile);

#[verifier::external_type_specification]
#[verifier::external_body]
pub struct ExStdIoError(std::io::Error);

/// The bytes a spooled temporary file holds, from offset zero.
pub uninterp spec fn spooled_contents(f: SpooledTempFile) -> Seq<Byte>;

/// A spooled temporary file's current read/write position.
pub uninterp spec fn spooled_pos(f: SpooledTempFile) -> int;

/// Relies on tempfile::SpooledTempFile::new: a fresh spooled file holds no
/// bytes and stands at position zero, spilling to secondary storage only
/// once its size passes `max_size`.
#[verifier::external_body]
pub fn spooled_file(max_size: usize) -> (f: SpooledTempFile)
    ensures
        spooled_contents(f) == Seq::<Byte>::empty(),
        spooled_pos(f) == 0,
{
    SpooledTempFile::new(max_size)
}

/// Relies on std::io::Seek::seek for tempfile::SpooledTempFile: an absolute
/// seek moves the position and never touches the stored bytes, also when it
/// fails.
#[verifier::external_body]
fn spooled_seek(f: &mut SpooledTempFile, offset: usize) -> (r: Result<(), std::io::Error>)
    ensures
        spooled_contents(*final(f)) == spooled_contents(*old(f)),
        r is Ok ==> spooled_pos(*final(f)) == offset as int,
{
    match std::io::Seek::seek(f, std::io::SeekFrom::Start(offset as u64)) {
        Ok(_) => Ok(()),
        Err(e) => Err(e),
    }
}

/// Relies on std::io::Write::write_all for tempfile::SpooledTempFile: on
/// success every byte of `buf` stands at the old position, overwriting what
/// was there and extending the file as needed, and the position moves past
/// them; on failure the file may have grown by a partial write, but no byte
/// below the old position changes.
#[verifier::external_body]
fn spooled_write(f: &mut SpooledTempFile, buf: &Vec<Byte>) -> (r: Result<(), std::io::Error>)
    requires
        0 <= spooled_pos(*old(f)) <= spooled_contents(*old(f)).len(),
    ensures
        r is Ok ==> {
            &&& spooled_contents(*final(f)) == splice(
                spooled_contents(*old(f)),
                spooled_pos(*old(f)),
                buf@,
            )
            &&& spooled_pos(*final(f)) == spooled_pos(*old(f)) + buf@.len()
        },
        r is Err ==> {
            &&& spooled_contents(*old(f)).len() <= spooled_contents(*final(f)).len()
            &&& forall|i: int|
                0 <= i < spooled_pos(*old(f)) ==> spooled_contents(*final(f))[i]
                    == spooled_contents(*old(f))[i]
        },
{
    std::io::Write::write_all(f, buf.as_slice())
}

/// Relies on std::io::Read::read_exact for tempfile::SpooledTempFile: when
/// the file holds enough bytes past the position, success fills `buf` with
/// exactly those bytes and moves the position past them; the stored bytes
/// and the buffer's length never change.
#[verifier::external_body]
fn spooled_read(f: &mut SpooledTempFile, buf: &mut Vec<Byte>) -> (r: Result<(), std::io::Error>)
    requires
        0 <= spooled_pos(*old(f)),
        spooled_pos(*old(f)) + old(buf)@.len() <= spooled_contents(*old(f)).len(),
    ensures
        spooled_contents(*final(f)) == spooled_contents(*old(f)),
        final(buf)@.len() == old(buf)@.len(),
        r is Ok ==> {
            &&& final(buf)@ == spooled_contents(*old(f)).subrange(
                spooled_pos(*old(f)),
                spooled_pos(*old(f)) + old(buf)@.len(),
            )
            &&& spooled_pos(*final(f)) == spooled_pos(*old(f)) + old(buf)@.len()
        },
{
    std::io::Read::read_exact(f, buf.as_mut_slice())
}

impl FileLike for SpooledTempFile {
    open spec fn contents(&self) -> Seq<Byte> {
        spooled_contents(*self)
    }

    open spec fn pos(&self) -> int {
        spooled_pos(*self)
    }

    fn seek(&mut self, offset: usize) -> (r: Result<(), IoError>) {
        match spooled_seek(self, offset) {
            Ok(()) => Ok(()),
            Err(_) => Err(IoError::Seek),
        }
    }

    fn write(&mut self, buf: &Vec<Byte>) -> (r: Result<(), IoError>) {
        match spooled_write(self, buf) {
            Ok(()) => Ok(()),
            Err(_) => Err(IoError::Write),
        }
    }

    fn read(&mut self, buf: &mut Vec<Byte>) -> (r: Result<(), IoError>) {
        match spooled_read(self, buf) {
            Ok(()) => Ok(()),
            Err(_) => Err(IoError::Read),
        }
    }
}

} // verus!
