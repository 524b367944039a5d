//! An in-memory file handle: a byte buffer with a cursor and a read-only
//! flag.
//!
//! The handle owns its bytes.  A handle opened from the filesystem starts
//! from a snapshot of the stored contents; writes go to the handle's own
//! buffer.

use vstd::prelude::*;
use crate::io::FileError;
use crate::io::Read;
use crate::io::Seek;
use crate::io::SeekFrom;
use crate::io::Write;

verus! {

/// One byte written at `p`: inside the buffer it overwrites, at or past the
/// end it is appended.
pub open spec fn write_one(c: Seq<u8>, p: int, x: u8) -> Seq<u8> {
    if 0 <= p < c.len() {
        c.update(p, x)
    } else {
        c.push(x)
    }
}

/// What writing `buf` byte by byte starting at `pos` leaves of `contents`.
pub open spec fn write_bytes(contents: Seq<u8>, pos: int, buf: Seq<u8>) -> Seq<u8>
    decreases buf.len(),
{
    if buf.len() == 0 {
        contents
    } else {
        write_bytes(write_one(contents, pos, buf[0]), pos + 1, buf.skip(1))
    }
}

/// Writing one more byte extends the written prefix by one step.
proof fn lemma_write_bytes_push(c: Seq<u8>, p: int, b: Seq<u8>, x: u8)
    ensures
        write_bytes(c, p, b.push(x)) == write_one(write_bytes(c, p, b), p + b.len(), x),
    decreases b.len(),
{
    if b.len() == 0 {
        assert(b.push(x)[0] == x);
        assert(b.push(x).skip(1) =~= Seq::<u8>::empty());
        assert(write_bytes(c, p, b) == c);
        assert(write_bytes(write_one(c, p, x), p + 1, Seq::<u8>::empty()) == write_one(c, p, x));
    } else {
        lemma_write_bytes_push(write_one(c, p, b[0]), p + 1, b.skip(1), x);
        assert(b.push(x)[0] == b[0]);
        assert(b.push(x).skip(1) =~= b.skip(1).push(x));
    }
}

/// An owned in-memory file with a cursor.
pub struct RamFile {
    pub contents: Vec<u8>,
    pub position: u64,
    pub read_only: bool,
}

impl RamFile {
    /// A handle over the given bytes, cursor at the start.
    pub fn new(contents: Vec<u8>, read_only: bool) -> (r: Self)
        ensures
            r.contents@ == contents@,
            r.position == 0,
            r.read_only == read_only,
    {
        RamFile { contents, position: 0, read_only }
    }
}

impl Read for RamFile {
    /// Copies bytes from the cursor into `buf` until `buf` or the file
    /// runs out, writes one terminating zero after them when there is room,
    /// and reports the byte count.  The cursor does not move.  A cursor
    /// past the end reads nothing.
    fn read(&mut self, buf: &mut Vec<u8>) -> (r: Result<usize, FileError>)
        ensures
            *final(self) == *old(self),
            ({
                let pos = old(self).position as int;
                let len = old(self).contents@.len() as int;
                let end = if pos + old(buf)@.len() <= len {
                    pos + old(buf)@.len()
                } else {
                    len
                };
                let n: int = if end >= pos {
                    end - pos
                } else {
                    0
                };
                &&& r == Ok::<usize, FileError>(n as usize)
                &&& forall|i: int|
                    0 <= i < n ==> final(buf)@[i] == old(self).contents@[pos + i]
                &&& (n < old(buf)@.len() ==> final(buf)@[n] == 0)
                &&& forall|i: int| n < i < old(buf)@.len() ==> final(buf)@[i] == old(buf)@[i]
            }),
    {
        let buf_len = buf.len();
        let len = self.contents.len();
        if self.position >= len as u64 {
            if buf_len > 0 {
                buf[0] = 0;
            }
            return Ok(0);
        }
        let pos = self.position as usize;
        let end = if buf_len <= len - pos {
            pos + buf_len
        } else {
            len
        };
        let n = end - pos;
        let mut i: usize = 0;
        while i < n
            invariant
                len == self.contents@.len(),
                pos + n <= self.contents@.len(),
                n <= buf@.len(),
                0 <= i <= n,
                buf@.len() == old(buf)@.len(),
                forall|j: int| 0 <= j < i ==> buf@[j] == self.contents@[pos + j],
                forall|j: int| i <= j < buf@.len() ==> buf@[j] == old(buf)@[j],
            decreases n - i,
        {
            proof {
                assert(pos + i < self.contents@.len());
            }
            buf[i] = self.contents[pos + i];
            i = i + 1;
        }
        if n < buf_len {
            buf[n] = 0;
        }
        Ok(n)
    }
}

impl Write for RamFile {
    /// Writes every byte of `buf` at the cursor: bytes inside the file
    /// overwrite, bytes past its end append; the cursor advances by one per
    /// byte.  A read-only handle refuses, and a cursor that would run past
    /// the largest representable offset refuses too; both leave the handle
    /// unchanged.
    fn write(&mut self, buf: &Vec<u8>) -> (r: Result<usize, FileError>)
        ensures
            final(self).read_only == old(self).read_only,
            old(self).read_only ==> r == Err::<usize, FileError>(FileError::PermissionsError)
                && *final(self) == *old(self),
            !old(self).read_only && old(self).position + buf@.len() > u64::MAX ==> r == Err::<
                usize,
                FileError,
            >(FileError::WriteError) && *final(self) == *old(self),
            !old(self).read_only && old(self).position + buf@.len() <= u64::MAX ==> {
                &&& r == Ok::<usize, FileError>(buf@.len() as usize)
                &&& final(self).contents@ == write_bytes(
                    old(self).contents@,
                    old(self).position as int,
                    buf@,
                )
                &&& final(self).position == old(self).position + buf@.len()
            },
    {
        if self.read_only {
            return Err(FileError::PermissionsError);
        }
        let count = buf.len();
        if self.position > u64::MAX - (count as u64) {
            return Err(FileError::WriteError);
        }
        let ghost c0 = self.contents@;
        let ghost p0 = self.position as int;
        let mut k: usize = 0;
        while k < count
            invariant
                count == buf@.len(),
                0 <= k <= count,
                p0 + count <= u64::MAX,
                self.read_only == false,
                self.position == p0 + k,
                self.contents@ == write_bytes(c0, p0, buf@.take(k as int)),
                self.contents@.len() <= c0.len() + k,
            decreases count - k,
        {
            proof {
                lemma_write_bytes_push(c0, p0, buf@.take(k as int), buf@[k as int]);
                assert(buf@.take(k + 1) =~= buf@.take(k as int).push(buf@[k as int]));
            }
            let b = buf[k];
            if self.position < self.contents.len() as u64 {
                let idx = self.position as usize;
                self.contents[idx] = b;
            } else {
                self.contents.push(b);
            }
            self.position = self.position + 1;
            k = k + 1;
        }
        proof {
            assert(buf@.take(count as int) =~= buf@);
        }
        Ok(count)
    }

    /// An in-memory file has nothing buffered: flushing always succeeds and
    /// changes nothing.
    fn flush(&mut self) -> (r: Result<(), FileError>)
        ensures
            *final(self) == *old(self),
            r is Ok,
    {
        Ok(())
    }
}

impl Seek for RamFile {
    /// Moves the cursor.  The target counts from the start, the end or the
    /// cursor; a target below zero or beyond the largest representable
    /// offset is refused and the cursor stays.  A target past the file's
    /// end is reduced once by the file's length (a deliberate quirk of this
    /// type, not a clamp), and the new cursor is returned.
    fn seek(&mut self, seek_from: SeekFrom) -> (r: Result<u64, FileError>)
        ensures
            final(self).contents@ == old(self).contents@,
            final(self).read_only == old(self).read_only,
            ({
                let len = old(self).contents@.len() as int;
                let target: int = match seek_from {
                    SeekFrom::Start(n) => n as int,
                    SeekFrom::End(m) => len + m,
                    SeekFrom::Current(m) => old(self).position as int + m,
                };
                if target < 0 || target > u64::MAX {
                    &&& r == Err::<u64, FileError>(FileError::NegativeSeekError)
                    &&& final(self).position == old(self).position
                } else {
                    let wrapped: int = if target > len {
                        target - len
                    } else {
                        target
                    };
                    &&& r == Ok::<u64, FileError>(wrapped as u64)
                    &&& final(self).position == wrapped
                }
            }),
    {
        let len_u: usize = self.contents.len();
        let len: i128 = len_u as i128;
        let target: i128 = match seek_from {
            SeekFrom::Start(n) => n as i128,
            SeekFrom::End(m) => len + m as i128,
            SeekFrom::Current(m) => self.position as i128 + m as i128,
        };
        if target < 0 {
            return Err(FileError::NegativeSeekError);
        }
        if target > u64::MAX as i128 {
            return Err(FileError::NegativeSeekError);
        }
        let mut p = target as u64;
        if p > len_u as u64 {
            p = p - len_u as u64;
        }
        self.position = p;
        Ok(p)
    }
}

impl crate::io::File for RamFile {

}

} // verus!
