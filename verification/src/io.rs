//! Byte-stream interfaces and paths shared by the in-memory files, the
//! volume parser and the console plumbing.

use vstd::prelude::*;

verus! {

/// Failures of the file and stream operations.
#[derive(Clone, Copy, PartialEq, Eq, Structural, Debug)]
pub enum FileError {
    NegativeSeekError,
    IsDirectory,
    NotFound,
    InvalidPath,
    PermissionsError,
    InvalidString,
    ReadError,
    WriteError,
}

/// Byte-stream reading.  `read` fills a prefix of `buf` and reports how
/// many bytes it placed there; the buffer keeps its length.
pub trait Read {
    fn read(&mut self, buf: &mut Vec<u8>) -> (r: Result<usize, FileError>)
        ensures
            final(buf)@.len() == old(buf)@.len(),
            r matches Ok(n) ==> n <= final(buf)@.len(),
    ;
}

/// Byte-stream writing.  `write` reports how many bytes it accepted.
pub trait Write {
    fn write(&mut self, buf: &Vec<u8>) -> (r: Result<usize, FileError>)
        ensures
            r matches Ok(n) ==> n <= buf@.len(),
    ;

    fn flush(&mut self) -> (r: Result<(), FileError>);
}

/// Where a seek counts from.
#[derive(Clone, Copy, PartialEq, Eq, Structural, Debug)]
pub enum SeekFrom {
    Start(u64),
    End(i64),
    Current(i64),
}

/// Repositioning within a stream; returns the new position.
pub trait Seek {
    fn seek(&mut self, seek_from: SeekFrom) -> (r: Result<u64, FileError>);
}

/// A seekable byte store: what the filesystem hands out.
pub trait File: Read + Write + Seek {

}

/// Relies on std::string::String::push: appends the character to the
/// string.
pub assume_specification[ String::push ](s: &mut String, c: char)
    ensures
        final(s)@ == old(s)@.push(c),
;

/// The segments of `segs` joined with `/` between them: the unique string
/// a slash-free segment list came from.
pub open spec fn joined_path(segs: Seq<Seq<char>>) -> Seq<char>
    decreases segs.len(),
{
    if segs.len() == 0 {
        Seq::empty()
    } else if segs.len() == 1 {
        segs[0]
    } else {
        segs[0] + seq!['/'] + joined_path(segs.skip(1))
    }
}

/// Appending one more segment appends one separator and the segment.
proof fn lemma_joined_path_push(segs: Seq<Seq<char>>, last: Seq<char>)
    requires
        segs.len() >= 1,
    ensures
        joined_path(segs.push(last)) == joined_path(segs) + seq!['/'] + last,
    decreases segs.len(),
{
    if segs.len() == 1 {
        assert(segs.push(last).skip(1) =~= seq![last]);
        assert(segs.push(last)[0] == segs[0]);
        assert(joined_path(seq![last]) == seq![last][0]);
        assert(joined_path(segs.push(last)) == segs[0] + seq!['/'] + last);
    } else {
        lemma_joined_path_push(segs.skip(1), last);
        assert(segs.push(last).skip(1) =~= segs.skip(1).push(last));
        assert(segs.push(last)[0] == segs[0]);
        assert(joined_path(segs.push(last)) == segs[0] + seq!['/'] + (joined_path(segs.skip(1))
            + seq!['/'] + last));
        assert(segs[0] + seq!['/'] + (joined_path(segs.skip(1)) + seq!['/'] + last) =~= (segs[0]
            + seq!['/'] + joined_path(segs.skip(1))) + seq!['/'] + last);
    }
}

/// Whether no segment of the list contains a separator, which together
/// with [`joined_path`] pins a segment list to the string it came from.
pub open spec fn slash_free(segs: Seq<Seq<char>>) -> bool {
    forall|i: int, j: int| 0 <= i < segs.len() && 0 <= j < segs[i].len() ==> segs[i][j] != '/'
}

/// A path, as the sequence of `/`-separated segments it was written with.
pub struct Path {
    pub segments: Vec<String>,
}

impl Path {
    /// The segment texts.
    pub open spec fn view(self) -> Seq<Seq<char>> {
        self.segments@.map_values(|s: String| s@)
    }

    /// Splits `value` at every `/`.  The result is pinned down by two
    /// facts: no segment contains a separator, and joining the segments
    /// with separators gives back `value` exactly.
    pub fn from(value: &str) -> (r: Path)
        ensures
            r.segments@.len() >= 1,
            joined_path(r@) == value@,
            slash_free(r@),
    {
        let len = value.unicode_len();
        let mut segments: Vec<String> = Vec::new();
        let mut current = String::new();
        let mut i: usize = 0;
        while i < len
            invariant
                len == value@.len(),
                0 <= i <= len,
                joined_path(segments@.map_values(|s: String| s@).push(current@)) == value@.take(
                    i as int,
                ),
                forall|a: int, b: int|
                    0 <= a < segments@.len() && 0 <= b < segments@[a]@.len() ==> segments@[a]@[b]
                        != '/',
                forall|b: int| 0 <= b < current@.len() ==> current@[b] != '/',
            decreases len - i,
        {
            let ghost segs0 = segments@.map_values(|s: String| s@);
            let ghost cur0 = current@;
            let c = value.get_char(i);
            if c == '/' {
                segments.push(current);
                current = String::new();
                proof {
                    assert(segments@.map_values(|s: String| s@) =~= segs0.push(cur0));
                    lemma_joined_path_push(segs0.push(cur0), Seq::<char>::empty());
                    assert(joined_path(segs0.push(cur0).push(current@)) =~= value@.take(i as int)
                        + seq!['/']);
                    assert(value@.take(i + 1) =~= value@.take(i as int) + seq![value@[i as int]]);
                }
            } else {
                current.push(c);
                proof {
                    if segs0.len() == 0 {
                        assert(joined_path(segs0.push(current@)) == current@);
                        assert(joined_path(segs0.push(cur0)) == cur0);
                    } else {
                        lemma_joined_path_push(segs0, cur0);
                        lemma_joined_path_push(segs0, current@);
                    }
                    assert(current@ == cur0.push(c));
                    assert(joined_path(segs0.push(current@)) =~= joined_path(segs0.push(cur0)).push(
                        c,
                    ));
                    assert(value@.take(i + 1) =~= value@.take(i as int).push(value@[i as int]));
                }
            }
            i = i + 1;
        }
        let ghost segs0 = segments@.map_values(|s: String| s@);
        let ghost cur0 = current@;
        segments.push(current);
        proof {
            assert(segments@.map_values(|s: String| s@) =~= segs0.push(cur0));
            assert(value@.take(len as int) =~= value@);
        }
        Path { segments }
    }
}

} // verus!
