//! Console input and output plumbing.
//!
//! `Stdout` fans written text out to every registered sink; a sink here is
//! the byte log of one transport (the glyph console, the serial port),
//! whose hardware half drains it outside the crate.  `Stdin` turns the
//! characters the keyboard mailbox delivered into an edited line.

use vstd::prelude::*;
use vstd::string::StringSliceAdditionalSpecFns;
use crate::io::FileError;

verus! {

/// Index of the first zero byte, or the length if none: how much of a
/// buffer counts as text.
pub open spec fn nul_span(b: Seq<u8>) -> int
    decreases b.len(),
{
    if b.len() == 0 {
        0
    } else if b[0] == 0 {
        0
    } else {
        1 + nul_span(b.skip(1))
    }
}

/// If nothing before `j` is zero and `j` is zero (or the end), the span is
/// exactly `j`.
pub proof fn lemma_nul_span_first(b: Seq<u8>, j: int)
    requires
        0 <= j <= b.len(),
        forall|i: int| 0 <= i < j ==> b[i] != 0,
        j < b.len() ==> b[j] == 0,
    ensures
        nul_span(b) == j,
    decreases b.len(),
{
    if b.len() > 0 && j > 0 {
        lemma_nul_span_first(b.skip(1), j - 1);
    }
}

/// Relies on std's String::from_utf8: it succeeds exactly when the bytes
/// are a valid UTF-8 encoding, and the string it returns spells the
/// characters that encoding carries (vstd's `valid_utf8` and `decode_utf8`
/// formalize the same encoding).
#[verifier::external_body]
pub(crate) fn from_utf8_owned(bytes: Vec<u8>) -> (r: Option<String>)
    ensures
        r is Some <==> vstd::utf8::valid_utf8(bytes@),
        r matches Some(s) ==> s@ == vstd::utf8::decode_utf8(bytes@),
{
    match String::from_utf8(bytes) {
        Ok(s) => Some(s),
        Err(_) => None,
    }
}

/// A fresh copy of the first `end` bytes of `buf`.
pub(crate) fn nul_prefix(buf: &Vec<u8>, end: usize) -> (r: Vec<u8>)
    requires
        end <= buf@.len(),
    ensures
        r@ == buf@.take(end as int),
{
    let mut out: Vec<u8> = Vec::new();
    let mut i: usize = 0;
    while i < end
        invariant
            end <= buf@.len(),
            0 <= i <= end,
            out@ == buf@.take(i as int),
        decreases end - i,
    {
        out.push(buf[i]);
        proof {
            assert(buf@.take(i + 1) =~= buf@.take(i as int).push(buf@[i as int]));
        }
        i = i + 1;
    }
    out
}

/// Collects output and fans it out: every sink receives every byte.
pub struct Stdout {
    pub sinks: Vec<Vec<u8>>,
}

impl Stdout {
    /// A writer with no sinks: output is accepted and goes nowhere.
    pub fn new() -> (r: Stdout)
        ensures
            r.sinks@ == Seq::<Vec<u8>>::empty(),
    {
        Stdout { sinks: Vec::new() }
    }

    /// Registers one more sink; returns its index.  The sink starts empty
    /// and receives everything written from now on.
    pub fn add_sink(&mut self) -> (r: usize)
        ensures
            final(self).sinks@.len() == old(self).sinks@.len() + 1,
            forall|i: int|
                0 <= i < old(self).sinks@.len() ==> final(self).sinks@[i] == old(self).sinks@[i],
            final(self).sinks@[old(self).sinks@.len() as int]@ == Seq::<u8>::empty(),
            r == old(self).sinks@.len(),
    {
        let r = self.sinks.len();
        self.sinks.push(Vec::new());
        r
    }

    /// Appends the text to every sink.
    pub fn write_str(&mut self, s: &str) -> (r: Result<(), FileError>)
        ensures
            r is Ok,
            final(self).sinks@.len() == old(self).sinks@.len(),
            forall|i: int|
                0 <= i < old(self).sinks@.len() ==> #[trigger] final(self).sinks@[i]@ == old(
                    self,
                ).sinks@[i]@ + s.spec_bytes(),
    {
        let bytes = s.as_bytes();
        let n = self.sinks.len();
        let mut i: usize = 0;
        while i < n
            invariant
                n == self.sinks@.len(),
                0 <= i <= n,
                bytes@ == s.spec_bytes(),
                forall|k: int|
                    0 <= k < i ==> #[trigger] self.sinks@[k]@ == old(self).sinks@[k]@
                        + s.spec_bytes(),
                forall|k: int| i <= k < n ==> #[trigger] self.sinks@[k] == old(self).sinks@[k],
            decreases n - i,
        {
            self.sinks[i].extend_from_slice(bytes);
            i = i + 1;
        }
        Ok(())
    }

    /// Writes a byte buffer: the bytes before the first zero must be a
    /// valid UTF-8 text; they go to every sink and their count is
    /// returned.  Anything else refuses the whole buffer and no sink
    /// changes.
    pub fn write(&mut self, buf: &Vec<u8>) -> (r: Result<usize, FileError>)
        ensures
            final(self).sinks@.len() == old(self).sinks@.len(),
            ({
                let prefix = buf@.take(nul_span(buf@));
                if vstd::utf8::valid_utf8(prefix) {
                    &&& r == Ok::<usize, FileError>(nul_span(buf@) as usize)
                    &&& forall|i: int|
                        0 <= i < old(self).sinks@.len() ==> #[trigger] final(self).sinks@[i]@
                            == old(self).sinks@[i]@ + prefix
                } else {
                    &&& r == Err::<usize, FileError>(FileError::InvalidString)
                    &&& final(self).sinks@ == old(self).sinks@
                }
            }),
    {
        let len = buf.len();
        let mut end: usize = 0;
        while end < len && buf[end] != 0
            invariant
                len == buf@.len(),
                0 <= end <= len,
                forall|i: int| 0 <= i < end ==> buf@[i] != 0,
            decreases len - end,
        {
            end = end + 1;
        }
        proof {
            lemma_nul_span_first(buf@, end as int);
        }
        let prefix = nul_prefix(buf, end);
        if from_utf8_owned(prefix).is_none() {
            return Err(FileError::InvalidString);
        }
        let n = self.sinks.len();
        let mut k: usize = 0;
        while k < n
            invariant
                n == self.sinks@.len(),
                0 <= k <= n,
                end <= len,
                len == buf@.len(),
                end == nul_span(buf@),
                forall|j: int|
                    0 <= j < k ==> #[trigger] self.sinks@[j]@ == old(self).sinks@[j]@ + buf@.take(
                        end as int,
                    ),
                forall|j: int| k <= j < n ==> #[trigger] self.sinks@[j] == old(self).sinks@[j],
            decreases n - k,
        {
            let mut j: usize = 0;
            let ghost sink0 = self.sinks@[k as int]@;
            while j < end
                invariant
                    n == self.sinks@.len(),
                    k < n,
                    end <= len,
                    len == buf@.len(),
                    0 <= j <= end,
                    self.sinks@[k as int]@ == sink0 + buf@.take(j as int),
                    sink0 == old(self).sinks@[k as int]@,
                    forall|m: int|
                        0 <= m < k ==> #[trigger] self.sinks@[m]@ == old(self).sinks@[m]@
                            + buf@.take(end as int),
                    forall|m: int|
                        k < m < n ==> #[trigger] self.sinks@[m] == old(self).sinks@[m],
                decreases end - j,
            {
                let b = buf[j];
                self.sinks[k].push(b);
                proof {
                    assert(buf@.take(j + 1) =~= buf@.take(j as int).push(buf@[j as int]));
                }
                j = j + 1;
            }
            k = k + 1;
        }
        Ok(end)
    }

    /// Nothing is buffered beyond the sinks themselves.
    pub fn flush(&mut self) -> (r: Result<(), FileError>)
        ensures
            *final(self) == *old(self),
            r is Ok,
    {
        Ok(())
    }
}

/// Registers one more sink on a writer.
pub fn add_sink(out: &mut Stdout) -> (r: usize)
    ensures
        final(out).sinks@.len() == old(out).sinks@.len() + 1,
        forall|i: int|
            0 <= i < old(out).sinks@.len() ==> final(out).sinks@[i] == old(out).sinks@[i],
        final(out).sinks@[old(out).sinks@.len() as int]@ == Seq::<u8>::empty(),
        r == old(out).sinks@.len(),
{
    out.add_sink()
}

/// One key applied to a line being edited: backspace erases the last
/// character, anything else is appended.
pub open spec fn apply_key(acc: Seq<char>, key: char) -> Seq<char> {
    if key == '\u{8}' {
        if acc.len() > 0 {
            acc.drop_last()
        } else {
            acc
        }
    } else {
        acc.push(key)
    }
}

/// The line after feeding `keys` into the editor: keys apply one by one
/// until the line ends with a newline (which stays in the line) or the
/// keys run out.
pub open spec fn line_edit(acc: Seq<char>, keys: Seq<char>) -> Seq<char>
    decreases keys.len(),
{
    if acc.len() > 0 && acc[acc.len() - 1] == '\n' {
        acc
    } else if keys.len() == 0 {
        acc
    } else {
        line_edit(apply_key(acc, keys[0]), keys.skip(1))
    }
}

/// Builds the edited line from delivered keys: exactly [`line_edit`] from
/// an empty line.  The caller keeps feeding keys from the mailbox until
/// the line carries its newline.
pub fn read_line(keys: &Vec<char>) -> (r: String)
    ensures
        r@ == line_edit(Seq::<char>::empty(), keys@),
{
    let mut acc: Vec<char> = Vec::new();
    let n = keys.len();
    let mut i: usize = 0;
    proof {
        assert(keys@.skip(0) =~= keys@);
    }
    while (acc.len() == 0 || acc[acc.len() - 1] != '\n') && i < n
        invariant
            n == keys@.len(),
            0 <= i <= n,
            line_edit(Seq::<char>::empty(), keys@) == line_edit(acc@, keys@.skip(i as int)),
        decreases n - i,
    {
        let c = keys[i];
        proof {
            assert(keys@.skip(i as int)[0] == keys@[i as int]);
            assert(keys@.skip(i as int).skip(1) =~= keys@.skip(i + 1));
        }
        if c == '\u{8}' {
            if acc.len() > 0 {
                acc.pop();
            }
        } else {
            acc.push(c);
        }
        i = i + 1;
    }
    proof {
        if !(acc@.len() > 0 && acc@[acc@.len() - 1] == '\n') {
            assert(i == n);
            assert(keys@.skip(n as int) =~= Seq::<char>::empty());
        }
    }
    let mut s = String::new();
    let m = acc.len();
    let mut j: usize = 0;
    while j < m
        invariant
            m == acc@.len(),
            0 <= j <= m,
            s@ == acc@.take(j as int),
        decreases m - j,
    {
        s.push(acc[j]);
        proof {
            assert(acc@.take(j + 1) =~= acc@.take(j as int).push(acc@[j as int]));
        }
        j = j + 1;
    }
    proof {
        assert(acc@.take(m as int) =~= acc@);
    }
    s
}

/// The console input handle: turns mailbox characters into lines.
pub struct Stdin {

}

impl Stdin {
    /// Fills `buf` with the edited line the delivered keys make and
    /// reports its character count.
    pub fn read_line(&self, buf: &mut String, keys: &Vec<char>) -> (r: Result<usize, FileError>)
        ensures
            final(buf)@ == line_edit(Seq::<char>::empty(), keys@),
            r == Ok::<usize, FileError>(final(buf)@.len() as usize),
    {
        let line = read_line(keys);
        let n = line.as_str().unicode_len();
        *buf = line;
        Ok(n)
    }
}

/// The input handle.
pub fn stdin() -> (r: Stdin)
{
    Stdin {  }
}

} // verus!
