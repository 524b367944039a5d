//! The command shell's decision logic: one input line in, the response
//! text and screen actions out.
//!
//! Reading the line from the keyboard and printing the response are the
//! caller's transport; everything the shell decides — which command the
//! line names, what it does to the filesystem, what text comes back — is
//! here.

use vstd::prelude::*;
use crate::fs::Directory;
use crate::io::FileError;
use crate::io::Path;
use crate::ramfs::create_spec;
use crate::ramfs::open_spec;
use crate::ramfs::mkdir_spec;
use crate::ramfs::dir_exists;
use crate::ramfs::RamFsDirectory;
use crate::stdio::from_utf8_owned;
use crate::stdio::lemma_nul_span_first;
use crate::stdio::nul_prefix;
use crate::stdio::nul_span;
use crate::io::joined_path;
use crate::io::slash_free;
use vstd::string::StrSliceExecFns;
use vstd::utf8::decode_utf8;
use vstd::utf8::encode_utf8;
use vstd::utf8::valid_utf8;

verus! {

/// Decodes the text before the first zero byte; bytes that are not a
/// valid UTF-8 encoding are refused.
pub fn string_from_u8_nul_utf(utf8_src: &Vec<u8>) -> (r: Result<String, FileError>)
    ensures
        ({
            let prefix = utf8_src@.take(nul_span(utf8_src@));
            match r {
                Ok(s) => valid_utf8(prefix) && s@ == decode_utf8(prefix),
                Err(e) => e == FileError::InvalidString && !valid_utf8(prefix),
            }
        }),
{
    let len = utf8_src.len();
    let mut end: usize = 0;
    while end < len && utf8_src[end] != 0
        invariant
            len == utf8_src@.len(),
            0 <= end <= len,
            forall|i: int| 0 <= i < end ==> utf8_src@[i] != 0,
        decreases len - end,
    {
        end = end + 1;
    }
    proof {
        lemma_nul_span_first(utf8_src@, end as int);
    }
    let prefix = nul_prefix(utf8_src, end);
    match from_utf8_owned(prefix) {
        Some(s) => Ok(s),
        None => Err(FileError::InvalidString),
    }
}

/// The characters the tokenizer treats as separators.
pub open spec fn is_space_char(c: char) -> bool {
    c == ' ' || c == '\n' || c == '\r' || c == '\t'
}

/// The tokenizer's walk: `cur` is the token being collected, `rest` the
/// characters still to scan.  A separator finishes the current token, a
/// finished empty token is dropped.
pub open spec fn tokens_cont(cur: Seq<char>, rest: Seq<char>) -> Seq<Seq<char>>
    decreases rest.len(),
{
    if rest.len() == 0 {
        if cur.len() == 0 {
            Seq::empty()
        } else {
            seq![cur]
        }
    } else if is_space_char(rest[0]) {
        if cur.len() == 0 {
            tokens_cont(cur, rest.skip(1))
        } else {
            seq![cur] + tokens_cont(Seq::<char>::empty(), rest.skip(1))
        }
    } else {
        tokens_cont(cur.push(rest[0]), rest.skip(1))
    }
}

/// The whitespace-separated tokens of a line, empty pieces dropped.
pub open spec fn tokens_of(s: Seq<char>) -> Seq<Seq<char>> {
    tokens_cont(Seq::<char>::empty(), s)
}

/// Splits a line at spaces, tabs and line breaks: exactly [`tokens_of`]
/// of the line, so every token is nonempty and whitespace-free.
pub fn split_whitespace(line: &String) -> (r: Vec<String>)
    ensures
        r@.map_values(|t: String| t@) == tokens_of(line@),
        forall|i: int|
            0 <= i < r@.len() ==> (#[trigger] r@[i])@.len() > 0 && forall|j: int|
                0 <= j < r@[i]@.len() ==> !is_space_char(#[trigger] r@[i]@[j]),
{
    let s = line.as_str();
    let len = s.unicode_len();
    let mut tokens: Vec<String> = Vec::new();
    let mut current = String::new();
    let mut i: usize = 0;
    proof {
        assert(s@.skip(0) =~= s@);
        assert(s@ == line@);
    }
    while i < len
        invariant
            len == s@.len(),
            s@ == line@,
            0 <= i <= len,
            tokens_of(line@) == tokens@.map_values(|t: String| t@) + tokens_cont(
                current@,
                s@.skip(i as int),
            ),
            forall|a: int|
                0 <= a < tokens@.len() ==> (#[trigger] tokens@[a])@.len() > 0 && forall|j: int|
                    0 <= j < tokens@[a]@.len() ==> !is_space_char(#[trigger] tokens@[a]@[j]),
            forall|j: int| 0 <= j < current@.len() ==> !is_space_char(#[trigger] current@[j]),
        decreases len - i,
    {
        let ghost toks0 = tokens@.map_values(|t: String| t@);
        let ghost cur0 = current@;
        let c = s.get_char(i);
        proof {
            assert(s@.skip(i as int)[0] == s@[i as int]);
            assert(s@.skip(i as int).skip(1) =~= s@.skip(i + 1));
        }
        if c == ' ' || c == '\n' || c == '\r' || c == '\t' {
            if current.unicode_len() > 0 {
                tokens.push(current);
                current = String::new();
                proof {
                    assert(tokens@.map_values(|t: String| t@) =~= toks0.push(cur0));
                    assert(tokens_cont(cur0, s@.skip(i as int)) == seq![cur0] + tokens_cont(
                        Seq::<char>::empty(),
                        s@.skip(i + 1),
                    ));
                    assert(toks0 + (seq![cur0] + tokens_cont(Seq::<char>::empty(), s@.skip(i + 1)))
                        =~= toks0.push(cur0) + tokens_cont(Seq::<char>::empty(), s@.skip(i + 1)));
                }
            }
        } else {
            current.push(c);
        }
        i = i + 1;
    }
    proof {
        assert(s@.skip(len as int) =~= Seq::<char>::empty());
    }
    let ghost toks0 = tokens@.map_values(|t: String| t@);
    let ghost cur0 = current@;
    if current.unicode_len() > 0 {
        tokens.push(current);
        proof {
            assert(tokens@.map_values(|t: String| t@) =~= toks0.push(cur0));
            assert(toks0 + seq![cur0] =~= toks0.push(cur0));
        }
    } else {
        proof {
            assert(toks0 + Seq::<Seq<char>>::empty() =~= toks0);
        }
    }
    tokens
}

/// The buffer a `cat` ends up holding for a file of the given bytes: up to
/// 1024 of them, zero-filled beyond (the terminating zero included).
pub open spec fn cat_window(bytes: Seq<u8>) -> Seq<u8> {
    Seq::new(
        1024,
        |i: int|
            if i < bytes.len() {
                bytes[i]
            } else {
                0
            },
    )
}

/// The text `cat` prints for a file of the given bytes: the buffer's
/// zero-terminated prefix decoded as UTF-8, or nothing if that prefix is
/// not a valid encoding.
pub open spec fn cat_text(bytes: Seq<u8>) -> Option<Seq<char>> {
    let w = cat_window(bytes);
    let prefix = w.take(nul_span(w));
    if valid_utf8(prefix) {
        Some(decode_utf8(prefix))
    } else {
        None
    }
}

/// What one shell line asks the caller to do: text to print, and whether
/// to clear the screen or dump the filesystem tree.
pub struct ShellResponse {
    pub output: String,
    pub clear_screen: bool,
    pub dump_tree: bool,
}

/// What one shell line owes the caller, given the filesystem before and
/// after, the tokens of the line, the raw line, and the result: which
/// response or refusal each command produces and what it does to the tree.
pub open spec fn shell_outcome(
    files0: RamFsDirectory,
    files1: RamFsDirectory,
    tokens: Seq<Seq<char>>,
    line: Seq<char>,
    r: Option<ShellResponse>,
) -> bool {
    &&& (tokens.len() == 0 ==> r is None && files1 == files0)
    &&& (tokens.len() > 0 ==> {
        let cmd = tokens[0];
        if cmd == "help"@ {
            r matches Some(resp) && resp.output@
                == "Currently available commands: help, echo, clear, put, cat, fsdump, mkdir\n"@
                && !resp.clear_screen && !resp.dump_tree && files1 == files0
        } else if cmd == "echo"@ {
            r matches Some(resp) && resp.output@ == line + "\n"@ && !resp.clear_screen
                && !resp.dump_tree && files1 == files0
        } else if cmd == "clear"@ {
            r matches Some(resp) && resp.output@.len() == 0 && resp.clear_screen
                && !resp.dump_tree && files1 == files0
        } else if cmd == "fsdump"@ {
            r matches Some(resp) && resp.output@.len() == 0 && !resp.clear_screen
                && resp.dump_tree && files1 == files0
        } else if cmd == "mkdir"@ {
            &&& (tokens.len() < 2 ==> r is None && files1 == files0)
            &&& tokens.len() >= 2 ==> match r {
                Some(resp) => {
                    &&& resp.output@.len() == 0
                    &&& !resp.clear_screen
                    &&& !resp.dump_tree
                    &&& exists|segs: Seq<Seq<char>>|
                        #[trigger] joined_path(segs) == tokens[1] && slash_free(segs)
                            && mkdir_spec(files0, segs) is Ok && dir_exists(files1, segs)
                },
                None => exists|segs: Seq<Seq<char>>|
                    #[trigger] joined_path(segs) == tokens[1] && slash_free(segs) && mkdir_spec(
                        files0,
                        segs,
                    ) is Err,
            }
        } else if cmd == "put"@ {
            &&& (tokens.len() < 3 ==> r is None && files1 == files0)
            &&& tokens.len() >= 3 ==> match r {
                Some(resp) => {
                    &&& resp.output@.len() == 0
                    &&& !resp.clear_screen
                    &&& !resp.dump_tree
                    &&& exists|segs: Seq<Seq<char>>|
                        #[trigger] joined_path(segs) == tokens[1] && slash_free(segs)
                            && create_spec(files0, segs) is Ok && open_spec(files1, segs) == Ok::<
                            Seq<u8>,
                            FileError,
                        >(encode_utf8(tokens[2]))
                },
                None => exists|segs: Seq<Seq<char>>|
                    #[trigger] joined_path(segs) == tokens[1] && slash_free(segs) && create_spec(
                        files0,
                        segs,
                    ) is Err,
            }
        } else if cmd == "cat"@ {
            &&& files1 == files0
            &&& (tokens.len() < 2 ==> r is None)
            &&& tokens.len() >= 2 ==> match r {
                Some(resp) => !resp.clear_screen && !resp.dump_tree && exists|segs: Seq<Seq<char>>|
                    #[trigger] joined_path(segs) == tokens[1] && slash_free(segs) && (open_spec(
                        files0,
                        segs,
                    ) matches Ok(bytes) && (cat_text(bytes) matches Some(t) && resp.output@
                        == t.push('\n'))),
                None => exists|segs: Seq<Seq<char>>|
                    #[trigger] joined_path(segs) == tokens[1] && slash_free(segs) && (open_spec(
                        files0,
                        segs,
                    ) is Err || (open_spec(files0, segs) matches Ok(bytes) && cat_text(bytes)
                        is None)),
            }
        } else {
            r matches Some(resp) && resp.output@ == "Error: Unknown Command\n"@
                && !resp.clear_screen && !resp.dump_tree && files1 == files0
        }
    })
}

/// Executes one tokenized command line against the filesystem.  `None`
/// reports a malformed or failed command, which the caller answers with
/// its generic error line; `Some` carries the response.  The outcome is
/// exactly [`shell_outcome`] over the tokens.
pub fn execute_tokens(
    files: &mut RamFsDirectory,
    tokens: &Vec<String>,
    line_raw: &String,
) -> (r: Option<ShellResponse>)
    ensures
        shell_outcome(
            *old(files),
            *final(files),
            tokens@.map_values(|t: String| t@),
            line_raw@,
            r,
        ),
{
    proof {
        assert(tokens@.map_values(|t: String| t@).len() == tokens@.len());
        if tokens@.len() > 0 {
            assert(tokens@.map_values(|t: String| t@)[0] == tokens@[0]@);
        }
        if tokens@.len() > 1 {
            assert(tokens@.map_values(|t: String| t@)[1] == tokens@[1]@);
        }
        if tokens@.len() > 2 {
            assert(tokens@.map_values(|t: String| t@)[2] == tokens@[2]@);
        }
    }
    if tokens.len() == 0 {
        return None;
    }
    let command = &tokens[0];
    if string_eq_literal(command, "help") {
        Some(
            ShellResponse {
                output: literal_line(
                    "Currently available commands: help, echo, clear, put, cat, fsdump, mkdir\n",
                ),
                clear_screen: false,
                dump_tree: false,
            },
        )
    } else if string_eq_literal(command, "echo") {
        let mut output = clone_text(line_raw);
        output.push('\n');
        proof {
            reveal_strlit("\n");
            assert(line_raw@ + "\n"@ =~= line_raw@.push('\n'));
        }
        Some(ShellResponse { output, clear_screen: false, dump_tree: false })
    } else if string_eq_literal(command, "clear") {
        Some(ShellResponse { output: String::new(), clear_screen: true, dump_tree: false })
    } else if string_eq_literal(command, "fsdump") {
        Some(ShellResponse { output: String::new(), clear_screen: false, dump_tree: true })
    } else if string_eq_literal(command, "mkdir") {
        if tokens.len() < 2 {
            return None;
        }
        let path = Path::from(tokens[1].as_str());
        match files.mkdir(&path) {
            Ok(()) => Some(
                ShellResponse { output: String::new(), clear_screen: false, dump_tree: false },
            ),
            Err(_) => None,
        }
    } else if string_eq_literal(command, "put") {
        if tokens.len() < 3 {
            return None;
        }
        let data = tokens[2].as_str().as_bytes_vec();
        let path = Path::from(tokens[1].as_str());
        match files.write_file(&path, &data) {
            Ok(()) => Some(
                ShellResponse { output: String::new(), clear_screen: false, dump_tree: false },
            ),
            Err(_) => None,
        }
    } else if string_eq_literal(command, "cat") {
        if tokens.len() < 2 {
            return None;
        }
        let path = Path::from(tokens[1].as_str());
        let handle = match files.open(&path, true) {
            Ok(h) => h,
            Err(_) => {
                return None;
            },
        };
        let mut handle = handle;
        let mut buf: Vec<u8> = Vec::new();
        let mut i: usize = 0;
        while i < 1024
            invariant
                i == buf@.len(),
                0 <= i <= 1024,
                forall|j: int| 0 <= j < i ==> buf@[j] == 0,
            decreases 1024 - i,
        {
            buf.push(0);
            i = i + 1;
        }
        match crate::io::Read::read(&mut handle, &mut buf) {
            Ok(_) => (),
            Err(_) => {
                return None;
            },
        }
        proof {
            let bytes = handle.file.contents@;
            let n: int = if bytes.len() <= 1024 {
                bytes.len() as int
            } else {
                1024
            };
            assert forall|j: int| 0 <= j < 1024 implies buf@[j] == cat_window(bytes)[j] by {
                if j < n {
                    assert(buf@[j] == bytes[j]);
                } else if j == n {
                    assert(buf@[j] == 0);
                } else {
                    assert(buf@[j] == 0);
                }
            }
            assert(buf@ =~= cat_window(bytes));
        }
        let mut output = match string_from_u8_nul_utf(&buf) {
            Ok(s) => s,
            Err(_) => {
                return None;
            },
        };
        output.push('\n');
        Some(ShellResponse { output, clear_screen: false, dump_tree: false })
    } else {
        Some(
            ShellResponse {
                output: literal_line("Error: Unknown Command\n"),
                clear_screen: false,
                dump_tree: false,
            },
        )
    }
}

/// One round of the shell: tokenizes the line and executes it.  The
/// caller prints the response, or its generic error line for `None`, and
/// loops.  The outcome is exactly [`shell_outcome`] over the line's
/// tokens.
pub fn shell_inner(files: &mut RamFsDirectory, line_raw: &String) -> (r: Option<ShellResponse>)
    ensures
        shell_outcome(*old(files), *final(files), tokens_of(line_raw@), line_raw@, r),
{
    let tokens = split_whitespace(line_raw);
    execute_tokens(files, &tokens, line_raw)
}

/// Whether a token spells the given literal.
fn string_eq_literal(s: &String, lit: &str) -> (r: bool)
    ensures
        r == (s@ == lit@),
{
    let owned = lit.to_owned();
    *s == owned
}

/// An owned copy of a literal.
fn literal_line(lit: &str) -> (r: String)
    ensures
        r@ == lit@,
{
    lit.to_owned()
}

/// An owned copy of a line.
fn clone_text(s: &String) -> (r: String)
    ensures
        r@ == s@,
{
    s.clone()
}

} // verus!
