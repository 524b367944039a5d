//! The in-memory filesystem: a tree of directories and regular files.
//!
//! Directories hold their children as a list of uniquely named entries.
//! Opening a file hands out a [`RamFsFile`] over a snapshot of its bytes.

use vstd::prelude::*;
use crate::fs::Directory;
use crate::io::FileError;
use crate::io::Path;
use crate::io::Read;
use crate::io::Seek;
use crate::io::SeekFrom;
use crate::io::Write;
use crate::ramfile::RamFile;

verus! {

/// A node of the tree: a subdirectory or a regular file.
pub enum RamFsNode {
    Directory(RamFsDirectory),
    Regular(RegularFile),
}

/// A directory: named children, each name used once.
pub struct RamFsDirectory {
    pub entries: Vec<(String, RamFsNode)>,
}

/// A regular file: the stored bytes.
pub struct RegularFile {
    pub contents: Vec<u8>,
}

/// A read handle over a snapshot of a stored file's bytes.
///
/// Handles do not alias the stored buffer: several handles sharing one
/// lock-guarded byte vector is interior mutability, which cannot be
/// reasoned about here without tracked ghost permissions, and this crate
/// keeps to plain ownership.  A handle therefore owns a snapshot for
/// reading and seeking; its `write` refuses rather than keeping bytes the
/// stored file would never see, and writes persist through
/// [`RamFsDirectory::write_file`].
pub struct RamFsFile {
    pub file: RamFile,
}

/// Position of the first entry named `name`, or -1.
pub open spec fn key_index(entries: Seq<(String, RamFsNode)>, name: Seq<char>) -> int
    decreases entries.len(),
{
    if entries.len() == 0 {
        -1
    } else if entries[0].0@ == name {
        0
    } else {
        let r = key_index(entries.skip(1), name);
        if r < 0 {
            -1
        } else {
            r + 1
        }
    }
}

/// The child named `name`, if any.
pub open spec fn lookup(entries: Seq<(String, RamFsNode)>, name: Seq<char>) -> Option<RamFsNode> {
    if key_index(entries, name) >= 0 {
        Some(entries[key_index(entries, name)].1)
    } else {
        None
    }
}

proof fn lemma_key_index_bounds(entries: Seq<(String, RamFsNode)>, name: Seq<char>)
    ensures
        -1 <= key_index(entries, name) < entries.len(),
        key_index(entries, name) >= 0 ==> entries[key_index(entries, name)].0@ == name,
    decreases entries.len(),
{
    if entries.len() > 0 && entries[0].0@ != name {
        lemma_key_index_bounds(entries.skip(1), name);
    }
}

/// If nothing before `j` matches and `j` matches, `j` is the first match.
proof fn lemma_key_index_first(entries: Seq<(String, RamFsNode)>, name: Seq<char>, j: int)
    requires
        0 <= j <= entries.len(),
        forall|k: int| 0 <= k < j ==> entries[k].0@ != name,
        j < entries.len() ==> entries[j].0@ == name,
    ensures
        j < entries.len() ==> key_index(entries, name) == j,
        j == entries.len() ==> key_index(entries, name) == -1,
    decreases entries.len(),
{
    if entries.len() > 0 {
        if j == 0 {
        } else {
            lemma_key_index_first(entries.skip(1), name, j - 1);
        }
    }
}

/// Replacing an entry's value under the same name moves every lookup index
/// nowhere.
proof fn lemma_key_index_update(
    entries: Seq<(String, RamFsNode)>,
    name: Seq<char>,
    j: int,
    v: (String, RamFsNode),
)
    requires
        0 <= j < entries.len(),
        v.0@ == entries[j].0@,
    ensures
        key_index(entries.update(j, v), name) == key_index(entries, name),
    decreases entries.len(),
{
    if entries.len() > 0 {
        if j == 0 {
            assert(entries.update(0, v).skip(1) =~= entries.skip(1));
        } else {
            lemma_key_index_update(entries.skip(1), name, j - 1, v);
            assert(entries.update(j, v).skip(1) =~= entries.skip(1).update(j - 1, v));
            assert(entries.update(j, v)[0] == entries[0]);
        }
    }
}

/// A name absent from `entries` is found exactly at the end after a push.
proof fn lemma_key_index_push(
    entries: Seq<(String, RamFsNode)>,
    name: Seq<char>,
    v: (String, RamFsNode),
)
    requires
        key_index(entries, name) == -1,
    ensures
        v.0@ == name ==> key_index(entries.push(v), name) == entries.len(),
        v.0@ != name ==> key_index(entries.push(v), name) == -1,
    decreases entries.len(),
{
    if entries.len() == 0 {
        assert(entries.push(v)[0] == v);
        assert(entries.push(v).skip(1) =~= Seq::<(String, RamFsNode)>::empty());
        assert(key_index(Seq::<(String, RamFsNode)>::empty(), name) == -1);
    } else {
        lemma_key_index_push(entries.skip(1), name, v);
        assert(entries.push(v).skip(1) =~= entries.skip(1).push(v));
        assert(entries.push(v)[0] == entries[0]);
    }
}

/// Pushing an entry under one name leaves every other name's first match
/// where it was.
proof fn lemma_key_index_push_other(
    entries: Seq<(String, RamFsNode)>,
    name: Seq<char>,
    v: (String, RamFsNode),
)
    requires
        v.0@ != name,
    ensures
        key_index(entries.push(v), name) == key_index(entries, name),
    decreases entries.len(),
{
    if entries.len() == 0 {
        assert(entries.push(v)[0] == v);
        assert(entries.push(v).skip(1) =~= Seq::<(String, RamFsNode)>::empty());
        assert(key_index(Seq::<(String, RamFsNode)>::empty(), name) == -1);
    } else {
        lemma_key_index_push_other(entries.skip(1), name, v);
        assert(entries.push(v).skip(1) =~= entries.skip(1).push(v));
        assert(entries.push(v)[0] == entries[0]);
    }
}

/// Replacing the entry that carries `name0` leaves every other name's
/// child untouched.
proof fn lemma_lookup_after_update(
    entries0: Seq<(String, RamFsNode)>,
    j: int,
    v: (String, RamFsNode),
    name0: Seq<char>,
)
    requires
        0 <= j < entries0.len(),
        entries0[j].0@ == name0,
        v.0@ == name0,
    ensures
        forall|nm: Seq<char>|
            nm != name0 ==> #[trigger] lookup(entries0.update(j, v), nm) == lookup(entries0, nm),
{
    assert forall|nm: Seq<char>| nm != name0 implies #[trigger] lookup(entries0.update(j, v), nm)
        == lookup(entries0, nm) by {
        lemma_key_index_update(entries0, nm, j, v);
        lemma_key_index_bounds(entries0, nm);
        let k = key_index(entries0, nm);
        if k >= 0 {
            assert(entries0[k].0@ == nm);
            assert(k != j);
            assert(entries0.update(j, v)[k] == entries0[k]);
        }
    }
}

/// Adding an entry under `v`'s name leaves every other name's child
/// untouched.
proof fn lemma_lookup_after_push(entries0: Seq<(String, RamFsNode)>, v: (String, RamFsNode))
    ensures
        forall|nm: Seq<char>|
            nm != v.0@ ==> #[trigger] lookup(entries0.push(v), nm) == lookup(entries0, nm),
{
    assert forall|nm: Seq<char>| nm != v.0@ implies #[trigger] lookup(entries0.push(v), nm)
        == lookup(entries0, nm) by {
        lemma_key_index_push_other(entries0, nm, v);
        lemma_key_index_bounds(entries0, nm);
        let k = key_index(entries0, nm);
        if k >= 0 {
            assert(entries0.push(v)[k] == entries0[k]);
        }
    }
}

/// What opening `segs` in `d` yields: the stored bytes, or the error.
/// An empty path names the directory itself; a missing intermediate name is
/// an invalid path; a missing final name is not found.  A regular file
/// found before the last segment swallows the remaining segments: the walk
/// opens it and ignores the rest.
pub open spec fn open_spec(d: RamFsDirectory, segs: Seq<Seq<char>>) -> Result<Seq<u8>, FileError>
    decreases segs.len(),
{
    if segs.len() == 0 {
        Err(FileError::IsDirectory)
    } else {
        match lookup(d.entries@, segs[0]) {
            Some(RamFsNode::Directory(sub)) => open_spec(sub, segs.skip(1)),
            Some(RamFsNode::Regular(f)) => Ok(f.contents@),
            None => if segs.len() != 1 {
                Err(FileError::InvalidPath)
            } else {
                Err(FileError::NotFound)
            },
        }
    }
}

/// What creating `segs` in `d` yields: the bytes of the opened file (empty
/// for a fresh one), or the error.
pub open spec fn create_spec(d: RamFsDirectory, segs: Seq<Seq<char>>) -> Result<Seq<u8>, FileError>
    decreases segs.len(),
{
    if segs.len() == 0 {
        Err(FileError::IsDirectory)
    } else {
        match lookup(d.entries@, segs[0]) {
            Some(RamFsNode::Directory(sub)) => create_spec(sub, segs.skip(1)),
            Some(RamFsNode::Regular(f)) => Ok(f.contents@),
            None => if segs.len() != 1 {
                Err(FileError::InvalidPath)
            } else {
                Ok(Seq::empty())
            },
        }
    }
}

/// What mkdir of `segs` in `d` answers: only a regular file in the way is
/// an error; missing directories are created.
pub open spec fn mkdir_spec(d: RamFsDirectory, segs: Seq<Seq<char>>) -> Result<(), FileError>
    decreases segs.len(),
{
    if segs.len() == 0 {
        Ok(())
    } else {
        match lookup(d.entries@, segs[0]) {
            Some(RamFsNode::Directory(sub)) => mkdir_spec(sub, segs.skip(1)),
            Some(RamFsNode::Regular(_)) => Err(FileError::InvalidPath),
            None => Ok(()),
        }
    }
}

/// Whether `a` is a prefix of `b`: `b` starts with every segment of `a`.
pub open spec fn is_prefix_of(a: Seq<Seq<char>>, b: Seq<Seq<char>>) -> bool {
    a.len() <= b.len() && forall|i: int| 0 <= i < a.len() ==> a[i] == b[i]
}

/// Lifts a resolution relation one directory level up: if `d1` differs
/// from `d0` only at the child named `name`, both holding directories
/// whose resolutions agree on every continuation the guard admits, then
/// the trees' resolutions agree on every path that is empty, starts
/// elsewhere, or continues into an admitted continuation.
proof fn lemma_open_spec_lift(
    d0: RamFsDirectory,
    d1: RamFsDirectory,
    name: Seq<char>,
    sub0: RamFsDirectory,
    sub1: RamFsDirectory,
    guard: spec_fn(Seq<Seq<char>>) -> bool,
)
    requires
        lookup(d0.entries@, name) == Some(RamFsNode::Directory(sub0)),
        lookup(d1.entries@, name) == Some(RamFsNode::Directory(sub1)),
        forall|nm: Seq<char>|
            nm != name ==> #[trigger] lookup(d1.entries@, nm) == lookup(d0.entries@, nm),
        forall|q2: Seq<Seq<char>>|
            #[trigger] guard(q2) ==> open_spec(sub1, q2) == open_spec(sub0, q2),
    ensures
        forall|q: Seq<Seq<char>>|
            q.len() == 0 || q[0] != name || guard(q.skip(1)) ==> #[trigger] open_spec(d1, q)
                == open_spec(d0, q),
{
    assert forall|q: Seq<Seq<char>>|
        q.len() == 0 || q[0] != name || guard(q.skip(1)) implies #[trigger] open_spec(d1, q)
        == open_spec(d0, q) by {
        if q.len() == 0 {
        } else if q[0] != name {
            assert(lookup(d1.entries@, q[0]) == lookup(d0.entries@, q[0]));
        } else {
            assert(open_spec(d1, q) == open_spec(sub1, q.skip(1)));
            assert(open_spec(d0, q) == open_spec(sub0, q.skip(1)));
            assert(guard(q.skip(1)));
        }
    }
}

/// Trees with the same entry list resolve every path alike.
proof fn lemma_open_spec_entries(d0: RamFsDirectory, d1: RamFsDirectory)
    requires
        d0.entries@ == d1.entries@,
    ensures
        forall|q: Seq<Seq<char>>| #[trigger] open_spec(d1, q) == open_spec(d0, q),
{
    assert forall|q: Seq<Seq<char>>| #[trigger] open_spec(d1, q) == open_spec(d0, q) by {
        if q.len() > 0 {
            assert(lookup(d1.entries@, q[0]) == lookup(d0.entries@, q[0]));
        }
    }
}

/// If every name but one looks up alike, every path that starts elsewhere
/// (or nowhere) resolves alike.
proof fn lemma_open_spec_other_names(d0: RamFsDirectory, d1: RamFsDirectory, name: Seq<char>)
    requires
        forall|nm: Seq<char>|
            nm != name ==> #[trigger] lookup(d1.entries@, nm) == lookup(d0.entries@, nm),
    ensures
        forall|q: Seq<Seq<char>>|
            q.len() == 0 || q[0] != name ==> #[trigger] open_spec(d1, q) == open_spec(d0, q),
{
    assert forall|q: Seq<Seq<char>>|
        q.len() == 0 || q[0] != name implies #[trigger] open_spec(d1, q) == open_spec(d0, q) by {
        if q.len() > 0 {
            assert(lookup(d1.entries@, q[0]) == lookup(d0.entries@, q[0]));
        }
    }
}

/// Whether `segs` names an existing directory chain in `d`.
pub open spec fn dir_exists(d: RamFsDirectory, segs: Seq<Seq<char>>) -> bool
    decreases segs.len(),
{
    if segs.len() == 0 {
        true
    } else {
        match lookup(d.entries@, segs[0]) {
            Some(RamFsNode::Directory(sub)) => dir_exists(sub, segs.skip(1)),
            _ => false,
        }
    }
}

impl RegularFile {
    /// An empty file.
    pub fn create() -> (r: RegularFile)
        ensures
            r.contents@ == Seq::<u8>::empty(),
    {
        RegularFile { contents: Vec::new() }
    }

    /// A handle over a snapshot of this file's bytes, cursor at the start.
    /// Writes through the handle stay in the handle; see [`RamFsFile`] for
    /// why, and [`RamFsDirectory::write_file`] for persisting them.
    pub fn open(&self, read_only: bool) -> (r: RamFsFile)
        ensures
            r.file.contents@ == self.contents@,
            r.file.position == 0,
            r.file.read_only == read_only,
    {
        let mut copied: Vec<u8> = Vec::new();
        let mut i: usize = 0;
        let n = self.contents.len();
        while i < n
            invariant
                n == self.contents@.len(),
                0 <= i <= n,
                copied@ == self.contents@.take(i as int),
            decreases n - i,
        {
            copied.push(self.contents[i]);
            proof {
                assert(self.contents@.take(i + 1) =~= self.contents@.take(i as int).push(
                    self.contents@[i as int],
                ));
            }
            i = i + 1;
        }
        proof {
            assert(self.contents@.take(n as int) =~= self.contents@);
        }
        RamFsFile { file: RamFile::new(copied, read_only) }
    }
}

impl RamFsDirectory {
    /// An empty directory.
    pub fn new() -> (r: RamFsDirectory)
        ensures
            r.entries@ == Seq::<(String, RamFsNode)>::empty(),
    {
        RamFsDirectory { entries: Vec::new() }
    }

    /// Index of the child named `name`, if one exists.
    fn find_entry(&self, name: &String) -> (r: Option<usize>)
        ensures
            match r {
                Some(j) => j == key_index(self.entries@, name@) && j < self.entries@.len(),
                None => key_index(self.entries@, name@) == -1,
            },
    {
        let n = self.entries.len();
        let mut j: usize = 0;
        while j < n
            invariant
                n == self.entries@.len(),
                0 <= j <= n,
                forall|k: int| 0 <= k < j ==> self.entries@[k].0@ != name@,
            decreases n - j,
        {
            if self.entries[j].0 == *name {
                proof {
                    lemma_key_index_first(self.entries@, name@, j as int);
                }
                return Some(j);
            }
            j = j + 1;
        }
        proof {
            lemma_key_index_first(self.entries@, name@, n as int);
        }
        None
    }

    /// The walk behind `open`, from segment `idx` on.
    fn open_at(&self, path: &Vec<String>, idx: usize, read_only: bool) -> (r: Result<
        RamFsFile,
        FileError,
    >)
        requires
            idx <= path@.len(),
        ensures
            ({
                let segs = path@.map_values(|s: String| s@).skip(idx as int);
                match r {
                    Ok(h) => {
                        &&& open_spec(*self, segs) == Ok::<Seq<u8>, FileError>(h.file.contents@)
                        &&& h.file.position == 0
                        &&& h.file.read_only == read_only
                    },
                    Err(e) => open_spec(*self, segs) == Err::<Seq<u8>, FileError>(e),
                }
            }),
        decreases path@.len() - idx,
    {
        let ghost segs = path@.map_values(|s: String| s@).skip(idx as int);
        if idx >= path.len() {
            return Err(FileError::IsDirectory);
        }
        proof {
            assert(segs[0] == path@[idx as int]@);
            assert(segs.skip(1) =~= path@.map_values(|s: String| s@).skip(idx + 1));
            lemma_key_index_bounds(self.entries@, segs[0]);
        }
        match self.find_entry(&path[idx]) {
            Some(j) => {
                match &self.entries[j].1 {
                    RamFsNode::Directory(sub) => sub.open_at(path, idx + 1, read_only),
                    RamFsNode::Regular(f) => Ok(f.open(read_only)),
                }
            },
            None => {
                if path.len() - idx != 1 {
                    Err(FileError::InvalidPath)
                } else {
                    Err(FileError::NotFound)
                }
            },
        }
    }

    /// The walk behind `create`, from segment `idx` on.
    fn create_at(&mut self, path: &Vec<String>, idx: usize) -> (r: Result<RamFsFile, FileError>)
        requires
            idx <= path@.len(),
        ensures
            ({
                let segs = path@.map_values(|s: String| s@).skip(idx as int);
                &&& (segs.len() > 0 ==> forall|nm: Seq<char>|
                    nm != segs[0] ==> #[trigger] lookup(final(self).entries@, nm) == lookup(
                        old(self).entries@,
                        nm,
                    ))
                &&& (r is Err ==> forall|q: Seq<Seq<char>>|
                    #[trigger] open_spec(*final(self), q) == open_spec(*old(self), q))
                &&& (r is Ok ==> exists|p: Seq<Seq<char>>|
                    #[trigger] is_prefix_of(p, segs) && p.len() >= 1 && (forall|q: Seq<Seq<char>>|
                        !is_prefix_of(p, q) ==> #[trigger] open_spec(*final(self), q) == open_spec(
                            *old(self),
                            q,
                        )))
                &&& match r {
                    Ok(h) => {
                        &&& create_spec(*old(self), segs) == Ok::<Seq<u8>, FileError>(
                            h.file.contents@,
                        )
                        &&& open_spec(*final(self), segs) == Ok::<Seq<u8>, FileError>(
                            h.file.contents@,
                        )
                        &&& h.file.position == 0
                        &&& h.file.read_only == false
                    },
                    Err(e) => create_spec(*old(self), segs) == Err::<Seq<u8>, FileError>(e),
                }
            }),
        decreases path@.len() - idx,
    {
        let ghost segs = path@.map_values(|s: String| s@).skip(idx as int);
        if idx >= path.len() {
            return Err(FileError::IsDirectory);
        }
        proof {
            assert(segs[0] == path@[idx as int]@);
            assert(segs.skip(1) =~= path@.map_values(|s: String| s@).skip(idx + 1));
            lemma_key_index_bounds(self.entries@, segs[0]);
        }
        let ghost entries0 = self.entries@;
        match self.find_entry(&path[idx]) {
            Some(j) => {
                match &mut self.entries[j].1 {
                    RamFsNode::Directory(sub) => {
                        let ghost sub0 = *sub;
                        let r = sub.create_at(path, idx + 1);
                        let ghost sub1 = *sub;
                        proof {
                            lemma_key_index_update(entries0, segs[0], j as int, self.entries@[
                                j as int
                            ]);
                            assert(self.entries@ =~= entries0.update(j as int, self.entries@[
                                j as int
                            ]));
                            assert forall|nm: Seq<char>| true implies key_index(self.entries@, nm)
                                == key_index(entries0, nm) by {
                                lemma_key_index_update(entries0, nm, j as int, self.entries@[
                                    j as int
                                ]);
                            }
                            lemma_lookup_after_update(
                                entries0,
                                j as int,
                                self.entries@[j as int],
                                segs[0],
                            );
                            assert(lookup(entries0, segs[0]) == Some(
                                RamFsNode::Directory(sub0),
                            ));
                            assert(lookup(self.entries@, segs[0]) == Some(
                                RamFsNode::Directory(sub1),
                            ));
                            let segs1 = segs.skip(1);
                            if r is Err {
                                lemma_open_spec_lift(
                                    *old(self),
                                    *self,
                                    segs[0],
                                    sub0,
                                    sub1,
                                    |q2: Seq<Seq<char>>| true,
                                );
                            } else {
                                let pp = choose|pp: Seq<Seq<char>>|
                                    #[trigger] is_prefix_of(pp, segs1) && pp.len() >= 1 && (
                                    forall|q2: Seq<Seq<char>>|
                                        !is_prefix_of(pp, q2) ==> #[trigger] open_spec(sub1, q2)
                                            == open_spec(sub0, q2));
                                lemma_open_spec_lift(
                                    *old(self),
                                    *self,
                                    segs[0],
                                    sub0,
                                    sub1,
                                    |q2: Seq<Seq<char>>| !is_prefix_of(pp, q2),
                                );
                                let w = seq![segs[0]] + pp;
                                assert(is_prefix_of(w, segs)) by {
                                    assert(w.len() <= segs.len());
                                    assert forall|i: int| 0 <= i < w.len() implies w[i]
                                        == segs[i] by {
                                        if i > 0 {
                                            assert(w[i] == pp[i - 1]);
                                            assert(pp[i - 1] == segs1[i - 1]);
                                        }
                                    }
                                }
                                assert forall|q: Seq<Seq<char>>| !is_prefix_of(w, q) implies
                                    #[trigger] open_spec(*self, q) == open_spec(*old(self), q) by {
                                    if q.len() > 0 && q[0] == segs[0] {
                                        assert(!is_prefix_of(pp, q.skip(1))) by {
                                            if is_prefix_of(pp, q.skip(1)) {
                                                assert forall|i: int|
                                                    0 <= i < w.len() implies w[i] == q[i] by {
                                                    if i > 0 {
                                                        assert(w[i] == pp[i - 1]);
                                                        assert(pp[i - 1] == q.skip(1)[i - 1]);
                                                    }
                                                }
                                                assert(is_prefix_of(w, q));
                                            }
                                        }
                                    }
                                }
                                assert(is_prefix_of(w, segs) && w.len() >= 1 && (forall|
                                    q: Seq<Seq<char>>,
                                |
                                    !is_prefix_of(w, q) ==> #[trigger] open_spec(*self, q)
                                        == open_spec(*old(self), q)));
                            }
                        }
                        r
                    },
                    RamFsNode::Regular(f) => {
                        let handle = f.open(false);
                        proof {
                            assert(self.entries@ =~= entries0);
                            lemma_open_spec_entries(*old(self), *self);
                            let w = seq![segs[0]];
                            assert(is_prefix_of(w, segs) && w.len() >= 1 && (forall|
                                q: Seq<Seq<char>>,
                            |
                                !is_prefix_of(w, q) ==> #[trigger] open_spec(*self, q)
                                    == open_spec(*old(self), q)));
                        }
                        Ok(handle)
                    },
                }
            },
            None => {
                if path.len() - idx != 1 {
                    Err(FileError::InvalidPath)
                } else {
                    let file = RegularFile::create();
                    let handle = file.open(false);
                    let name = clone_string(&path[idx]);
                    self.entries.push((name, RamFsNode::Regular(file)));
                    proof {
                        lemma_key_index_push(
                            entries0,
                            segs[0],
                            self.entries@[entries0.len() as int],
                        );
                        lemma_lookup_after_push(entries0, self.entries@[entries0.len() as int]);
                        assert(segs.len() == 1);
                        lemma_open_spec_other_names(*old(self), *self, segs[0]);
                        assert forall|q: Seq<Seq<char>>| !is_prefix_of(segs, q) implies
                            #[trigger] open_spec(*self, q) == open_spec(*old(self), q) by {
                            assert(q.len() == 0 || q[0] != segs[0]);
                        }
                        assert(is_prefix_of(segs, segs) && segs.len() >= 1 && (forall|
                            q: Seq<Seq<char>>,
                        |
                            !is_prefix_of(segs, q) ==> #[trigger] open_spec(*self, q) == open_spec(
                                *old(self),
                                q,
                            )));
                    }
                    Ok(handle)
                }
            },
        }
    }

    /// The walk behind `write_file`, from segment `idx` on.
    fn write_file_at(&mut self, path: &Vec<String>, idx: usize, data: &Vec<u8>) -> (r: Result<
        (),
        FileError,
    >)
        requires
            idx <= path@.len(),
        ensures
            ({
                let segs = path@.map_values(|s: String| s@).skip(idx as int);
                &&& (segs.len() > 0 ==> forall|nm: Seq<char>|
                    nm != segs[0] ==> #[trigger] lookup(final(self).entries@, nm) == lookup(
                        old(self).entries@,
                        nm,
                    ))
                &&& (r is Err ==> forall|q: Seq<Seq<char>>|
                    #[trigger] open_spec(*final(self), q) == open_spec(*old(self), q))
                &&& (r is Ok ==> exists|p: Seq<Seq<char>>|
                    #[trigger] is_prefix_of(p, segs) && p.len() >= 1 && (forall|q: Seq<Seq<char>>|
                        !is_prefix_of(p, q) ==> #[trigger] open_spec(*final(self), q) == open_spec(
                            *old(self),
                            q,
                        )))
                &&& match r {
                    Ok(()) => create_spec(*old(self), segs) is Ok && open_spec(*final(self), segs)
                        == Ok::<Seq<u8>, FileError>(data@),
                    Err(e) => create_spec(*old(self), segs) == Err::<Seq<u8>, FileError>(e),
                }
            }),
        decreases path@.len() - idx,
    {
        let ghost segs = path@.map_values(|s: String| s@).skip(idx as int);
        if idx >= path.len() {
            return Err(FileError::IsDirectory);
        }
        proof {
            assert(segs[0] == path@[idx as int]@);
            assert(segs.skip(1) =~= path@.map_values(|s: String| s@).skip(idx + 1));
            lemma_key_index_bounds(self.entries@, segs[0]);
        }
        let ghost entries0 = self.entries@;
        match self.find_entry(&path[idx]) {
            Some(j) => {
                match &mut self.entries[j].1 {
                    RamFsNode::Directory(sub) => {
                        let ghost sub0 = *sub;
                        let r = sub.write_file_at(path, idx + 1, data);
                        let ghost sub1 = *sub;
                        proof {
                            assert(self.entries@ =~= entries0.update(j as int, self.entries@[
                                j as int
                            ]));
                            assert forall|nm: Seq<char>| true implies key_index(self.entries@, nm)
                                == key_index(entries0, nm) by {
                                lemma_key_index_update(entries0, nm, j as int, self.entries@[
                                    j as int
                                ]);
                            }
                            lemma_lookup_after_update(
                                entries0,
                                j as int,
                                self.entries@[j as int],
                                segs[0],
                            );
                            assert(lookup(entries0, segs[0]) == Some(
                                RamFsNode::Directory(sub0),
                            ));
                            assert(lookup(self.entries@, segs[0]) == Some(
                                RamFsNode::Directory(sub1),
                            ));
                            let segs1 = segs.skip(1);
                            if r is Err {
                                lemma_open_spec_lift(
                                    *old(self),
                                    *self,
                                    segs[0],
                                    sub0,
                                    sub1,
                                    |q2: Seq<Seq<char>>| true,
                                );
                            } else {
                                let pp = choose|pp: Seq<Seq<char>>|
                                    #[trigger] is_prefix_of(pp, segs1) && pp.len() >= 1 && (
                                    forall|q2: Seq<Seq<char>>|
                                        !is_prefix_of(pp, q2) ==> #[trigger] open_spec(sub1, q2)
                                            == open_spec(sub0, q2));
                                lemma_open_spec_lift(
                                    *old(self),
                                    *self,
                                    segs[0],
                                    sub0,
                                    sub1,
                                    |q2: Seq<Seq<char>>| !is_prefix_of(pp, q2),
                                );
                                let w = seq![segs[0]] + pp;
                                assert(is_prefix_of(w, segs)) by {
                                    assert(w.len() <= segs.len());
                                    assert forall|i: int| 0 <= i < w.len() implies w[i]
                                        == segs[i] by {
                                        if i > 0 {
                                            assert(w[i] == pp[i - 1]);
                                            assert(pp[i - 1] == segs1[i - 1]);
                                        }
                                    }
                                }
                                assert forall|q: Seq<Seq<char>>| !is_prefix_of(w, q) implies
                                    #[trigger] open_spec(*self, q) == open_spec(*old(self), q) by {
                                    if q.len() > 0 && q[0] == segs[0] {
                                        assert(!is_prefix_of(pp, q.skip(1))) by {
                                            if is_prefix_of(pp, q.skip(1)) {
                                                assert forall|i: int|
                                                    0 <= i < w.len() implies w[i] == q[i] by {
                                                    if i > 0 {
                                                        assert(w[i] == pp[i - 1]);
                                                        assert(pp[i - 1] == q.skip(1)[i - 1]);
                                                    }
                                                }
                                                assert(is_prefix_of(w, q));
                                            }
                                        }
                                    }
                                }
                                assert(is_prefix_of(w, segs) && w.len() >= 1 && (forall|
                                    q: Seq<Seq<char>>,
                                |
                                    !is_prefix_of(w, q) ==> #[trigger] open_spec(*self, q)
                                        == open_spec(*old(self), q)));
                            }
                        }
                        r
                    },
                    RamFsNode::Regular(f) => {
                        f.contents = clone_bytes(data);
                        proof {
                            assert(self.entries@ =~= entries0.update(j as int, self.entries@[
                                j as int
                            ]));
                            assert forall|nm: Seq<char>| true implies key_index(self.entries@, nm)
                                == key_index(entries0, nm) by {
                                lemma_key_index_update(entries0, nm, j as int, self.entries@[
                                    j as int
                                ]);
                            }
                            lemma_lookup_after_update(
                                entries0,
                                j as int,
                                self.entries@[j as int],
                                segs[0],
                            );
                            lemma_open_spec_other_names(*old(self), *self, segs[0]);
                            let w = seq![segs[0]];
                            assert forall|q: Seq<Seq<char>>| !is_prefix_of(w, q) implies
                                #[trigger] open_spec(*self, q) == open_spec(*old(self), q) by {
                                assert(q.len() == 0 || q[0] != segs[0]);
                            }
                            assert(is_prefix_of(w, segs) && w.len() >= 1 && (forall|
                                q: Seq<Seq<char>>,
                            |
                                !is_prefix_of(w, q) ==> #[trigger] open_spec(*self, q)
                                    == open_spec(*old(self), q)));
                        }
                        Ok(())
                    },
                }
            },
            None => {
                if path.len() - idx != 1 {
                    Err(FileError::InvalidPath)
                } else {
                    let name = clone_string(&path[idx]);
                    self.entries.push(
                        (name, RamFsNode::Regular(RegularFile { contents: clone_bytes(data) })),
                    );
                    proof {
                        lemma_key_index_push(
                            entries0,
                            segs[0],
                            self.entries@[entries0.len() as int],
                        );
                        lemma_lookup_after_push(entries0, self.entries@[entries0.len() as int]);
                        assert(segs.len() == 1);
                        lemma_open_spec_other_names(*old(self), *self, segs[0]);
                        assert forall|q: Seq<Seq<char>>| !is_prefix_of(segs, q) implies
                            #[trigger] open_spec(*self, q) == open_spec(*old(self), q) by {
                            assert(q.len() == 0 || q[0] != segs[0]);
                        }
                        assert(is_prefix_of(segs, segs) && segs.len() >= 1 && (forall|
                            q: Seq<Seq<char>>,
                        |
                            !is_prefix_of(segs, q) ==> #[trigger] open_spec(*self, q) == open_spec(
                                *old(self),
                                q,
                            )));
                    }
                    Ok(())
                }
            },
        }
    }

    /// Stores `data` as the file `path` names, creating the file when its
    /// parent exists and the final name is free, overwriting its bytes when
    /// it already exists.  Handles only see snapshots, so a caller that
    /// edited a handle persists it through this explicit write-back:
    /// afterwards, opening the path yields exactly `data`.  Every path not
    /// extending the touched path (some prefix of `path`, where the walk
    /// stopped) resolves as before; on an error every path does.
    pub fn write_file(&mut self, path: &Path, data: &Vec<u8>) -> (r: Result<(), FileError>)
        ensures
            path@.len() > 0 ==> forall|nm: Seq<char>|
                nm != path@[0] ==> #[trigger] lookup(final(self).entries@, nm) == lookup(
                    old(self).entries@,
                    nm,
                ),
            r is Err ==> (forall|q: Seq<Seq<char>>|
                #[trigger] open_spec(*final(self), q) == open_spec(*old(self), q)),
            r is Ok ==> exists|p: Seq<Seq<char>>|
                #[trigger] is_prefix_of(p, path@) && p.len() >= 1 && (forall|q: Seq<Seq<char>>|
                    !is_prefix_of(p, q) ==> #[trigger] open_spec(*final(self), q) == open_spec(
                        *old(self),
                        q,
                    )),
            match r {
                Ok(()) => create_spec(*old(self), path@) is Ok && open_spec(*final(self), path@)
                    == Ok::<Seq<u8>, FileError>(data@),
                Err(e) => create_spec(*old(self), path@) == Err::<Seq<u8>, FileError>(e),
            },
    {
        proof {
            assert(path@ =~= path.segments@.map_values(|s: String| s@).skip(0));
        }
        self.write_file_at(&path.segments, 0, data)
    }

    /// The walk behind `mkdir`, from segment `idx` on.
    fn mkdir_at(&mut self, path: &Vec<String>, idx: usize) -> (r: Result<(), FileError>)
        requires
            idx <= path@.len(),
        ensures
            ({
                let segs = path@.map_values(|s: String| s@).skip(idx as int);
                &&& (segs.len() > 0 ==> forall|nm: Seq<char>|
                    nm != segs[0] ==> #[trigger] lookup(final(self).entries@, nm) == lookup(
                        old(self).entries@,
                        nm,
                    ))
                &&& r == mkdir_spec(*old(self), segs)
                &&& r is Ok ==> dir_exists(*final(self), segs)
                &&& dir_exists(*old(self), segs) ==> (forall|q: Seq<Seq<char>>|
                    #[trigger] open_spec(*final(self), q) == open_spec(*old(self), q))
                &&& r is Err ==> (forall|q: Seq<Seq<char>>|
                    #[trigger] open_spec(*final(self), q) == open_spec(*old(self), q))
            }),
        decreases path@.len() - idx,
    {
        let ghost segs = path@.map_values(|s: String| s@).skip(idx as int);
        if idx >= path.len() {
            return Ok(());
        }
        proof {
            assert(segs[0] == path@[idx as int]@);
            assert(segs.skip(1) =~= path@.map_values(|s: String| s@).skip(idx + 1));
            lemma_key_index_bounds(self.entries@, segs[0]);
        }
        let ghost entries0 = self.entries@;
        match self.find_entry(&path[idx]) {
            Some(j) => {
                match &mut self.entries[j].1 {
                    RamFsNode::Directory(sub) => {
                        let ghost sub0 = *sub;
                        let r = sub.mkdir_at(path, idx + 1);
                        let ghost sub1 = *sub;
                        proof {
                            assert(self.entries@ =~= entries0.update(j as int, self.entries@[
                                j as int
                            ]));
                            assert forall|nm: Seq<char>| true implies key_index(self.entries@, nm)
                                == key_index(entries0, nm) by {
                                lemma_key_index_update(entries0, nm, j as int, self.entries@[
                                    j as int
                                ]);
                            }
                            lemma_lookup_after_update(
                                entries0,
                                j as int,
                                self.entries@[j as int],
                                segs[0],
                            );
                            assert(entries0[j as int].1 == RamFsNode::Directory(sub0));
                            assert(self.entries@[j as int].1 == RamFsNode::Directory(sub1));
                            assert(lookup(entries0, segs[0]) == Some(
                                RamFsNode::Directory(sub0),
                            ));
                            assert(lookup(self.entries@, segs[0]) == Some(
                                RamFsNode::Directory(sub1),
                            ));
                            if dir_exists(*old(self), segs) || r is Err {
                                lemma_open_spec_lift(
                                    *old(self),
                                    *self,
                                    segs[0],
                                    sub0,
                                    sub1,
                                    |q2: Seq<Seq<char>>| true,
                                );
                            }
                        }
                        r
                    },
                    RamFsNode::Regular(_) => {
                        proof {
                            assert(self.entries@ =~= entries0.update(j as int, self.entries@[
                                j as int
                            ]));
                            lemma_lookup_after_update(
                                entries0,
                                j as int,
                                self.entries@[j as int],
                                segs[0],
                            );
                            assert(self.entries@ =~= entries0);
                            lemma_open_spec_entries(*old(self), *self);
                        }
                        Err(FileError::InvalidPath)
                    },
                }
            },
            None => {
                let name = clone_string(&path[idx]);
                self.entries.push((name, RamFsNode::Directory(RamFsDirectory::new())));
                let j = self.entries.len() - 1;
                proof {
                    lemma_key_index_push(entries0, segs[0], self.entries@[entries0.len() as int]);
                    lemma_lookup_after_push(entries0, self.entries@[entries0.len() as int]);
                }
                let ghost entries1 = self.entries@;
                proof {
                    let segs1 = path@.map_values(|s: String| s@).skip(idx + 1);
                    if segs1.len() > 0 {
                        assert(key_index(Seq::<(String, RamFsNode)>::empty(), segs1[0]) == -1);
                    }
                }
                let r = match &mut self.entries[j].1 {
                    RamFsNode::Directory(sub) => sub.mkdir_at(path, idx + 1),
                    RamFsNode::Regular(_) => Err(FileError::InvalidPath),
                };
                proof {
                    assert(self.entries@ =~= entries1.update(j as int, self.entries@[j as int]));
                    assert forall|nm: Seq<char>| true implies key_index(self.entries@, nm)
                        == key_index(entries1, nm) by {
                        lemma_key_index_update(entries1, nm, j as int, self.entries@[j as int]);
                    }
                    lemma_lookup_after_update(
                        entries1,
                        j as int,
                        self.entries@[j as int],
                        segs[0],
                    );
                }
                r
            },
        }
    }
}

/// A fresh owned copy of a name.
fn clone_string(s: &String) -> (r: String)
    ensures
        r@ == s@,
{
    s.clone()
}

/// A fresh owned copy of a byte buffer.
fn clone_bytes(data: &Vec<u8>) -> (r: Vec<u8>)
    ensures
        r@ == data@,
{
    let mut out: Vec<u8> = Vec::new();
    let n = data.len();
    let mut i: usize = 0;
    while i < n
        invariant
            n == data@.len(),
            0 <= i <= n,
            out@ == data@.take(i as int),
        decreases n - i,
    {
        out.push(data[i]);
        proof {
            assert(data@.take(i + 1) =~= data@.take(i as int).push(data@[i as int]));
        }
        i = i + 1;
    }
    proof {
        assert(data@.take(n as int) =~= data@);
    }
    out
}

impl Directory for RamFsDirectory {
    type Handle = RamFsFile;

    /// Creates the directory chain `path` names; only a regular file in the
    /// way refuses.  On success the chain exists; a chain that already
    /// exists (the empty path included) leaves every path resolving as
    /// before, and so does an error.  Creating missing directories changes
    /// what paths through them resolve to (a missing intermediate turns
    /// from an invalid path into a plain not-found), so no blanket frame
    /// holds on a creating call beyond the sibling-name clause.
    fn mkdir(&mut self, path: &Path) -> (r: Result<(), FileError>)
        ensures
            path@.len() > 0 ==> forall|nm: Seq<char>|
                nm != path@[0] ==> #[trigger] lookup(final(self).entries@, nm) == lookup(
                    old(self).entries@,
                    nm,
                ),
            r == mkdir_spec(*old(self), path@),
            r is Ok ==> dir_exists(*final(self), path@),
            dir_exists(*old(self), path@) ==> (forall|q: Seq<Seq<char>>|
                #[trigger] open_spec(*final(self), q) == open_spec(*old(self), q)),
            r is Err ==> (forall|q: Seq<Seq<char>>|
                #[trigger] open_spec(*final(self), q) == open_spec(*old(self), q)),
    {
        proof {
            assert(path@ =~= path.segments@.map_values(|s: String| s@).skip(0));
        }
        self.mkdir_at(&path.segments, 0)
    }

    /// Opens the file `path` names read-only or read-write; the handle sees
    /// a snapshot of the stored bytes.
    fn open(&self, path: &Path, read_only: bool) -> (r: Result<RamFsFile, FileError>)
        ensures
            match r {
                Ok(h) => open_spec(*self, path@) == Ok::<Seq<u8>, FileError>(h.file.contents@)
                    && h.file.position == 0 && h.file.read_only == read_only,
                Err(e) => open_spec(*self, path@) == Err::<Seq<u8>, FileError>(e),
            },
    {
        proof {
            assert(path@ =~= path.segments@.map_values(|s: String| s@).skip(0));
        }
        self.open_at(&path.segments, 0, read_only)
    }

    /// Opens the file `path` names, creating it empty when its parent
    /// exists and the final name is free.  Every path that does not extend
    /// the touched path (some prefix of `path`, where the walk stopped)
    /// resolves as before; on an error every path does.
    fn create(&mut self, path: &Path) -> (r: Result<RamFsFile, FileError>)
        ensures
            path@.len() > 0 ==> forall|nm: Seq<char>|
                nm != path@[0] ==> #[trigger] lookup(final(self).entries@, nm) == lookup(
                    old(self).entries@,
                    nm,
                ),
            r is Err ==> (forall|q: Seq<Seq<char>>|
                #[trigger] open_spec(*final(self), q) == open_spec(*old(self), q)),
            r is Ok ==> exists|p: Seq<Seq<char>>|
                #[trigger] is_prefix_of(p, path@) && p.len() >= 1 && (forall|q: Seq<Seq<char>>|
                    !is_prefix_of(p, q) ==> #[trigger] open_spec(*final(self), q) == open_spec(
                        *old(self),
                        q,
                    )),
            match r {
                Ok(h) => create_spec(*old(self), path@) == Ok::<Seq<u8>, FileError>(
                    h.file.contents@,
                ) && open_spec(*final(self), path@) == Ok::<Seq<u8>, FileError>(h.file.contents@)
                    && h.file.position == 0 && h.file.read_only == false,
                Err(e) => create_spec(*old(self), path@) == Err::<Seq<u8>, FileError>(e),
            },
    {
        proof {
            assert(path@ =~= path.segments@.map_values(|s: String| s@).skip(0));
        }
        self.create_at(&path.segments, 0)
    }
}

impl Read for RamFsFile {
    /// Reads as the underlying handle does.
    fn read(&mut self, buf: &mut Vec<u8>) -> (r: Result<usize, FileError>)
        ensures
            *final(self) == *old(self),
            ({
                let pos = old(self).file.position as int;
                let len = old(self).file.contents@.len() as int;
                let end = if pos + old(buf)@.len() <= len {
                    pos + old(buf)@.len()
                } else {
                    len
                };
                let n: int = if end >= pos {
                    end - pos
                } else {
                    0
                };
                &&& r == Ok::<usize, FileError>(n as usize)
                &&& forall|i: int|
                    0 <= i < n ==> final(buf)@[i] == old(self).file.contents@[pos + i]
                &&& (n < old(buf)@.len() ==> final(buf)@[n] == 0)
                &&& forall|i: int| n < i < old(buf)@.len() ==> final(buf)@[i] == old(buf)@[i]
            }),
    {
        self.file.read(buf)
    }
}

impl Write for RamFsFile {
    /// A filesystem handle cannot reach the stored file, so it never
    /// accepts bytes it would have to drop: every write is refused and the
    /// handle is untouched — [`FileError::PermissionsError`] on a read-only
    /// handle, [`FileError::WriteError`] otherwise.  Writes persist through
    /// [`RamFsDirectory::write_file`].
    fn write(&mut self, buf: &Vec<u8>) -> (r: Result<usize, FileError>)
        ensures
            *final(self) == *old(self),
            r == Err::<usize, FileError>(
                if old(self).file.read_only {
                    FileError::PermissionsError
                } else {
                    FileError::WriteError
                },
            ),
    {
        if self.file.read_only {
            Err(FileError::PermissionsError)
        } else {
            Err(FileError::WriteError)
        }
    }

    fn flush(&mut self) -> (r: Result<(), FileError>)
        ensures
            *final(self) == *old(self),
            r is Ok,
    {
        self.file.flush()
    }
}

impl Seek for RamFsFile {
    /// Seeks as the underlying handle does.
    fn seek(&mut self, seek_from: SeekFrom) -> (r: Result<u64, FileError>)
        ensures
            final(self).file.contents@ == old(self).file.contents@,
            final(self).file.read_only == old(self).file.read_only,
            ({
                let len = old(self).file.contents@.len() as int;
                let target: int = match seek_from {
                    SeekFrom::Start(n) => n as int,
                    SeekFrom::End(m) => len + m,
                    SeekFrom::Current(m) => old(self).file.position as int + m,
                };
                if target < 0 || target > u64::MAX {
                    &&& r == Err::<u64, FileError>(FileError::NegativeSeekError)
                    &&& final(self).file.position == old(self).file.position
                } else {
                    let wrapped: int = if target > len {
                        target - len
                    } else {
                        target
                    };
                    &&& r == Ok::<u64, FileError>(wrapped as u64)
                    &&& final(self).file.position == wrapped
                }
            }),
    {
        self.file.seek(seek_from)
    }
}

impl crate::io::File for RamFsFile {

}

} // verus!
