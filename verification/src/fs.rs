//! The filesystem interface the shell works against.

use vstd::prelude::*;
use crate::io::FileError;
use crate::io::Path;

verus! {

/// A tree of named entries that can hand out file handles.
pub trait Directory {
    /// The handle type `open` and `create` return.
    type Handle;

    /// Creates the directory chain named by `path`.
    fn mkdir(&mut self, path: &Path) -> (r: Result<(), FileError>);

    /// Opens the file named by `path`.
    fn open(&self, path: &Path, read_only: bool) -> (r: Result<Self::Handle, FileError>);

    /// Opens the file named by `path`, creating it first if its parent
    /// exists and the name does not.  What the handle can do with the file
    /// is the implementation's affair; this tree's handles read snapshots,
    /// and writing goes through its own write-back.
    fn create(&mut self, path: &Path) -> (r: Result<Self::Handle, FileError>);
}

} // verus!
