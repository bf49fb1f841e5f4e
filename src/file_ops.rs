//! The handle through which files are deleted, moved and copied.

use vstd::prelude::*;

verus! {

/// Operations on files; the operations themselves need the file system.
pub struct FileOperations;

impl FileOperations {
    pub fn new() -> (r: Self) {
        FileOperations
    }
}

} // verus!
