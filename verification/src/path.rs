//! The two names by which the filter looks a test file up.

use vstd::prelude::*;

verus! {

/// The place of a test file, as far as the filter reads it: the stem of the
/// folder that holds the file, and the stem of the file itself. Either name
/// is empty where the path has no such part.
#[derive(Debug)]
pub struct PathWrapper {
    pub dir_name: String,
    pub file_name: String,
}

impl PathWrapper {
    /// The file `file_name` in the folder `dir_name`.
    pub fn new(dir_name: String, file_name: String) -> (path: Self)
        ensures
            path.dir_name == dir_name,
            path.file_name == file_name,
    {
        PathWrapper { dir_name, file_name }
    }
}

} // verus!
