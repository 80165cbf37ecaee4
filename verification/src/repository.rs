//! Where a scanned tag list is cached between runs.

use vstd::prelude::*;
use crate::text::owned;

verus! {

/// A tag cache kept in a pretty-printed JSON file.
///
/// Reading and writing the file happen outside this crate's verified core;
/// this records which file that is.
#[derive(Debug, Clone)]
pub struct JsonFileTagRepository {
    path: String,
}

impl JsonFileTagRepository {
    /// The file path this repository reads and writes.
    pub closed spec fn spec_path(&self) -> Seq<char> {
        self.path@
    }

    /// Creates a repository over the given file path.
    pub fn new(path: &str) -> (r: Self)
        ensures
            r.spec_path() == path@,
    {
        JsonFileTagRepository { path: owned(path) }
    }

    /// Returns the file path this repository reads and writes.
    pub fn path(&self) -> (r: &str)
        ensures
            r@ == self.spec_path(),
    {
        self.path.as_str()
    }
}

} // verus!
