//! A file read into memory, with the digest of its contents.
use vstd::prelude::*;

use crate::digest::{blake2b_512, calculate_hash, lower_hex};

verus! {

/// A file to index: its path, the digest of its contents, and the contents.
pub struct FileToProcess {
    pub path: String,
    pub hash: String,
    pub contents: Vec<u8>,
}

impl FileToProcess {
    /// The record's path.
    pub fn path(&self) -> (r: String)
        ensures
            r@ == self.path@,
    {
        self.path.clone()
    }
}

/// The record of a file at `path` whose contents were read as `contents`.
pub fn new_file_to_process(path: String, contents: Vec<u8>) -> (r: FileToProcess)
    ensures
        r.path == path,
        r.contents@ == contents@,
        r.hash@ == lower_hex(blake2b_512(contents@)),
{
    let hash = calculate_hash(contents.as_slice());
    FileToProcess { path, hash, contents }
}

} // verus!
