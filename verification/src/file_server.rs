//! The file-serving collaborator's data: which files this peer offers.
//!
//! Serving itself — listening, reading a file, writing it back — is I/O
//! and lives outside the library; only the advertised catalogue is held
//! and handed out here.

use vstd::prelude::*;

use crate::duplicate_files;
use crate::File;
use crate::FileV;

verus! {

/// A fixed catalogue of servable files.
#[derive(Debug)]
pub struct SimpleFileSystem {
    pub files: Vec<File>,
}

impl SimpleFileSystem {
    /// The default catalogue: the one sample file `hi.txt`, three bytes
    /// long.
    pub fn new() -> (r: SimpleFileSystem)
        ensures
            r.files.deep_view() == seq![FileV { path: seq![104u8, 105u8, 46u8, 116u8, 120u8, 116u8], size: 3u64 }],
    {
        let path: Vec<u8> = vec![104u8, 105u8, 46u8, 116u8, 120u8, 116u8];
        let files: Vec<File> = vec![File { path, size: 3 }];
        proof {
            assert(files.deep_view() =~= seq![
                FileV { path: seq![104u8, 105u8, 46u8, 116u8, 120u8, 116u8], size: 3u64 },
            ]);
        }
        SimpleFileSystem { files }
    }

    /// The catalogue, as advertised to the tracker.
    pub fn list_files(&self) -> (r: Vec<File>)
        ensures
            r.deep_view() == self.files.deep_view(),
    {
        duplicate_files(&self.files)
    }
}

} // verus!
