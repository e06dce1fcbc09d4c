//! Temporary files and directories of the installer: where they go and how
//! they are named. Creating them (and retrying with another random name
//! when one is taken) is the caller's part.

use vstd::prelude::*;
use crate::prefix::{join_path, path_join};
use crate::text::{concat2, concat3};

verus! {

/// How many characters the random part of a temporary item's name has.
pub const RANDOM_NAME_LEN: usize = 16;

/// Where temporary files and directories go, and the distribution server
/// in use.
#[derive(Debug)]
pub struct Context {
    pub root_directory: String,
    pub dist_server: String,
}

/// A temporary file, by its path.
#[derive(Debug)]
pub struct File {
    pub path: String,
}

/// A temporary directory, by its path.
#[derive(Debug)]
pub struct Dir {
    pub path: String,
}

impl Context {
    /// A context for temporary items under `root_directory`.
    pub fn new(root_directory: String, dist_server: &str) -> (r: Self)
        ensures
            r.root_directory@ == root_directory@,
            r.dist_server@ == dist_server@,
    {
        Context { root_directory, dist_server: dist_server.to_owned() }
    }

    /// The temporary file named from a random text: `PREFIX` `RANDOM`
    /// `_file` `EXT`, in the root directory. The caller draws `RANDOM`,
    /// [`RANDOM_NAME_LEN`] characters long, and draws again while the path
    /// is taken.
    pub fn new_file_with_ext(&self, prefix: &str, random: &str, ext: &str) -> (r: File)
        requires
            random@.len() == RANDOM_NAME_LEN,
        ensures
            r.path@ == path_join(self.root_directory@, prefix@ + random@ + "_file"@ + ext@),
    {
        let mut name = concat3(prefix, random, "_file");
        name.append(ext);
        File { path: join_path(self.root_directory.as_str(), name.as_str()) }
    }

    /// The temporary file named from a random text of
    /// [`RANDOM_NAME_LEN`] characters, without prefix or extension.
    pub fn new_file(&self, random: &str) -> (r: File)
        requires
            random@.len() == RANDOM_NAME_LEN,
        ensures
            r.path@ == path_join(self.root_directory@, random@ + "_file"@),
    {
        let f = self.new_file_with_ext("", random, "");
        proof {
            reveal_strlit("");
            assert(""@ + random@ + "_file"@ + ""@ =~= random@ + "_file"@);
        }
        f
    }

    /// The temporary directory named from a random text of
    /// [`RANDOM_NAME_LEN`] characters: `RANDOM` `_dir`, in the root
    /// directory.
    pub fn new_directory(&self, random: &str) -> (r: Dir)
        requires
            random@.len() == RANDOM_NAME_LEN,
        ensures
            r.path@ == path_join(self.root_directory@, random@ + "_dir"@),
    {
        let name = concat2(random, "_dir");
        Dir { path: join_path(self.root_directory.as_str(), name.as_str()) }
    }
}

} // verus!
