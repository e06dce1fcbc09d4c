//! Where the installer keeps its own files and Cargo's: from the
//! environment when set, else under the user's home directory.

use vstd::prelude::*;
use crate::package::{trim, trim_spec};
use crate::prefix::{join_path, path_join};
use crate::text::{char_len, contains_seq, contains_str};

verus! {

/// The home directory could not be found.
#[derive(Debug, Clone, Copy, PartialEq, Eq, Structural)]
pub struct NoHomeDir;

/// Whether a `CARGO_HOME` value is ignored: one left over from an old
/// installation (inside `.multirust/cargo`) or one that is blank.
pub open spec fn cargo_home_ignored(v: Seq<char>) -> bool {
    contains_seq(v, ".multirust/cargo"@) || contains_seq(v, ".multirust\\cargo"@) || trim_spec(v).len() == 0
}

/// Cargo's directory: the `CARGO_HOME` value (relative to the current
/// directory) unless it is ignored, else `.cargo` in the home directory.
pub open spec fn cargo_home_spec(env: Option<Seq<char>>, cwd: Seq<char>, home: Option<Seq<char>>) -> Result<Seq<char>, NoHomeDir> {
    match env {
        Some(v) if !cargo_home_ignored(v) => Ok(path_join(cwd, v)),
        _ => match home {
            Some(h) => Ok(path_join(h, ".cargo"@)),
            None => Err(NoHomeDir),
        },
    }
}

/// Cargo's directory; see [`cargo_home_spec`]. `env` is the value of
/// `CARGO_HOME`, `cwd` the current directory, `home` the home directory.
pub fn cargo_home(env: Option<&str>, cwd: &str, home: Option<&str>) -> (r: Result<String, NoHomeDir>)
    ensures
        r is Ok <==> cargo_home_spec(env.deep_view(), cwd@, home.deep_view()) is Ok,
        r matches Ok(p) ==> cargo_home_spec(env.deep_view(), cwd@, home.deep_view()) == Ok::<_, NoHomeDir>(p@),
{
    let used = match env {
        Some(v) => {
            let t = trim(v);
            let ignored = contains_str(v, ".multirust/cargo") || contains_str(v, ".multirust\\cargo") || char_len(t.as_str()) == 0;
            if ignored { None } else { Some(v) }
        },
        None => None,
    };
    match used {
        Some(v) => Ok(join_path(cwd, v)),
        None => match home {
            Some(h) => Ok(join_path(h, ".cargo")),
            None => Err(NoHomeDir),
        },
    }
}

/// Whether the installer uses `.rustup` rather than the older `.multirust`
/// in the home directory: unless `.rustup` holds the file of a very old
/// version, when `.rustup` exists or `.multirust` does not.
pub fn use_rustup_dir(rustup_dir_exists: bool, multirust_dir_exists: bool, old_version_file_exists: bool) -> (r: bool)
    ensures
        r == (!old_version_file_exists && (rustup_dir_exists || !multirust_dir_exists)),
{
    !old_version_file_exists && (rustup_dir_exists || !multirust_dir_exists)
}

/// The installer's directory: the `RUSTUP_HOME` value (relative to the
/// current directory) when set, else `.rustup` or `.multirust` in the home
/// directory, as [`use_rustup_dir`] decides.
pub open spec fn rustup_home_spec(env: Option<Seq<char>>, cwd: Seq<char>, home: Option<Seq<char>>, use_rustup: bool) -> Result<Seq<char>, NoHomeDir> {
    match env {
        Some(v) => Ok(path_join(cwd, v)),
        None => match home {
            Some(h) => Ok(path_join(h, if use_rustup { ".rustup"@ } else { ".multirust"@ })),
            None => Err(NoHomeDir),
        },
    }
}

/// The installer's directory; see [`rustup_home_spec`].
pub fn rustup_home(env: Option<&str>, cwd: &str, home: Option<&str>, use_rustup: bool) -> (r: Result<String, NoHomeDir>)
    ensures
        r is Ok <==> rustup_home_spec(env.deep_view(), cwd@, home.deep_view(), use_rustup) is Ok,
        r matches Ok(p) ==> rustup_home_spec(env.deep_view(), cwd@, home.deep_view(), use_rustup) == Ok::<_, NoHomeDir>(p@),
{
    match env {
        Some(v) => Ok(join_path(cwd, v)),
        None => match home {
            Some(h) => Ok(join_path(h, if use_rustup { ".rustup" } else { ".multirust" })),
            None => Err(NoHomeDir),
        },
    }
}

} // verus!
