//! Installing a toolchain, by linking a local directory or from the
//! distribution server: the decisions around the work, which the caller
//! does. Before: whether an existing toolchain directory is removed first.
//! After: the outcome to report and the update hash to record. Last: the
//! check that the toolchain is there.

use vstd::prelude::*;

verus! {

/// The outcome of installing a toolchain.
#[derive(Debug, Clone, PartialEq, Eq)]
pub enum UpdateStatus {
    /// Newly installed.
    Installed,
    /// Updated from the version named (the version of `rustc` before).
    Updated(String),
    /// Already up to date.
    Unchanged,
}

/// How a toolchain is installed.
#[derive(Debug)]
pub enum InstallMethod {
    /// Link the local toolchain directory `src`.
    Link { src: String },
    /// Install from the distribution server; `old_version` is the version
    /// of an installation being updated, and `update_hash` the file that
    /// records the hash of the installed release.
    Dist { old_version: Option<String>, update_hash: String },
}

/// A file system step of installing.
#[derive(Debug)]
pub enum InstallAction {
    /// Remove this directory with its contents.
    RemoveDir(String),
    /// Make the second path a symbolic link to the first directory.
    SymlinkDir(String, String),
    /// Install from the distribution server into this directory; the
    /// caller hands back the hash of what it installed, if anything.
    InstallDist(String),
}

/// The abstract value of an [`InstallAction`]: its kind (0 remove, 1 link,
/// 2 install) and its paths.
pub open spec fn action_view(a: InstallAction) -> (int, Seq<char>, Seq<char>) {
    match a {
        InstallAction::RemoveDir(d) => (0, d@, Seq::empty()),
        InstallAction::SymlinkDir(s, d) => (1, s@, d@),
        InstallAction::InstallDist(d) => (2, d@, Seq::empty()),
    }
}

/// A toolchain that is not there after installing it.
#[derive(Debug)]
pub struct ToolchainNotInstallable {
    pub name: String,
}

impl InstallMethod {
    /// The steps before the outcome is known, for the toolchain directory
    /// `dest`: a linked toolchain replaces what is there (`dest_exists`),
    /// so that is removed first, then the link is made; an installation
    /// from the server works into the directory as it is.
    pub fn steps(&self, dest: &str, dest_exists: bool) -> (r: Vec<InstallAction>)
        ensures
            match self {
                InstallMethod::Link { src } => if dest_exists {
                    r@.len() == 2 && action_view(r@[0]) == (0int, dest@, Seq::<char>::empty())
                        && action_view(r@[1]) == (1int, src@, dest@)
                } else {
                    r@.len() == 1 && action_view(r@[0]) == (1int, src@, dest@)
                },
                InstallMethod::Dist { .. } => r@.len() == 1 && action_view(r@[0]) == (2int, dest@, Seq::<char>::empty()),
            },
    {
        let mut r: Vec<InstallAction> = Vec::new();
        match self {
            InstallMethod::Link { src } => {
                if dest_exists {
                    r.push(InstallAction::RemoveDir(dest.to_owned()));
                }
                r.push(InstallAction::SymlinkDir(src.clone(), dest.to_owned()));
            },
            InstallMethod::Dist { .. } => {
                r.push(InstallAction::InstallDist(dest.to_owned()));
            },
        }
        r
    }

    /// The outcome, given what installing from the server handed back
    /// (`installed_hash`, the hash of what it installed; ignored for a
    /// link), and the hash to record in the update hash file: a link is
    /// installed; from the server, nothing installed means unchanged, and
    /// otherwise the hash is recorded and the toolchain is updated from its
    /// old version, or installed when there was none.
    pub fn outcome(&self, installed_hash: Option<String>) -> (r: (UpdateStatus, Option<(String, String)>))
        ensures
            match self {
                InstallMethod::Link { .. } => r.0 == UpdateStatus::Installed && r.1 is None,
                InstallMethod::Dist { old_version, update_hash } => match installed_hash {
                    None => r.0 == UpdateStatus::Unchanged && r.1 is None,
                    Some(h) => (r.1 matches Some((f, x)) && f@ == update_hash@ && x@ == h@)
                        && match old_version {
                            Some(v) => r.0 matches UpdateStatus::Updated(w) && w@ == v@,
                            None => r.0 == UpdateStatus::Installed,
                        },
                },
            },
    {
        match self {
            InstallMethod::Link { .. } => (UpdateStatus::Installed, None),
            InstallMethod::Dist { old_version, update_hash } => match installed_hash {
                None => (UpdateStatus::Unchanged, None),
                Some(h) => {
                    let status = match old_version {
                        Some(v) => UpdateStatus::Updated(v.clone()),
                        None => UpdateStatus::Installed,
                    };
                    (status, Some((update_hash.clone(), h)))
                },
            },
        }
    }
}

/// The final check: the toolchain `name` must exist (`exists`) once
/// installed.
pub fn check_installed(name: &str, exists: bool) -> (r: Result<(), ToolchainNotInstallable>)
    ensures
        r is Ok <==> exists,
        r matches Err(e) ==> e.name@ == name@,
{
    if exists {
        Ok(())
    } else {
        Err(ToolchainNotInstallable { name: name.to_owned() })
    }
}

} // verus!
