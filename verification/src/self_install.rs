//! Installing the front end for the current user: the file system steps,
//! in order, that put its binary into its `bin` directory, link the tool
//! proxies to it, and put that directory on the search path. The caller
//! performs the steps.

use vstd::prelude::*;
use crate::prefix::{join_path, path_join};
use crate::text::{concat2, concat3};

verus! {

/// One file system step of installing.
#[derive(Debug)]
pub enum InstallStep {
    /// Create this directory if it does not exist.
    EnsureDir(String),
    /// Move the first file to the second path.
    Move(String, String),
    /// Copy the first file to the second path.
    Copy(String, String),
    /// Make the second path a hard link to the first.
    Hardlink(String, String),
    /// Make the second path a symbolic link to the first.
    Symlink(String, String),
    /// Put this directory first on the user's `PATH` in the registry,
    /// separated from the old value by `;`.
    PrependToRegistryPath(String),
    /// Append the text to the file.
    AppendToFile(String, String),
    /// Fail: the home directory, whose start-up file takes the search path,
    /// could not be found.
    HomeNotFound,
}

/// The abstract value of an [`InstallStep`].
pub enum InstallStepV {
    EnsureDir(Seq<char>),
    Move(Seq<char>, Seq<char>),
    Copy(Seq<char>, Seq<char>),
    Hardlink(Seq<char>, Seq<char>),
    Symlink(Seq<char>, Seq<char>),
    PrependToRegistryPath(Seq<char>),
    AppendToFile(Seq<char>, Seq<char>),
    HomeNotFound,
}

impl View for InstallStep {
    type V = InstallStepV;

    open spec fn view(&self) -> InstallStepV {
        match self {
            InstallStep::EnsureDir(d) => InstallStepV::EnsureDir(d@),
            InstallStep::Move(a, b) => InstallStepV::Move(a@, b@),
            InstallStep::Copy(a, b) => InstallStepV::Copy(a@, b@),
            InstallStep::Hardlink(a, b) => InstallStepV::Hardlink(a@, b@),
            InstallStep::Symlink(a, b) => InstallStepV::Symlink(a@, b@),
            InstallStep::PrependToRegistryPath(d) => InstallStepV::PrependToRegistryPath(d@),
            InstallStep::AppendToFile(f, t) => InstallStepV::AppendToFile(f@, t@),
            InstallStep::HomeNotFound => InstallStepV::HomeNotFound,
        }
    }
}

/// The abstract values of a list of steps.
pub open spec fn steps_view(v: Seq<InstallStep>) -> Seq<InstallStepV> {
    v.map_values(|s: InstallStep| s@)
}

/// The tools that get a proxy, in the order they are linked.
pub open spec fn proxy_tools() -> Seq<Seq<char>> {
    seq!["rustc"@, "rustdoc"@, "cargo"@, "rust-lldb"@, "rust-gdb"@]
}

/// The line added to `~/.profile` before the search path line.
pub const PROFILE_COMMENT: &'static str = "\n# Multirust override:\nexport PATH=\"";
/// What follows the `bin` directory in the search path line.
pub const PROFILE_TAIL: &'static str = ":$PATH\"";

/// The text appended to `~/.profile` to put `bin` first on the search path.
pub open spec fn profile_addition(bin: Seq<char>) -> Seq<char> {
    PROFILE_COMMENT@ + bin + PROFILE_TAIL@
}

/// The steps that link the proxies: each tool, in order, as a hard link
/// (Windows) or a symbolic link to the installed binary `dest`.
pub open spec fn proxy_steps(bin: Seq<char>, dest: Seq<char>, exe_suffix: Seq<char>, windows: bool) -> Seq<InstallStepV> {
    proxy_tools().map_values(|t: Seq<char>|
        if windows {
            InstallStepV::Hardlink(dest, path_join(bin, t + exe_suffix))
        } else {
            InstallStepV::Symlink(dest, path_join(bin, t + exe_suffix))
        }
    )
}

/// The steps of installing the binary `src` (moved when `should_move`,
/// else copied) into `multirust_dir/bin` as `multirust` with the
/// platform's executable suffix: first that directory is ensured, then the
/// binary placed, then the proxies linked; when `add_to_path`, last the
/// directory is put on the search path: in the registry on Windows, else
/// by a line appended to `.profile` in the home directory (failing when
/// there is none).
pub open spec fn install_steps_spec(
    multirust_dir: Seq<char>,
    src: Seq<char>,
    exe_suffix: Seq<char>,
    should_move: bool,
    add_to_path: bool,
    windows: bool,
    home: Option<Seq<char>>,
) -> Seq<InstallStepV> {
    let bin = path_join(multirust_dir, "bin"@);
    let dest = path_join(bin, "multirust"@ + exe_suffix);
    let place = if should_move { InstallStepV::Move(src, dest) } else { InstallStepV::Copy(src, dest) };
    let head = seq![InstallStepV::EnsureDir(bin), place] + proxy_steps(bin, dest, exe_suffix, windows);
    if !add_to_path {
        head
    } else if windows {
        head.push(InstallStepV::PrependToRegistryPath(bin))
    } else {
        match home {
            Some(h) => head.push(InstallStepV::AppendToFile(path_join(h, ".profile"@), profile_addition(bin))),
            None => head.push(InstallStepV::HomeNotFound),
        }
    }
}

fn proxy_step(dest: &str, bin: &str, tool: &str, exe_suffix: &str, windows: bool) -> (r: InstallStep)
    ensures
        r@ == (if windows {
            InstallStepV::Hardlink(dest@, path_join(bin@, tool@ + exe_suffix@))
        } else {
            InstallStepV::Symlink(dest@, path_join(bin@, tool@ + exe_suffix@))
        }),
{
    let name = concat2(tool, exe_suffix);
    let path = join_path(bin, name.as_str());
    if windows {
        InstallStep::Hardlink(dest.to_owned(), path)
    } else {
        InstallStep::Symlink(dest.to_owned(), path)
    }
}

/// The steps of installing; see [`install_steps_spec`].
pub fn install_steps(
    multirust_dir: &str,
    src: &str,
    exe_suffix: &str,
    should_move: bool,
    add_to_path: bool,
    windows: bool,
    home: Option<&str>,
) -> (r: Vec<InstallStep>)
    ensures
        steps_view(r@) == install_steps_spec(
            multirust_dir@, src@, exe_suffix@, should_move, add_to_path, windows,
            match home { Some(h) => Some(h@), None => None },
        ),
{
    let bin = join_path(multirust_dir, "bin");
    let exe = concat2("multirust", exe_suffix);
    let dest = join_path(bin.as_str(), exe.as_str());
    let mut r: Vec<InstallStep> = Vec::new();
    r.push(InstallStep::EnsureDir(bin.clone()));
    if should_move {
        r.push(InstallStep::Move(src.to_owned(), dest.clone()));
    } else {
        r.push(InstallStep::Copy(src.to_owned(), dest.clone()));
    }
    r.push(proxy_step(dest.as_str(), bin.as_str(), "rustc", exe_suffix, windows));
    r.push(proxy_step(dest.as_str(), bin.as_str(), "rustdoc", exe_suffix, windows));
    r.push(proxy_step(dest.as_str(), bin.as_str(), "cargo", exe_suffix, windows));
    r.push(proxy_step(dest.as_str(), bin.as_str(), "rust-lldb", exe_suffix, windows));
    r.push(proxy_step(dest.as_str(), bin.as_str(), "rust-gdb", exe_suffix, windows));
    let ghost b = path_join(multirust_dir@, "bin"@);
    let ghost d = path_join(b, "multirust"@ + exe_suffix@);
    let ghost hv = match home { Some(h) => Some(h@), None => None::<Seq<char>> };
    let ghost place = if should_move { InstallStepV::Move(src@, d) } else { InstallStepV::Copy(src@, d) };
    assert(steps_view(r@) =~= seq![InstallStepV::EnsureDir(b), place] + proxy_steps(b, d, exe_suffix@, windows));
    if add_to_path {
        let ghost before = steps_view(r@);
        if windows {
            r.push(InstallStep::PrependToRegistryPath(bin));
        } else {
            match home {
                Some(h) => {
                    let file = join_path(h, ".profile");
                    let text = concat3(PROFILE_COMMENT, bin.as_str(), PROFILE_TAIL);
                    r.push(InstallStep::AppendToFile(file, text));
                },
                None => r.push(InstallStep::HomeNotFound),
            }
        }
        assert(steps_view(r@) =~= install_steps_spec(multirust_dir@, src@, exe_suffix@, should_move, add_to_path, windows, hv));
    }
    r
}

} // verus!
