//! Installation prefixes and the paths of the files inside them. Paths are
//! texts with `/` as separator.

use vstd::prelude::*;
use crate::text::{char_is, char_len, concat2, concat3};

verus! {

/// Joining a relative or absolute path onto a base: an absolute path
/// (starting with `/`) replaces the base; onto an empty base the path is
/// kept as it is; otherwise the two are joined with one `/` (none is added
/// when the base already ends with `/`).
pub open spec fn path_join(base: Seq<char>, p: Seq<char>) -> Seq<char> {
    if p.len() > 0 && p[0] == '/' {
        p
    } else if base.len() == 0 {
        p
    } else if base[base.len() - 1] == '/' {
        base + p
    } else {
        base + seq!['/'] + p
    }
}

/// Joins `p` onto `base`; see [`path_join`].
pub fn join_path(base: &str, p: &str) -> (r: String)
    ensures
        r@ == path_join(base@, p@),
{
    let n = char_len(base);
    if char_is(p, 0, '/') {
        p.to_owned()
    } else if n == 0 {
        p.to_owned()
    } else if char_is(base, n - 1, '/') {
        concat2(base, p)
    } else {
        let r = concat3(base, "/", p);
        proof {
            reveal_strlit("/");
            assert("/"@ =~= seq!['/']);
        }
        r
    }
}

/// The manifest directory of an installation, relative to its prefix.
pub open spec fn rel_manifest_dir() -> Seq<char> {
    "lib/rustlib"@
}

/// The directory that an installation lives in.
#[derive(Debug, Clone)]
pub struct InstallPrefix {
    path: String,
}

impl View for InstallPrefix {
    type V = Seq<char>;

    closed spec fn view(&self) -> Seq<char> {
        self.path@
    }
}

impl InstallPrefix {
    /// The prefix at `path`.
    pub fn from(path: String) -> (r: Self)
        ensures
            r@ == path@,
    {
        InstallPrefix { path }
    }

    /// The prefix's path.
    pub fn path(&self) -> (r: &str)
        ensures
            r@ == self@,
    {
        self.path.as_str()
    }

    /// A copy of this prefix.
    pub fn copy(&self) -> (r: Self)
        ensures
            r@ == self@,
    {
        InstallPrefix { path: self.path.clone() }
    }

    /// `path` within the prefix.
    pub fn abs_path(&self, path: &str) -> (r: String)
        ensures
            r@ == path_join(self@, path@),
    {
        join_path(self.path.as_str(), path)
    }

    /// The manifest directory, `lib/rustlib` within the prefix.
    pub fn manifest_dir(&self) -> (r: String)
        ensures
            r@ == path_join(self@, rel_manifest_dir()),
    {
        join_path(self.path.as_str(), "lib/rustlib")
    }

    /// The manifest file `name` within the manifest directory.
    pub fn manifest_file(&self, name: &str) -> (r: String)
        ensures
            r@ == path_join(path_join(self@, rel_manifest_dir()), name@),
    {
        let d = self.manifest_dir();
        join_path(d.as_str(), name)
    }

    /// The manifest file `name`, relative to the prefix.
    pub fn rel_manifest_file(&self, name: &str) -> (r: String)
        ensures
            r@ == path_join(rel_manifest_dir(), name@),
    {
        join_path("lib/rustlib", name)
    }

    /// The file `bin/NAME` (with the platform's executable suffix) within
    /// the prefix.
    pub fn binary_file(&self, name: &str, exe_suffix: &str) -> (r: String)
        ensures
            r@ == path_join(self@, path_join("bin"@, name@ + exe_suffix@)),
    {
        let b = concat2(name, exe_suffix);
        let rel = join_path("bin", b.as_str());
        join_path(self.path.as_str(), rel.as_str())
    }

    /// The documentation file `relative` within `share/doc/rust/html`.
    pub fn doc_path(&self, relative: &str) -> (r: String)
        ensures
            r@ == path_join(path_join(path_join(path_join(path_join(self@, "share"@), "doc"@), "rust"@), "html"@), relative@),
    {
        let p1 = join_path(self.path.as_str(), "share");
        let p2 = join_path(p1.as_str(), "doc");
        let p3 = join_path(p2.as_str(), "rust");
        let p4 = join_path(p3.as_str(), "html");
        join_path(p4.as_str(), relative)
    }

    /// The manifest files whose presence marks a v1 installation: those of
    /// `cargo`, `rustc` and `rust-docs`.
    pub fn v1_manifest_files(&self) -> (r: Vec<String>)
        ensures
            r@.len() == 3,
            r@[0]@ == path_join(path_join(self@, rel_manifest_dir()), "manifest-cargo"@),
            r@[1]@ == path_join(path_join(self@, rel_manifest_dir()), "manifest-rustc"@),
            r@[2]@ == path_join(path_join(self@, rel_manifest_dir()), "manifest-rust-docs"@),
    {
        let mut v = Vec::new();
        v.push(self.manifest_file("manifest-cargo"));
        v.push(self.manifest_file("manifest-rustc"));
        v.push(self.manifest_file("manifest-rust-docs"));
        v
    }
}

/// Guesses whether an installation came from a v1 manifest: all its v1
/// manifest files (see [`InstallPrefix::v1_manifest_files`]) exist.
pub fn guess_v1_manifest(exists: &Vec<bool>) -> (r: bool)
    ensures
        r == (forall|i: int| 0 <= i < exists@.len() ==> exists@[i]),
{
    let mut i: usize = 0;
    while i < exists.len()
        invariant
            i <= exists@.len(),
            forall|j: int| 0 <= j < i ==> exists@[j],
        decreases exists@.len() - i,
    {
        if !exists[i] {
            return false;
        }
        i = i + 1;
    }
    true
}

/// The path `bin/NAME` followed by the executable suffix.
pub fn bin_path(name: &str, exe_suffix: &str) -> (r: String)
    ensures
        r@ == path_join("bin"@, name@ + exe_suffix@),
{
    let b = concat2(name, exe_suffix);
    join_path("bin", b.as_str())
}

/// The extension of installer files: `.msi` on windows, else `.tar.gz`.
pub fn get_installer_ext(windows: bool) -> (r: &'static str)
    ensures
        r@ == (if windows { ".msi"@ } else { ".tar.gz"@ }),
{
    if windows { ".msi" } else { ".tar.gz" }
}

} // verus!
