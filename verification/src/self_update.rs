//! Editing the search path when the installer installs or removes itself:
//! the line added to shell start-up files on Unix and the entry added to
//! the user's `PATH` on Windows.

use vstd::prelude::*;
use crate::text::{concat2, concat3, contains_seq, contains_str, join_strings, join_with, occurs_at, str_eq, substring, texts_contain, texts_view};
use crate::prefix::{join_path, path_join};

verus! {

/// Whether `pat` occurs in `s` at position `i`.
pub open spec fn occurs_at_spec(s: Seq<char>, pat: Seq<char>, i: int) -> bool {
    0 <= i && i + pat.len() <= s.len() && s.subrange(i, i + pat.len()) == pat
}

/// The first position where `pat` occurs in `s`, if any.
pub fn find_str(s: &str, pat: &str) -> (r: Option<usize>)
    ensures
        r matches Some(i) ==> occurs_at_spec(s@, pat@, i as int)
            && forall|j: int| 0 <= j < i ==> !occurs_at_spec(s@, pat@, j),
        r is None ==> forall|j: int| !occurs_at_spec(s@, pat@, j),
{
    let n = s.unicode_len();
    let m = pat.unicode_len();
    if m > n {
        return None;
    }
    let mut i: usize = 0;
    while i <= n - m
        invariant
            n == s@.len(),
            m == pat@.len(),
            m <= n,
            i <= n - m + 1,
            forall|j: int| 0 <= j < i ==> !occurs_at_spec(s@, pat@, j),
        decreases n - m + 1 - i,
    {
        if occurs_at(s, i, pat) {
            return Some(i);
        }
        if i == n - m {
            return None;
        }
        i = i + 1;
    }
    None
}

/// The line that puts the installer's `bin` directory first on the search
/// path, for `cargo_home` as shown to the user.
pub open spec fn shell_export_spec(cargo_home: Seq<char>) -> Seq<char> {
    "export PATH=\""@ + cargo_home + "/bin:$PATH\""@
}

/// The line that puts the `bin` directory first on the search path; see
/// [`shell_export_spec`].
pub fn shell_export_string(cargo_home: &str) -> (r: String)
    ensures
        r@ == shell_export_spec(cargo_home@),
{
    concat3("export PATH=\"", cargo_home, "/bin:$PATH\"")
}

/// The installation directory as shown to the user: `$HOME/.cargo` when it
/// is the default one, itself otherwise.
pub fn canonical_cargo_home(cargo_home: &str, default_cargo_home: &str) -> (r: String)
    ensures
        r@ == (if cargo_home@ == default_cargo_home@ { "$HOME/.cargo"@ } else { cargo_home@ }),
{
    if str_eq(cargo_home, default_cargo_home) {
        "$HOME/.cargo".to_owned()
    } else {
        cargo_home.to_owned()
    }
}

/// The start-up file with the search path line added: unchanged (`None`)
/// when the file already has the line after a line break; otherwise the
/// line is appended after a line break.
pub open spec fn rcfile_with_path_spec(content: Seq<char>, export: Seq<char>) -> Option<Seq<char>> {
    let addition = seq!['\n'] + export;
    if contains_seq(content, addition) { None } else { Some(content + addition) }
}

/// Adds the search path line to a start-up file; see
/// [`rcfile_with_path_spec`].
pub fn rcfile_with_path(content: &str, export: &str) -> (r: Option<String>)
    ensures
        r is None <==> rcfile_with_path_spec(content@, export@) is None,
        r matches Some(s) ==> rcfile_with_path_spec(content@, export@) == Some(s@),
{
    let addition = concat2("\n", export);
    proof {
        reveal_strlit("\n");
        assert("\n"@ =~= seq!['\n']);
    }
    if contains_str(content, addition.as_str()) {
        None
    } else {
        Some(concat2(content, addition.as_str()))
    }
}

/// The start-up file with the search path line removed: its first
/// occurrence between two line breaks goes, with the first of them; `None`
/// when there is none.
pub open spec fn rcfile_without_path_spec(content: Seq<char>, export: Seq<char>) -> Option<Seq<char>> {
    let line = seq!['\n'] + export + seq!['\n'];
    if contains_seq(content, line) {
        let i = choose|i: int| occurs_at_spec(content, line, i) && forall|j: int| 0 <= j < i ==> !occurs_at_spec(content, line, j);
        Some(content.subrange(0, i) + content.subrange(i + line.len(), content.len() as int))
    } else {
        None
    }
}

proof fn lemma_first_occurrence(s: Seq<char>, pat: Seq<char>, i: int)
    requires
        occurs_at_spec(s, pat, i),
        forall|j: int| 0 <= j < i ==> !occurs_at_spec(s, pat, j),
    ensures
        contains_seq(s, pat),
        (choose|k: int| occurs_at_spec(s, pat, k) && forall|j: int| 0 <= j < k ==> !occurs_at_spec(s, pat, j)) == i,
{
    assert(s.subrange(i, i + pat.len()) == pat);
    let k = choose|k: int| occurs_at_spec(s, pat, k) && forall|j: int| 0 <= j < k ==> !occurs_at_spec(s, pat, j);
    if k < i {
        assert(!occurs_at_spec(s, pat, k));
    } else if k > i {
        assert(!occurs_at_spec(s, pat, i));
    }
}

proof fn lemma_no_occurrence(s: Seq<char>, pat: Seq<char>)
    requires
        forall|j: int| !occurs_at_spec(s, pat, j),
    ensures
        !contains_seq(s, pat),
{
    if contains_seq(s, pat) {
        let i = choose|i: int| 0 <= i && i + pat.len() <= s.len() && #[trigger] s.subrange(i, i + pat.len()) == pat;
        assert(occurs_at_spec(s, pat, i));
    }
}

/// Removes the search path line from a start-up file; see
/// [`rcfile_without_path_spec`].
pub fn rcfile_without_path(content: &str, export: &str) -> (r: Option<String>)
    ensures
        r is None <==> rcfile_without_path_spec(content@, export@) is None,
        r matches Some(s) ==> rcfile_without_path_spec(content@, export@) == Some(s@),
{
    let line = concat3("\n", export, "\n");
    proof {
        reveal_strlit("\n");
        assert("\n"@ =~= seq!['\n']);
    }
    match find_str(content, line.as_str()) {
        Some(i) => {
            proof {
                lemma_first_occurrence(content@, line@, i as int);
            }
            let n = content.unicode_len();
            let m = line.unicode_len();
            let head = substring(content, 0, i);
            let tail = substring(content, i + m, n);
            Some(concat2(head.as_str(), tail.as_str()))
        },
        None => {
            proof {
                lemma_no_occurrence(content@, line@);
            }
            None
        },
    }
}

/// The Windows `PATH` value with the `bin` directory put first, separated
/// by `;`: unchanged (`None`) when it already holds it.
pub open spec fn windows_path_with_spec(old: Seq<char>, bin: Seq<char>) -> Option<Seq<char>> {
    if contains_seq(old, bin) { None } else { Some(bin + seq![';'] + old) }
}

/// Adds the `bin` directory to a Windows `PATH` value; see
/// [`windows_path_with_spec`].
pub fn windows_path_with(old: &str, bin: &str) -> (r: Option<String>)
    ensures
        r is None <==> windows_path_with_spec(old@, bin@) is None,
        r matches Some(s) ==> windows_path_with_spec(old@, bin@) == Some(s@),
{
    if contains_str(old, bin) {
        None
    } else {
        proof {
            reveal_strlit(";");
            assert(";"@ =~= seq![';']);
        }
        Some(concat3(bin, ";", old))
    }
}

/// The Windows `PATH` value without the first occurrence of the `bin`
/// directory (separators around it stay); `None` when it has none.
pub open spec fn windows_path_without_spec(old: Seq<char>, bin: Seq<char>) -> Option<Seq<char>> {
    if contains_seq(old, bin) {
        let i = choose|i: int| occurs_at_spec(old, bin, i) && forall|j: int| 0 <= j < i ==> !occurs_at_spec(old, bin, j);
        Some(old.subrange(0, i) + old.subrange(i + bin.len(), old.len() as int))
    } else {
        None
    }
}

/// Removes the `bin` directory from a Windows `PATH` value; see
/// [`windows_path_without_spec`].
pub fn windows_path_without(old: &str, bin: &str) -> (r: Option<String>)
    ensures
        r is None <==> windows_path_without_spec(old@, bin@) is None,
        r matches Some(s) ==> windows_path_without_spec(old@, bin@) == Some(s@),
{
    match find_str(old, bin) {
        Some(i) => {
            proof {
                lemma_first_occurrence(old@, bin@, i as int);
            }
            let n = old.unicode_len();
            let m = bin.unicode_len();
            let head = substring(old, 0, i);
            let tail = substring(old, i + m, n);
            Some(concat2(head.as_str(), tail.as_str()))
        },
        None => {
            proof {
                lemma_no_occurrence(old@, bin@);
            }
            None
        },
    }
}

/// Adding the search path line twice changes the file once: after it is
/// added, adding it again leaves the file as it is.
pub proof fn law_rcfile_addition_idempotent(content: Seq<char>, export: Seq<char>)
    ensures
        rcfile_with_path_spec(content, export) matches Some(c2) ==> rcfile_with_path_spec(c2, export) is None,
{
    if let Some(c2) = rcfile_with_path_spec(content, export) {
        let addition = seq!['\n'] + export;
        let i = content.len() as int;
        assert(c2.subrange(i, i + addition.len()) =~= addition);
    }
}

/// Adding the `bin` directory to the Windows `PATH` twice changes it once.
pub proof fn law_windows_path_addition_idempotent(old: Seq<char>, bin: Seq<char>)
    ensures
        windows_path_with_spec(old, bin) matches Some(p2) ==> windows_path_with_spec(p2, bin) is None,
{
    if let Some(p2) = windows_path_with_spec(old, bin) {
        assert(p2.subrange(0, 0 + bin.len() as int) =~= bin);
    }
}

/// How the search path is changed: through a shell start-up file, or
/// through the user's `PATH` in the Windows registry.
#[derive(Debug)]
pub enum PathUpdateMethod {
    RcFile(String),
    Windows,
}

/// The abstract value of a [`PathUpdateMethod`]: the start-up file's path,
/// or none for the registry.
pub open spec fn method_view(m: PathUpdateMethod) -> Option<Seq<char>> {
    match m {
        PathUpdateMethod::RcFile(p) => Some(p@),
        PathUpdateMethod::Windows => None,
    }
}

/// The abstract values of a list of methods.
pub open spec fn methods_view(v: Seq<PathUpdateMethod>) -> Seq<Option<Seq<char>>> {
    v.map_values(|m: PathUpdateMethod| method_view(m))
}

/// The shell start-up files in the home directory that may carry the
/// search path line, in the order they are considered.
pub open spec fn rcfile_candidates_spec(home: Seq<char>) -> Seq<Seq<char>> {
    seq![path_join(home, ".bashrc"@), path_join(home, ".zshrc"@), path_join(home, ".kshrc"@)]
}

/// The shell start-up files considered in `home`; see
/// [`rcfile_candidates_spec`]. The caller keeps those that exist.
pub fn rcfile_candidates(home: &str) -> (r: Vec<String>)
    ensures
        texts_view(r@) == rcfile_candidates_spec(home@),
{
    let mut r: Vec<String> = Vec::new();
    r.push(join_path(home, ".bashrc"));
    r.push(join_path(home, ".zshrc"));
    r.push(join_path(home, ".kshrc"));
    assert(texts_view(r@) =~= rcfile_candidates_spec(home@));
    r
}

/// How installing changes the search path: through the registry on
/// Windows, else through each of the existing start-up files, in order.
pub open spec fn add_path_methods_spec(windows: bool, existing: Seq<Seq<char>>) -> Seq<Option<Seq<char>>> {
    if windows {
        seq![None]
    } else {
        existing.map_values(|p: Seq<char>| Some(p))
    }
}

/// The methods by which installing changes the search path; see
/// [`add_path_methods_spec`]. `existing` are the start-up files of
/// [`rcfile_candidates`] that exist.
pub fn get_add_path_methods(windows: bool, existing: &Vec<String>) -> (r: Vec<PathUpdateMethod>)
    ensures
        methods_view(r@) == add_path_methods_spec(windows, texts_view(existing@)),
{
    let mut r: Vec<PathUpdateMethod> = Vec::new();
    if windows {
        r.push(PathUpdateMethod::Windows);
        assert(methods_view(r@) =~= add_path_methods_spec(windows, texts_view(existing@)));
        return r;
    }
    let mut i: usize = 0;
    while i < existing.len()
        invariant
            i <= existing@.len(),
            methods_view(r@) =~= texts_view(existing@).take(i as int).map_values(|p: Seq<char>| Some(p)),
        decreases existing@.len() - i,
    {
        let ghost before = methods_view(r@);
        r.push(PathUpdateMethod::RcFile(existing[i].clone()));
        assert(methods_view(r@) =~= before.push(Some(existing@[i as int]@)));
        assert(texts_view(existing@).take(i + 1) =~= texts_view(existing@).take(i as int).push(existing@[i as int]@));
        i = i + 1;
    }
    assert(texts_view(existing@).take(existing@.len() as int) =~= texts_view(existing@));
    r
}

/// The paths of the start-up files, among `existing` (path and content),
/// that carry the search path line after a line break, in order.
pub open spec fn remove_path_rcfiles(existing: Seq<(Seq<char>, Seq<char>)>, export: Seq<char>) -> Seq<Seq<char>>
    decreases existing.len(),
{
    if existing.len() == 0 {
        Seq::empty()
    } else {
        let rest = remove_path_rcfiles(existing.drop_last(), export);
        if contains_seq(existing.last().1, seq!['\n'] + export) { rest.push(existing.last().0) } else { rest }
    }
}

/// How removing the installation changes the search path: through the
/// registry on Windows, else through each existing start-up file that
/// carries the search path line.
pub open spec fn remove_path_methods_spec(windows: bool, existing: Seq<(Seq<char>, Seq<char>)>, export: Seq<char>) -> Seq<Option<Seq<char>>> {
    if windows {
        seq![None]
    } else {
        remove_path_rcfiles(existing, export).map_values(|p: Seq<char>| Some(p))
    }
}

/// The abstract values of a list of start-up files with their contents.
pub open spec fn rcfiles_view(v: Seq<(String, String)>) -> Seq<(Seq<char>, Seq<char>)> {
    v.map_values(|e: (String, String)| (e.0@, e.1@))
}

/// The methods by which removing the installation changes the search
/// path; see [`remove_path_methods_spec`]. `existing` are the start-up
/// files of [`rcfile_candidates`] that exist, with their contents (empty
/// when unreadable), and `export` is the search path line.
pub fn get_remove_path_methods(windows: bool, existing: &Vec<(String, String)>, export: &str) -> (r: Vec<PathUpdateMethod>)
    ensures
        methods_view(r@) == remove_path_methods_spec(windows, rcfiles_view(existing@), export@),
{
    let mut r: Vec<PathUpdateMethod> = Vec::new();
    if windows {
        r.push(PathUpdateMethod::Windows);
        assert(methods_view(r@) =~= remove_path_methods_spec(windows, rcfiles_view(existing@), export@));
        return r;
    }
    let addition = concat2("\n", export);
    proof {
        reveal_strlit("\n");
        assert(addition@ =~= seq!['\n'] + export@);
    }
    let ghost ex = rcfiles_view(existing@);
    let mut i: usize = 0;
    while i < existing.len()
        invariant
            i <= existing@.len(),
            ex == rcfiles_view(existing@),
            addition@ == seq!['\n'] + export@,
            methods_view(r@) =~= remove_path_rcfiles(ex.take(i as int), export@).map_values(|p: Seq<char>| Some(p)),
        decreases existing@.len() - i,
    {
        assert(ex.take(i + 1).drop_last() =~= ex.take(i as int));
        assert(ex.take(i + 1).last() == (existing@[i as int].0@, existing@[i as int].1@));
        if contains_str(existing[i].1.as_str(), addition.as_str()) {
            let ghost before = methods_view(r@);
            r.push(PathUpdateMethod::RcFile(existing[i].0.clone()));
            assert(methods_view(r@) =~= before.push(Some(existing@[i as int].0@)));
            assert(remove_path_rcfiles(ex.take(i + 1), export@).map_values(|p: Seq<char>| Some(p))
                =~= remove_path_rcfiles(ex.take(i as int), export@).map_values(|p: Seq<char>| Some(p)).push(Some(existing@[i as int].0@)));
        }
        i = i + 1;
    }
    assert(ex.take(existing@.len() as int) =~= ex);
    r
}

/// The opening of the message shown before installing, up to the `bin`
/// directory.
pub const PRE_INSTALL_HEAD: &'static str = "\nWelcome to Rust!\n\nThis will download and install the official compiler for the Rust\nprogramming language, and its package manager, Cargo.\n\nIt will add the `cargo`, `rustc`, `rustup` and other commands to\nCargo's bin directory, located at:\n\n";
/// What follows the `bin` directory, before the part about the platform.
pub const PRE_INSTALL_SEP: &'static str = "\n\n";
/// The close of the message shown before installing.
pub const PRE_INSTALL_TAIL: &'static str = "\n\nYou can uninstall at any time with `multirust self uninstall` and\nthese changes will be reverted.\n\nWARNING: This is beta software and it is known to have an\n         appetite for laundry.\n\nContinue? (Y/n)";
/// The part about start-up files on Unix, before their list.
pub const PRE_INSTALL_UNIX: &'static str = "This path will then be added to your `PATH` environment variable by\nmodifying the shell startup files located at:\n\n";
/// The part about Unix when no start-up file was found.
pub const PRE_INSTALL_UNIX_NO_RCFILES: &'static str = "This path needs to be added to your `PATH` environment variable so\nthat the Rust toolchain commands can be executed, but neither\n`.bashrc`, `.zshrc`, nor `.kshrc` files were detected in your home\ndirectory. You must take your own measures to configure `PATH`.";
/// The part about the Windows registry.
pub const PRE_INSTALL_WINDOWS: &'static str = "This path will then be added to your `PATH` environment variable by\nmodifying the HKEY_CURRENT_USER/Environment/PATH registry key.";

/// The start-up file paths among the methods, in order.
pub open spec fn method_rcfiles(ms: Seq<Option<Seq<char>>>) -> Seq<Seq<char>>
    decreases ms.len(),
{
    if ms.len() == 0 {
        Seq::empty()
    } else {
        let rest = method_rcfiles(ms.drop_last());
        match ms.last() {
            Some(p) => rest.push(p),
            None => rest,
        }
    }
}

/// The message shown before installing into `cargo_home`: on Unix it
/// lists the start-up files that will change, one per line, or says that
/// none was found; on Windows it names the registry key.
pub open spec fn pre_install_msg_spec(cargo_home: Seq<char>, ms: Seq<Option<Seq<char>>>, windows: bool) -> Seq<char> {
    let platform = if windows {
        PRE_INSTALL_WINDOWS@
    } else if method_rcfiles(ms).len() > 0 {
        PRE_INSTALL_UNIX@ + join_with(method_rcfiles(ms), "\n"@)
    } else {
        PRE_INSTALL_UNIX_NO_RCFILES@
    };
    PRE_INSTALL_HEAD@ + cargo_home + PRE_INSTALL_SEP@ + platform + PRE_INSTALL_TAIL@
}

/// The message shown before installing; see [`pre_install_msg_spec`].
pub fn pre_install_msg(cargo_home: &str, methods: &Vec<PathUpdateMethod>, windows: bool) -> (r: String)
    ensures
        r@ == pre_install_msg_spec(cargo_home@, methods_view(methods@), windows),
{
    let ghost ms = methods_view(methods@);
    let mut rcfiles: Vec<String> = Vec::new();
    let mut i: usize = 0;
    while i < methods.len()
        invariant
            i <= methods@.len(),
            ms == methods_view(methods@),
            texts_view(rcfiles@) =~= method_rcfiles(ms.take(i as int)),
        decreases methods@.len() - i,
    {
        assert(ms.take(i + 1).drop_last() =~= ms.take(i as int));
        assert(ms.take(i + 1).last() == method_view(methods@[i as int]));
        match &methods[i] {
            PathUpdateMethod::RcFile(p) => {
                let ghost before = texts_view(rcfiles@);
                rcfiles.push(p.clone());
                assert(texts_view(rcfiles@) =~= before.push(p@));
            },
            PathUpdateMethod::Windows => {},
        }
        i = i + 1;
    }
    assert(ms.take(methods@.len() as int) =~= ms);
    let mut r = PRE_INSTALL_HEAD.to_owned();
    r.append(cargo_home);
    r.append(PRE_INSTALL_SEP);
    if windows {
        r.append(PRE_INSTALL_WINDOWS);
    } else if rcfiles.len() > 0 {
        r.append(PRE_INSTALL_UNIX);
        let listed = join_strings(&rcfiles, "\n");
        r.append(listed.as_str());
    } else {
        r.append(PRE_INSTALL_UNIX_NO_RCFILES);
    }
    r.append(PRE_INSTALL_TAIL);
    r
}

/// The message after installing on Unix, before the installation directory.
pub const POST_INSTALL_UNIX_HEAD: &'static str = "Rust is installed now. Great!\n\nTo get started you need Cargo's bin directory in your `PATH`\nenvironment variable. Future shells will be configured automatically.\nTo configure your current shell run `source ";
/// The message after installing on Unix, after the installation directory.
pub const POST_INSTALL_UNIX_TAIL: &'static str = "/env`.\n";
/// The message after installing on Windows.
pub const POST_INSTALL_WINDOWS: &'static str = "Rust is installed now. Great!\n\nTo get started you need Cargo's bin directory in your `PATH`\nenvironment variable. Future applications will automatically have the\ncorrect environment, but you may need to restart your current shell.\n";

/// The message shown after installing: on Unix it names the file to source
/// in `cargo_home`.
pub open spec fn post_install_msg_spec(cargo_home: Seq<char>, windows: bool) -> Seq<char> {
    if windows { POST_INSTALL_WINDOWS@ } else { POST_INSTALL_UNIX_HEAD@ + cargo_home + POST_INSTALL_UNIX_TAIL@ }
}

/// The message shown after installing; see [`post_install_msg_spec`].
pub fn post_install_msg(cargo_home: &str, windows: bool) -> (r: String)
    ensures
        r@ == post_install_msg_spec(cargo_home@, windows),
{
    if windows {
        POST_INSTALL_WINDOWS.to_owned()
    } else {
        concat3(POST_INSTALL_UNIX_HEAD, cargo_home, POST_INSTALL_UNIX_TAIL)
    }
}

/// The message shown before uninstalling, before the installation directory.
pub const PRE_UNINSTALL_HEAD: &'static str = "\nThanks for hacking in Rust!\n\nThis will uninstall all Rust toolchains and data, and remove\n`";
/// The message shown before uninstalling, after the installation directory.
pub const PRE_UNINSTALL_TAIL: &'static str = "/bin` from your `PATH` environment variable.\n\nContinue? (y/N)";

/// The message shown before uninstalling from `cargo_home`.
pub fn pre_uninstall_msg(cargo_home: &str) -> (r: String)
    ensures
        r@ == PRE_UNINSTALL_HEAD@ + cargo_home@ + PRE_UNINSTALL_TAIL@,
{
    concat3(PRE_UNINSTALL_HEAD, cargo_home, PRE_UNINSTALL_TAIL)
}

/// The binaries in the installation's `bin` directory that uninstalling
/// leaves to the very last step (they may be running): the front end and
/// its tool proxies, with the platform's executable suffix.
pub open spec fn kept_binaries(exe_suffix: Seq<char>) -> Seq<Seq<char>> {
    seq!["rustc"@ + exe_suffix, "rustdoc"@ + exe_suffix, "cargo"@ + exe_suffix, "rust-lldb"@ + exe_suffix,
        "rust-gdb"@ + exe_suffix, "multirust"@ + exe_suffix]
}

/// Whether uninstalling removes the entry `name` of the `bin` directory
/// in its first pass: everything but the binaries of [`kept_binaries`].
pub fn uninstall_removes_bin_entry(name: &str, exe_suffix: &str) -> (r: bool)
    ensures
        r == !kept_binaries(exe_suffix@).contains(name@),
{
    let kept: Vec<String> = vec![
        concat2("rustc", exe_suffix),
        concat2("rustdoc", exe_suffix),
        concat2("cargo", exe_suffix),
        concat2("rust-lldb", exe_suffix),
        concat2("rust-gdb", exe_suffix),
        concat2("multirust", exe_suffix),
    ];
    assert(texts_view(kept@) =~= kept_binaries(exe_suffix@));
    !texts_contain(&kept, name)
}

} // verus!
