use rustup_dist::self_update::uninstall_removes_bin_entry;
use rustup_dist::download::{cached_file, keep_partial_for_resume, CachedFile, KeepPartial};
use rustup_dist::download::{parse_u64, DownloadOptions, DownloadOptionsError, Tls, TlsBackends};
use rustup_dist::env_var::{inc, insert_path, parse_i32};
use rustup_dist::temp::{Context, RANDOM_NAME_LEN};
use rustup_dist::tools::{component_for_bin, dup_tools, is_proxyable_tools, tools};

fn s(v: &[&str]) -> Vec<String> {
    v.iter().map(|x| x.to_string()).collect()
}

#[test]
fn test_is_proxyable_tools() {
    for tool in tools() {
        assert!(is_proxyable_tools(tool).is_ok());
    }
    for tool in dup_tools() {
        assert!(is_proxyable_tools(tool).is_ok());
    }
    let message = "unknown proxy name: 'unknown-tool'; valid proxy names are 'rustc', \
    'rustdoc', 'cargo', 'rust-lldb', 'rust-gdb', 'rust-gdbgui', 'rls', \
    'cargo-clippy', 'clippy-driver', 'cargo-miri', 'rust-analyzer', 'rustfmt', 'cargo-fmt'";
    assert_eq!(is_proxyable_tools("unknown-tool").unwrap_err(), message);
}

#[test]
fn components_for_binaries() {
    assert_eq!(component_for_bin("rustdoc", ""), Some("rustc"));
    assert_eq!(component_for_bin("cargo-clippy.exe", ".exe"), Some("clippy"));
    assert_eq!(component_for_bin("cargo-fmt", ".exe"), Some("rustfmt"));
    assert_eq!(component_for_bin("cargo-miri", ""), Some("miri"));
    assert_eq!(component_for_bin("ls", ""), None);
}

#[test]
fn prepend_unique_path() {
    let old = Some(s(&["/home/a/.cargo/bin", "/home/b/.cargo/bin"]));
    let parts = insert_path(old, s(&["/home/a/.cargo/bin", "/home/a/.cargo/bin", "/home/z/.cargo/bin"]), None);
    assert_eq!(parts, s(&["/home/z/.cargo/bin", "/home/a/.cargo/bin", "/home/b/.cargo/bin"]));
}

#[test]
fn append_unique_path() {
    let old = || Some(s(&["/home/a/.cargo/bin", "/home/b/.cargo/bin"]));
    assert_eq!(
        insert_path(old(), vec![], Some("/home/z/.cargo/bin".to_string())),
        s(&["/home/a/.cargo/bin", "/home/b/.cargo/bin", "/home/z/.cargo/bin"])
    );
    assert_eq!(insert_path(old(), vec![], Some("/home/a/.cargo/bin".to_string())), s(&["/home/a/.cargo/bin", "/home/b/.cargo/bin"]));
    assert_eq!(insert_path(old(), vec![], Some("/home/b/.cargo/bin".to_string())), s(&["/home/a/.cargo/bin", "/home/b/.cargo/bin"]));
    assert_eq!(
        insert_path(old(), s(&["/home/c/.cargo/bin"]), Some("/home/c/.cargo/bin".to_string())),
        s(&["/home/c/.cargo/bin", "/home/a/.cargo/bin", "/home/b/.cargo/bin"])
    );
    assert_eq!(insert_path(None, s(&["/x", "/x"]), Some("/y".to_string())), s(&["/x", "/x", "/y"]));
}

#[test]
fn numbers_read_like_std() {
    for t in ["0", "180", "+7", "18446744073709551615", "18446744073709551616", "", "+", "-1", "1a", " 1"] {
        assert_eq!(parse_u64(t), t.parse::<u64>().ok(), "input {t:?}");
    }
}

#[test]
fn download_settings() {
    let both = TlsBackends { rustls: true, native_tls: true };
    let only_native = TlsBackends { rustls: false, native_tls: true };
    let only_rustls = TlsBackends { rustls: true, native_tls: false };
    assert_eq!(DownloadOptions::from_settings(None, both, None), Ok(DownloadOptions { tls: Tls::Rustls, timeout_secs: 180 }));
    assert_eq!(DownloadOptions::from_settings(Some(false), both, Some("30")), Ok(DownloadOptions { tls: Tls::NativeTls, timeout_secs: 30 }));
    assert_eq!(DownloadOptions::from_settings(None, only_native, None), Ok(DownloadOptions { tls: Tls::NativeTls, timeout_secs: 180 }));
    assert_eq!(DownloadOptions::from_settings(Some(true), only_native, None), Err(DownloadOptionsError::RustlsUnavailable));
    assert_eq!(DownloadOptions::from_settings(Some(false), only_rustls, None), Err(DownloadOptionsError::NativeTlsUnavailable));
    assert_eq!(DownloadOptions::from_settings(None, both, Some("0")), Err(DownloadOptionsError::InvalidTimeout));
    assert_eq!(DownloadOptions::from_settings(None, both, Some("soon")), Err(DownloadOptionsError::InvalidTimeout));
}

#[test]
fn temp_names() {
    let cx = Context::new("/tmp/rustup".to_string(), "https://static.rust-lang.org");
    assert_eq!(RANDOM_NAME_LEN, 16);
    assert_eq!(cx.new_file("abcdefgh12345678").path, "/tmp/rustup/abcdefgh12345678_file");
    assert_eq!(cx.new_file_with_ext("p-", "abcdefgh12345678", ".toml").path, "/tmp/rustup/p-abcdefgh12345678_file.toml");
    assert_eq!(cx.new_directory("abcdefgh12345678").path, "/tmp/rustup/abcdefgh12345678_dir");
    assert_eq!(cx.dist_server, "https://static.rust-lang.org");
}

use rustup_dist::self_update::{
    canonical_cargo_home, find_str, rcfile_with_path, rcfile_without_path, shell_export_string,
    windows_path_with, windows_path_without,
};

#[test]
fn shell_start_up_files() {
    let export = shell_export_string("$HOME/.cargo");
    assert_eq!(export, "export PATH=\"$HOME/.cargo/bin:$PATH\"");
    let added = rcfile_with_path("alias ll='ls -l'", &export).unwrap();
    assert_eq!(added, format!("alias ll='ls -l'\n{export}"));
    assert_eq!(rcfile_with_path(&added, &export), None);
    let with_newline = format!("{added}\nexport EDITOR=vi\n");
    assert_eq!(rcfile_without_path(&with_newline, &export).unwrap(), "alias ll='ls -l'export EDITOR=vi\n");
    assert_eq!(rcfile_without_path("nothing", &export), None);
}

#[test]
fn windows_path_entries() {
    assert_eq!(windows_path_with("C:\\Windows", "C:\\Users\\u\\.cargo\\bin").unwrap(), "C:\\Users\\u\\.cargo\\bin;C:\\Windows");
    assert_eq!(windows_path_with("C:\\Users\\u\\.cargo\\bin;C:\\Windows", "C:\\Users\\u\\.cargo\\bin"), None);
    assert_eq!(windows_path_without("C:\\Users\\u\\.cargo\\bin;C:\\Windows", "C:\\Users\\u\\.cargo\\bin").unwrap(), ";C:\\Windows");
    assert_eq!(windows_path_without("C:\\Windows", "C:\\Users\\u\\.cargo\\bin"), None);
}

#[test]
fn cargo_home_display() {
    assert_eq!(canonical_cargo_home("/home/u/.cargo", "/home/u/.cargo"), "$HOME/.cargo");
    assert_eq!(canonical_cargo_home("/opt/cargo", "/home/u/.cargo"), "/opt/cargo");
    assert_eq!(find_str("abcabc", "ca"), Some(2));
    assert_eq!(find_str("abc", "x"), None);
    assert_eq!(find_str("abc", ""), Some(0));
}

use rustup_dist::home::{cargo_home, rustup_home, use_rustup_dir, NoHomeDir};

#[test]
fn home_directories() {
    assert_eq!(cargo_home(Some("/opt/cargo"), "/work", Some("/home/u")).unwrap(), "/opt/cargo");
    assert_eq!(cargo_home(Some("cargo"), "/work", Some("/home/u")).unwrap(), "/work/cargo");
    assert_eq!(cargo_home(Some("/home/u/.multirust/cargo"), "/work", Some("/home/u")).unwrap(), "/home/u/.cargo");
    assert_eq!(cargo_home(Some("  "), "/work", Some("/home/u")).unwrap(), "/home/u/.cargo");
    assert_eq!(cargo_home(None, "/work", None), Err(NoHomeDir));
    assert_eq!(rustup_home(None, "/work", Some("/home/u"), true).unwrap(), "/home/u/.rustup");
    assert_eq!(rustup_home(None, "/work", Some("/home/u"), false).unwrap(), "/home/u/.multirust");
    assert_eq!(rustup_home(Some("r"), "/work", None, true).unwrap(), "/work/r");
    assert!(use_rustup_dir(true, true, false));
    assert!(use_rustup_dir(false, false, false));
    assert!(!use_rustup_dir(false, true, false));
    assert!(!use_rustup_dir(true, false, true));
}

use rustup_dist::download::{check_download_hash, download_failure, hash_from_sha256_file, partial_paths, DownloadFailure, HashMismatch};

#[test]
fn download_bookkeeping() {
    let (legacy, unique) = partial_paths("/home/u/.rustup/downloads", "abc123", "XYZ");
    assert_eq!(legacy, "/home/u/.rustup/downloads/abc123.partial");
    assert_eq!(unique, "/home/u/.rustup/downloads/abc123.XYZ.partial");
    assert_eq!(download_failure(true, true), (true, DownloadFailure::IncompletePartialFile));
    assert_eq!(download_failure(true, false), (false, DownloadFailure::BrokenPartialFile));
    assert_eq!(download_failure(false, true), (true, DownloadFailure::Plain));
    assert!(check_download_hash("u", "aa", "aa", true).is_ok());
    assert_eq!(check_download_hash("u", "aa", "bb", true), Err(HashMismatch::BrokenPartialFile));
    assert_eq!(
        check_download_hash("u", "aa", "bb", false),
        Err(HashMismatch::ChecksumFailed { url: "u".to_string(), expected: "aa".to_string(), calculated: "bb".to_string() })
    );
    let text = format!("{}  rust.tar.gz\n", "0123456789abcdef".repeat(4));
    assert_eq!(hash_from_sha256_file(&text), "0123456789abcdef".repeat(4));
    let wide = format!("{}tail", "é".repeat(40));
    assert_eq!(hash_from_sha256_file(&wide), "é".repeat(32));
}

#[test]
fn inc_counts_up_from_old_value() {
    assert_eq!(inc(None), "1");
    assert_eq!(inc(Some("7")), "8");
    assert_eq!(inc(Some("+19")), "20");
    assert_eq!(inc(Some("-1")), "0");
    assert_eq!(inc(Some("-5")), "-4");
    assert_eq!(inc(Some("-2147483648")), "-2147483647");
    assert_eq!(inc(Some("2147483646")), "2147483647");
    assert_eq!(inc(Some("not a number")), "1");
    assert_eq!(inc(Some("2147483648")), "1");
    assert_eq!(inc(Some("")), "1");
}

#[test]
fn parse_i32_follows_std() {
    for t in ["0", "-0", "+0", "42", "-42", "+42", "2147483647", "-2147483648", "2147483648", "-2147483649", "-", "+", "", "-+1", "+-1", "1a", " 1", "00012"] {
        assert_eq!(parse_i32(t), t.parse::<i32>().ok(), "input {t:?}");
    }
}

use rustup_dist::self_update::{
    get_add_path_methods, get_remove_path_methods, post_install_msg, pre_install_msg, pre_uninstall_msg,
    rcfile_candidates, PathUpdateMethod,
};

fn rc_paths(ms: &[PathUpdateMethod]) -> Vec<String> {
    ms.iter()
        .map(|m| match m {
            PathUpdateMethod::RcFile(p) => p.clone(),
            PathUpdateMethod::Windows => "<registry>".to_string(),
        })
        .collect()
}

#[test]
fn path_update_methods() {
    assert_eq!(rcfile_candidates("/home/u"), vec!["/home/u/.bashrc", "/home/u/.zshrc", "/home/u/.kshrc"]);
    let existing = vec!["/home/u/.bashrc".to_string(), "/home/u/.kshrc".to_string()];
    assert_eq!(rc_paths(&get_add_path_methods(false, &existing)), existing);
    assert_eq!(rc_paths(&get_add_path_methods(true, &existing)), vec!["<registry>"]);
    let export = "export PATH=\"$HOME/.cargo/bin:$PATH\"";
    let files = vec![
        ("/home/u/.bashrc".to_string(), format!("alias x=y\n{export}")),
        ("/home/u/.zshrc".to_string(), export.to_string()),
        ("/home/u/.kshrc".to_string(), format!("\n{export}\n")),
    ];
    assert_eq!(rc_paths(&get_remove_path_methods(false, &files, export)), vec!["/home/u/.bashrc", "/home/u/.kshrc"]);
    assert_eq!(rc_paths(&get_remove_path_methods(true, &files, export)), vec!["<registry>"]);
}

const HEAD: &str = "
Welcome to Rust!

This will download and install the official compiler for the Rust
programming language, and its package manager, Cargo.

It will add the `cargo`, `rustc`, `rustup` and other commands to
Cargo's bin directory, located at:

";
const TAIL: &str = "

You can uninstall at any time with `multirust self uninstall` and
these changes will be reverted.

WARNING: This is beta software and it is known to have an
         appetite for laundry.

Continue? (Y/n)";

#[test]
fn installer_messages() {
    let ms = vec![PathUpdateMethod::RcFile("/home/u/.bashrc".to_string()), PathUpdateMethod::RcFile("/home/u/.zshrc".to_string())];
    let unix = pre_install_msg("/home/u/.cargo", &ms, false);
    assert_eq!(
        unix,
        format!("{HEAD}/home/u/.cargo\n\nThis path will then be added to your `PATH` environment variable by\nmodifying the shell startup files located at:\n\n/home/u/.bashrc\n/home/u/.zshrc{TAIL}")
    );
    let none = pre_install_msg("/home/u/.cargo", &vec![], false);
    assert!(none.contains("neither\n`.bashrc`, `.zshrc`, nor `.kshrc` files were detected in your home\ndirectory."));
    assert!(none.starts_with(HEAD) && none.ends_with(TAIL));
    let win = pre_install_msg("C:\\Users\\u\\.cargo", &vec![PathUpdateMethod::Windows], true);
    assert_eq!(
        win,
        format!("{HEAD}C:\\Users\\u\\.cargo\n\nThis path will then be added to your `PATH` environment variable by\nmodifying the HKEY_CURRENT_USER/Environment/PATH registry key.{TAIL}")
    );
    assert!(post_install_msg("$HOME/.cargo", false).ends_with("To configure your current shell run `source $HOME/.cargo/env`.\n"));
    assert!(post_install_msg("x", true).ends_with("but you may need to restart your current shell.\n"));
    assert_eq!(
        pre_uninstall_msg("$HOME/.cargo"),
        "\nThanks for hacking in Rust!\n\nThis will uninstall all Rust toolchains and data, and remove\n`$HOME/.cargo/bin` from your `PATH` environment variable.\n\nContinue? (y/N)"
    );
}

use rustup_dist::download::{manifest_update_hash, partial_hash, update_hash_matches, UPDATE_HASH_LEN};

#[test]
fn update_hash_skips_unchanged_release() {
    let hash = "0123456789abcdef0123456789abcdef0123456789abcdef0123456789abcdef";
    let recorded = partial_hash(hash);
    assert_eq!(recorded, "0123456789abcdef0123");
    assert_eq!(recorded.len(), UPDATE_HASH_LEN);
    assert!(update_hash_matches(Some(&recorded), hash));
    assert!(!update_hash_matches(Some("something else"), hash));
    assert!(!update_hash_matches(None, hash));
    assert_eq!(partial_hash("abc"), "abc");
    assert_eq!(manifest_update_hash(true, true, Some("/h".to_string())), Some("/h".to_string()));
    assert_eq!(manifest_update_hash(false, true, Some("/h".to_string())), None);
    assert_eq!(manifest_update_hash(true, false, Some("/h".to_string())), None);
}

#[test]
fn insert_path_twice_changes_once() {
    let old = Some(s(&["/usr/bin", "/home/a/.cargo/bin"]));
    let pre = s(&["/home/z/.cargo/bin", "/home/a/.cargo/bin"]);
    let app = Some("/home/c/.cargo/bin".to_string());
    let once = insert_path(old, pre.clone(), app.clone());
    assert_eq!(once, s(&["/home/z/.cargo/bin", "/usr/bin", "/home/a/.cargo/bin", "/home/c/.cargo/bin"]));
    let twice = insert_path(Some(once.clone()), pre.clone(), app.clone());
    assert_eq!(twice, once);
    let fresh = insert_path(None, pre.clone(), None);
    assert_eq!(insert_path(Some(fresh.clone()), pre, None), fresh);
}

#[test]
fn download_retries_setting() {
    assert_eq!(rustup_dist::download::max_retries(None), 3);
    assert_eq!(rustup_dist::download::max_retries(Some("7")), 7);
    assert_eq!(rustup_dist::download::max_retries(Some("+0")), 0);
    assert_eq!(rustup_dist::download::max_retries(Some("-1")), 3);
    assert_eq!(rustup_dist::download::max_retries(Some("many")), 3);
    assert_eq!(rustup_dist::download::max_retries(Some("99999999999999999999999")), 3);
    for t in ["0", "18446744073709551615", "18446744073709551616", "", "+", "1_000"] {
        assert_eq!(rustup_dist::download::parse_usize(t), t.parse::<usize>().ok(), "{t:?}");
    }
}

#[test]
fn partial_and_cached_download_decisions() {
    assert_eq!(keep_partial_for_resume(false, true), KeepPartial::Nothing);
    assert_eq!(keep_partial_for_resume(true, true), KeepPartial::RemoveDuplicate);
    assert_eq!(keep_partial_for_resume(true, false), KeepPartial::MoveToShared);
    assert_eq!(cached_file(false, "aa", "aa"), CachedFile::Absent);
    assert_eq!(cached_file(true, "aa", "aa"), CachedFile::Reuse);
    assert_eq!(cached_file(true, "aa", "bb"), CachedFile::Remove);
}

#[test]
fn uninstall_keeps_running_binaries_for_last() {
    assert!(!uninstall_removes_bin_entry("rustc", ""));
    assert!(!uninstall_removes_bin_entry("multirust.exe", ".exe"));
    assert!(!uninstall_removes_bin_entry("rust-gdb", ""));
    assert!(uninstall_removes_bin_entry("rustfmt", ""));
    assert!(uninstall_removes_bin_entry("cargo", ".exe"));
    assert!(uninstall_removes_bin_entry("multirust-setup", ""));
}

use rustup_dist::download::{hash_url, signature_url, signature_warning, SignatureOutcome};
use rustup_dist::notifications::NotificationLevel;

#[test]
fn a_missing_or_bad_signature_is_warned_about() {
    let url = "https://static.rust-lang.org/dist/channel-rust-stable.toml";
    assert_eq!(signature_url(url), format!("{url}.asc"));
    assert_eq!(hash_url(url), format!("{url}.sha256"));
    assert!(signature_warning(url, SignatureOutcome::Verified).is_none());
    for outcome in [SignatureOutcome::Missing, SignatureOutcome::Invalid] {
        let n = signature_warning(url, outcome).unwrap();
        assert_eq!(n.level(), NotificationLevel::Warn);
        assert_eq!(n.message(), format!("Signature verification failed for '{url}'"));
    }
}
