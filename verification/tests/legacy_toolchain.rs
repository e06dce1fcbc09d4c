use rustup_dist::legacy_toolchain::{get_host_triple, package_url, ToolchainDesc};

fn parts(name: &str) -> Option<(Option<String>, Option<String>, Option<String>, String, Option<String>)> {
    ToolchainDesc::from_str(name).ok().map(|d| (d.arch, d.os, d.env, d.channel, d.date))
}

fn s(x: &str) -> Option<String> {
    Some(x.to_string())
}

#[test]
fn legacy_names_are_read() {
    assert_eq!(parts("nightly"), Some((None, None, None, "nightly".to_string(), None)));
    assert_eq!(
        parts("x86_64-unknown-linux-gnu-nightly-2016-01-01"),
        Some((s("x86_64"), s("unknown-linux"), s("gnu"), "nightly".to_string(), s("2016-01-01")))
    );
    assert_eq!(parts("i686-beta"), Some((s("i686"), None, None, "beta".to_string(), None)));
    assert_eq!(parts("gnu-stable"), Some((None, None, s("gnu"), "stable".to_string(), None)));
    assert_eq!(parts("x86_64-msvc-1.2.3"), Some((s("x86_64"), None, s("msvc"), "1.2.3".to_string(), None)));
    assert_eq!(parts("pc-windows-gnu-1.10.0-2015-12-31"), Some((None, s("pc-windows"), s("gnu"), "1.10.0".to_string(), s("2015-12-31"))));
    assert_eq!(parts("apple-darwin-stable"), Some((None, s("apple-darwin"), None, "stable".to_string(), None)));
}

#[test]
fn legacy_names_are_refused() {
    for bad in [
        "", "foo", "nightly-", "1.100.0", "1.0", "stable-2016-1-01", "nightly-2016-01-011", "nightly-20160101",
        "unknown-linux-x86_64-nightly", "gnu-unknown-linux-nightly", "x86_64-", "beta2", "x86_64nightly",
        "1.2.3-beta", "-nightly",
    ] {
        assert!(ToolchainDesc::from_str(bad).is_err(), "{bad:?} should be refused");
    }
    assert_eq!(ToolchainDesc::from_str("foo").unwrap_err().message(), "invalid custom toolchain name: 'foo'");
}

#[test]
fn legacy_names_resolve_against_host() {
    let d = ToolchainDesc::from_str("nightly").unwrap();
    assert_eq!(d.target_triple("x86_64", "unknown-linux", Some("gnu")), "x86_64-unknown-linux-gnu");
    assert_eq!(d.full_spec("x86_64", "unknown-linux", Some("gnu")), "x86_64-unknown-linux-gnu-nightly (tracking)");
    assert!(d.is_tracking());
    let w = ToolchainDesc::from_str("pc-windows-stable-2016-03-03").unwrap();
    assert_eq!(w.target_triple("x86_64", "unknown-linux", Some("gnu")), "x86_64-pc-windows");
    assert_eq!(w.full_spec("i686", "unknown-linux", None), "i686-pc-windows-stable-2016-03-03");
    assert!(!w.is_tracking());
    let m = ToolchainDesc::from_str("i686-pc-windows-msvc-beta").unwrap();
    assert_eq!(m.target_triple("x86_64", "pc-windows", Some("gnu")), "i686-pc-windows-msvc");
    assert_eq!(m.to_display_string(), "i686-pc-windows-msvc-beta");
    assert_eq!(w.to_display_string(), "pc-windows-stable-2016-03-03");
}

#[test]
fn legacy_manifest_addresses() {
    let root = "https://static.rust-lang.org/dist";
    let d = ToolchainDesc::from_str("nightly").unwrap();
    assert_eq!(d.manifest_v1_url(root), "https://static.rust-lang.org/dist/channel-rust-nightly");
    assert_eq!(d.manifest_v2_url(root), "https://static.rust-lang.org/dist/channel-rust-nightly.toml");
    assert_eq!(d.package_dir(root), root);
    let t = ToolchainDesc::from_str("beta-2016-01-02").unwrap();
    assert_eq!(t.manifest_v1_url(root), "https://static.rust-lang.org/dist/2016-01-02/channel-rust-beta");
    assert_eq!(t.package_dir(root), "https://static.rust-lang.org/dist/2016-01-02");
}

#[test]
fn legacy_host_parts() {
    assert_eq!(get_host_triple("x86", "linux", Some("gnu")), ("i686".to_string(), "unknown-linux".to_string(), s("gnu")));
    assert_eq!(get_host_triple("x86_64", "windows", Some("msvc")), ("x86_64".to_string(), "pc-windows".to_string(), s("msvc")));
    assert_eq!(get_host_triple("aarch64", "macos", None), ("aarch64".to_string(), "apple-darwin".to_string(), None));
}

#[test]
fn legacy_package_url_from_v1_manifest() {
    let lines: Vec<String> = [
        "rust-docs-nightly-x86_64-unknown-linux-gnu.tar.gz",
        "rust-nightly-i686-unknown-linux-gnu.tar.gz",
        "rust-nightly-x86_64-unknown-linux-gnu.tar.gz",
        "rust-nightly-x86_64-unknown-linux-gnu.tar.gz.asc",
    ]
    .iter()
    .map(|s| s.to_string())
    .collect();
    let root = "https://static.rust-lang.org/dist/2016-01-01";
    assert_eq!(
        package_url(&lines, root, "rust-nightly", "x86_64-unknown-linux-gnu", ".tar.gz"),
        Some(format!("{root}/rust-nightly-x86_64-unknown-linux-gnu.tar.gz"))
    );
    assert_eq!(
        package_url(&lines, root, "rust-docs", "x86_64-unknown-linux-gnu", ".tar.gz"),
        Some(format!("{root}/rust-docs-nightly-x86_64-unknown-linux-gnu.tar.gz"))
    );
    assert_eq!(package_url(&lines, root, "rust", "aarch64-apple-darwin", ".tar.gz"), None);
}
