use rustup_dist::package::{
    normalize_mode, split_lines, trim, unpack_destination, unpack_ram, validate_installer_version,
    DirectoryPackage, UnpackRamNotice, RAM_ALLOWANCE_FOR_RUSTUP_AND_BUFFERS,
};

#[test]
fn installer_version_must_be_three() {
    assert!(validate_installer_version("3").is_ok());
    assert!(validate_installer_version(" 3\n").is_ok());
    assert_eq!(validate_installer_version("2\n").unwrap_err(), "unsupported installer version: 2");
    assert_eq!(validate_installer_version("").unwrap_err(), "unsupported installer version: ");
}

#[test]
fn trimming_like_std() {
    for s in ["", "  ", " a b ", "\t\nx\r\n", "\u{3000}y\u{a0}", "z"] {
        assert_eq!(trim(s), s.trim());
    }
}

#[test]
fn lines_like_std() {
    for s in ["", "a", "a\n", "a\r\nb", "a\n\nb\n", "\n", "x\r", "one\ntwo\r\nthree"] {
        let expected: Vec<String> = s.lines().map(String::from).collect();
        assert_eq!(split_lines(s), expected, "input {s:?}");
    }
}

#[test]
fn directory_package_reads_component_list() {
    let p = DirectoryPackage::new("/tmp/pkg".to_string(), false, "3\n", "rustc\ncargo\nrustc\nrust-std-x86_64-unknown-linux-gnu\n").unwrap();
    assert_eq!(p.component_names(), vec!["rustc", "cargo", "rust-std-x86_64-unknown-linux-gnu"]);
    assert!(p.contains("cargo", None));
    assert!(p.contains("rust-std", Some("rustc")));
    assert!(!p.contains("rust-std", Some("rls")));
    assert_eq!(p.actual_name("rust-std-x86_64-unknown-linux-gnu", Some("rust-std")), "rust-std-x86_64-unknown-linux-gnu");
    assert_eq!(p.actual_name("rls-x86_64-unknown-linux-gnu", Some("rls")), "rls");
    assert!(DirectoryPackage::new("/tmp/pkg".to_string(), true, "4", "rustc").is_err());
}

#[test]
fn unpack_destinations_drop_the_top_directory() {
    assert_eq!(unpack_destination("/tmp/d", "rust-1.0/bin/rustc").unwrap(), Some("/tmp/d/bin/rustc".to_string()));
    assert_eq!(unpack_destination("/tmp/d", "rust-1.0/").unwrap(), None);
    assert_eq!(unpack_destination("/tmp/d", "rust-1.0").unwrap(), None);
    assert_eq!(unpack_destination("/tmp/d", "./rust-1.0/bin").unwrap(), Some("/tmp/d/rust-1.0/bin".to_string()));
    assert_eq!(unpack_destination("/tmp/d", "rust-1.0/./lib//x").unwrap(), Some("/tmp/d/lib/x".to_string()));
    assert_eq!(unpack_destination("/tmp/d", "rust-1.0/../etc/passwd").unwrap_err(), "tar path 'rust-1.0/../etc/passwd' is not supported");
    assert!(unpack_destination("/tmp/d", "/etc/passwd").is_err());
}

#[test]
fn modes_are_normalised() {
    assert_eq!(normalize_mode(0o700), 0o755);
    assert_eq!(normalize_mode(0o644), 0o644);
    assert_eq!(normalize_mode(0o777), 0o755);
    assert_eq!(normalize_mode(0o600), 0o644);
    assert_eq!(normalize_mode(0o100755), 0o755);
}

#[test]
fn unpack_ram_budget() {
    let chunk = 16 * 1024 * 1024;
    let min = chunk * 2;
    let avail = (1 << 32) - RAM_ALLOWANCE_FOR_RUSTUP_AND_BUFFERS;
    assert_eq!(unpack_ram(chunk, None, None), (min, Some(UnpackRamNotice::DefaultBufferSize(min))));
    assert_eq!(unpack_ram(chunk, Some(1 << 32), None), (avail, Some(UnpackRamNotice::DefaultBufferSize(avail))));
    assert_eq!(unpack_ram(chunk, Some(1 << 32), Some(1)), (min, Some(UnpackRamNotice::BelowMinimum(1, min))));
    assert_eq!(unpack_ram(chunk, Some(1 << 32), Some(1 << 40)), (avail, Some(UnpackRamNotice::AboveAvailable(1 << 40, avail))));
    assert_eq!(unpack_ram(chunk, Some(1 << 32), Some(min + 5)), (min + 5, None));
    assert_eq!(unpack_ram(chunk, Some(min), None).0, min);
}

#[test]
fn unpack_ram_warnings_read_as_expected() {
    assert_eq!(
        UnpackRamNotice::BelowMinimum(1, 33554432).warning().as_deref(),
        Some("Ignoring RUSTUP_UNPACK_RAM (1) less than minimum of 33554432.")
    );
    assert_eq!(
        UnpackRamNotice::AboveAvailable(1099511627776, 4085252096).warning().as_deref(),
        Some("Ignoring RUSTUP_UNPACK_RAM (1099511627776) greater than detected available RAM of 4085252096.")
    );
    assert_eq!(UnpackRamNotice::DefaultBufferSize(7).warning(), None);
}

#[test]
fn trimming_agrees_with_std_on_every_char() {
    for c in (0u32..0x3100).filter_map(char::from_u32) {
        let s = format!("{c}x{c}");
        assert_eq!(trim(&s), s.trim(), "char U+{:04X}", c as u32);
    }
}
