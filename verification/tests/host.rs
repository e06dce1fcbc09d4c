use rustup_dist::host::{host_triple, is_32bit_userspace, triple_from_uname, windows_host_triple, BuildFlavor};
use rustup_dist::triple::TargetTriple;

const GNU: BuildFlavor = BuildFlavor { musl: false, big_endian: false, android: false };

fn name(t: Option<TargetTriple>) -> Option<String> {
    t.map(|t| t.as_str().to_string())
}

#[test]
fn linux_hosts() {
    assert_eq!(name(triple_from_uname("Linux", "x86_64", false, GNU)), Some("x86_64-unknown-linux-gnu".to_string()));
    let musl = BuildFlavor { musl: true, ..GNU };
    assert_eq!(name(triple_from_uname("Linux", "x86_64", false, musl)), Some("x86_64-unknown-linux-musl".to_string()));
    assert_eq!(name(triple_from_uname("Linux", "aarch64", false, GNU)), Some("aarch64-unknown-linux-gnu".to_string()));
    assert_eq!(name(triple_from_uname("Linux", "aarch64", true, GNU)), Some("armv7-unknown-linux-gnueabihf".to_string()));
    assert_eq!(name(triple_from_uname("Linux", "mips", false, GNU)), Some("mipsel-unknown-linux-gnu".to_string()));
    let big = BuildFlavor { big_endian: true, ..GNU };
    assert_eq!(name(triple_from_uname("Linux", "mips64", false, big)), Some("mips64-unknown-linux-gnuabi64".to_string()));
    assert_eq!(name(triple_from_uname("Linux", "sparc", false, GNU)), None);
}

#[test]
fn other_unix_hosts() {
    assert_eq!(name(triple_from_uname("Darwin", "x86_64", false, GNU)), Some("x86_64-apple-darwin".to_string()));
    assert_eq!(name(triple_from_uname("SunOS", "i86pc", false, GNU)), Some("x86_64-unknown-illumos".to_string()));
    assert_eq!(name(triple_from_uname("FreeBSD", "i686", false, GNU)), Some("i686-unknown-freebsd".to_string()));
    let android = BuildFlavor { android: true, ..GNU };
    assert_eq!(name(triple_from_uname("Linux", "armv8l", false, android)), Some("armv7-linux-androideabi".to_string()));
    assert_eq!(name(triple_from_uname("Linux", "mips", false, android)), None);
}

#[test]
fn windows_hosts() {
    assert_eq!(name(windows_host_triple(Some(0xAA64), 9)), Some("aarch64-pc-windows-msvc".to_string()));
    assert_eq!(name(windows_host_triple(Some(0x1234), 0)), Some("i686-pc-windows-msvc".to_string()));
    assert_eq!(name(windows_host_triple(None, 9)), Some("x86_64-pc-windows-msvc".to_string()));
    assert_eq!(name(windows_host_triple(None, 5)), None);
}

#[test]
fn elf_header_decides_userspace_width() {
    assert!(is_32bit_userspace(&Some(vec![0x7f, b'E', b'L', b'F', 1]), false));
    assert!(!is_32bit_userspace(&Some(vec![0x7f, b'E', b'L', b'F', 2]), true));
    assert!(is_32bit_userspace(&None, true));
    assert!(!is_32bit_userspace(&None, false));
}

#[test]
fn override_wins() {
    assert_eq!(name(host_triple(Some("riscv64gc-unknown-linux-gnu".to_string()), Some(TargetTriple::new("x")))), Some("riscv64gc-unknown-linux-gnu".to_string()));
    assert_eq!(name(host_triple(None, Some(TargetTriple::new("x")))), Some("x".to_string()));
    assert_eq!(name(host_triple(None, None)), None);
}
