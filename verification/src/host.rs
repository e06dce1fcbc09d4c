//! Working out the triple of the machine the installer runs on, from
//! what the operating system reports.

use vstd::prelude::*;
use crate::text::{concat2, str_eq};
use crate::triple::TargetTriple;

verus! {

/// How the running build of the installer was configured: its C library,
/// its byte order, and whether it targets Android.
#[derive(Debug, Clone, Copy, PartialEq, Eq, Structural)]
pub struct BuildFlavor {
    pub musl: bool,
    pub big_endian: bool,
    pub android: bool,
}

/// The Linux triple for `arch` with the build's C library.
pub open spec fn linux_triple(arch: Seq<char>, musl: bool) -> Seq<char> {
    arch + (if musl { "-unknown-linux-musl"@ } else { "-unknown-linux-gnu"@ })
}

fn linux_triple_exec(arch: &str, musl: bool) -> (r: String)
    ensures
        r@ == linux_triple(arch@, musl),
{
    if musl {
        concat2(arch, "-unknown-linux-musl")
    } else {
        concat2(arch, "-unknown-linux-gnu")
    }
}

/// The host triple for an operating system name and machine name as
/// `uname` reports them, on a build that does not target Android. An
/// `aarch64` Linux kernel with a 32-bit user space counts as ARMv7.
pub open spec fn uname_triple(sysname: Seq<char>, machine: Seq<char>, is_32bit_userspace: bool, f: BuildFlavor) -> Option<Seq<char>> {
    if sysname == "Linux"@ && machine == "x86_64"@ {
        Some(linux_triple("x86_64"@, f.musl))
    } else if sysname == "Linux"@ && machine == "i686"@ {
        Some("i686-unknown-linux-gnu"@)
    } else if sysname == "Linux"@ && machine == "mips"@ {
        Some((if f.big_endian { "mips-unknown-linux-gnu"@ } else { "mipsel-unknown-linux-gnu"@ }))
    } else if sysname == "Linux"@ && machine == "mips64"@ {
        Some((if f.big_endian { "mips64-unknown-linux-gnuabi64"@ } else { "mips64el-unknown-linux-gnuabi64"@ }))
    } else if sysname == "Linux"@ && machine == "arm"@ {
        Some("arm-unknown-linux-gnueabi"@)
    } else if sysname == "Linux"@ && machine == "armv7l"@ {
        Some("armv7-unknown-linux-gnueabihf"@)
    } else if sysname == "Linux"@ && machine == "armv8l"@ {
        Some("armv7-unknown-linux-gnueabihf"@)
    } else if sysname == "Linux"@ && machine == "aarch64"@ {
        Some((if is_32bit_userspace { "armv7-unknown-linux-gnueabihf"@ } else { linux_triple("aarch64"@, f.musl) }))
    } else if sysname == "Linux"@ && machine == "loongarch64"@ {
        Some(linux_triple("loongarch64"@, f.musl))
    } else if sysname == "Linux"@ && machine == "ppc64le"@ {
        Some(linux_triple("powerpc64le"@, f.musl))
    } else if sysname == "Darwin"@ && machine == "x86_64"@ {
        Some("x86_64-apple-darwin"@)
    } else if sysname == "Darwin"@ && machine == "i686"@ {
        Some("i686-apple-darwin"@)
    } else if sysname == "FreeBSD"@ && machine == "x86_64"@ {
        Some("x86_64-unknown-freebsd"@)
    } else if sysname == "FreeBSD"@ && machine == "i686"@ {
        Some("i686-unknown-freebsd"@)
    } else if sysname == "OpenBSD"@ && machine == "x86_64"@ {
        Some("x86_64-unknown-openbsd"@)
    } else if sysname == "OpenBSD"@ && machine == "i686"@ {
        Some("i686-unknown-openbsd"@)
    } else if sysname == "NetBSD"@ && machine == "x86_64"@ {
        Some("x86_64-unknown-netbsd"@)
    } else if sysname == "NetBSD"@ && machine == "i686"@ {
        Some("i686-unknown-netbsd"@)
    } else if sysname == "DragonFly"@ && machine == "x86_64"@ {
        Some("x86_64-unknown-dragonfly"@)
    } else if sysname == "SunOS"@ && machine == "i86pc"@ {
        Some("x86_64-unknown-illumos"@)
    } else {
        None
    }
}

/// The host triple for a machine name, on a build that targets Android.
pub open spec fn android_triple(machine: Seq<char>) -> Option<Seq<char>> {
    if machine == "arm"@ {
        Some("arm-linux-androideabi"@)
    } else if machine == "armv7l"@ {
        Some("armv7-linux-androideabi"@)
    } else if machine == "armv8l"@ {
        Some("armv7-linux-androideabi"@)
    } else if machine == "aarch64"@ {
        Some("aarch64-linux-android"@)
    } else if machine == "i686"@ {
        Some("i686-linux-android"@)
    } else if machine == "x86_64"@ {
        Some("x86_64-linux-android"@)
    } else {
        None
    }
}

/// The host triple from `uname`'s report; see [`uname_triple`] and
/// [`android_triple`].
pub fn triple_from_uname(sysname: &str, machine: &str, is_32bit_userspace: bool, f: BuildFlavor) -> (r: Option<TargetTriple>)
    ensures
        r is Some <==> (if f.android { android_triple(machine@) } else { uname_triple(sysname@, machine@, is_32bit_userspace, f) }) is Some,
        r matches Some(t) ==> (if f.android { android_triple(machine@) } else { uname_triple(sysname@, machine@, is_32bit_userspace, f) }) == Some(t@),
{
    let name = if f.android {
        android_name(machine)
    } else {
        uname_name(sysname, machine, is_32bit_userspace, f)
    };
    match name {
        Some(n) => Some(TargetTriple::from_string(n)),
        None => None,
    }
}

fn uname_name(sysname: &str, machine: &str, is_32bit_userspace: bool, f: BuildFlavor) -> (r: Option<String>)
    ensures
        r is Some <==> uname_triple(sysname@, machine@, is_32bit_userspace, f) is Some,
        r matches Some(s) ==> uname_triple(sysname@, machine@, is_32bit_userspace, f) == Some(s@),
{
    if str_eq(sysname, "Linux") && str_eq(machine, "x86_64") {
        Some(linux_triple_exec("x86_64", f.musl))
    } else if str_eq(sysname, "Linux") && str_eq(machine, "i686") {
        Some("i686-unknown-linux-gnu".to_owned())
    } else if str_eq(sysname, "Linux") && str_eq(machine, "mips") {
        Some((if f.big_endian { "mips-unknown-linux-gnu".to_owned() } else { "mipsel-unknown-linux-gnu".to_owned() }))
    } else if str_eq(sysname, "Linux") && str_eq(machine, "mips64") {
        Some((if f.big_endian { "mips64-unknown-linux-gnuabi64".to_owned() } else { "mips64el-unknown-linux-gnuabi64".to_owned() }))
    } else if str_eq(sysname, "Linux") && str_eq(machine, "arm") {
        Some("arm-unknown-linux-gnueabi".to_owned())
    } else if str_eq(sysname, "Linux") && str_eq(machine, "armv7l") {
        Some("armv7-unknown-linux-gnueabihf".to_owned())
    } else if str_eq(sysname, "Linux") && str_eq(machine, "armv8l") {
        Some("armv7-unknown-linux-gnueabihf".to_owned())
    } else if str_eq(sysname, "Linux") && str_eq(machine, "aarch64") {
        Some((if is_32bit_userspace { "armv7-unknown-linux-gnueabihf".to_owned() } else { linux_triple_exec("aarch64", f.musl) }))
    } else if str_eq(sysname, "Linux") && str_eq(machine, "loongarch64") {
        Some(linux_triple_exec("loongarch64", f.musl))
    } else if str_eq(sysname, "Linux") && str_eq(machine, "ppc64le") {
        Some(linux_triple_exec("powerpc64le", f.musl))
    } else if str_eq(sysname, "Darwin") && str_eq(machine, "x86_64") {
        Some("x86_64-apple-darwin".to_owned())
    } else if str_eq(sysname, "Darwin") && str_eq(machine, "i686") {
        Some("i686-apple-darwin".to_owned())
    } else if str_eq(sysname, "FreeBSD") && str_eq(machine, "x86_64") {
        Some("x86_64-unknown-freebsd".to_owned())
    } else if str_eq(sysname, "FreeBSD") && str_eq(machine, "i686") {
        Some("i686-unknown-freebsd".to_owned())
    } else if str_eq(sysname, "OpenBSD") && str_eq(machine, "x86_64") {
        Some("x86_64-unknown-openbsd".to_owned())
    } else if str_eq(sysname, "OpenBSD") && str_eq(machine, "i686") {
        Some("i686-unknown-openbsd".to_owned())
    } else if str_eq(sysname, "NetBSD") && str_eq(machine, "x86_64") {
        Some("x86_64-unknown-netbsd".to_owned())
    } else if str_eq(sysname, "NetBSD") && str_eq(machine, "i686") {
        Some("i686-unknown-netbsd".to_owned())
    } else if str_eq(sysname, "DragonFly") && str_eq(machine, "x86_64") {
        Some("x86_64-unknown-dragonfly".to_owned())
    } else if str_eq(sysname, "SunOS") && str_eq(machine, "i86pc") {
        Some("x86_64-unknown-illumos".to_owned())
    } else {
        None
    }
}

fn android_name(machine: &str) -> (r: Option<String>)
    ensures
        r is Some <==> android_triple(machine@) is Some,
        r matches Some(s) ==> android_triple(machine@) == Some(s@),
{
    if str_eq(machine, "arm") {
        Some("arm-linux-androideabi".to_owned())
    } else if str_eq(machine, "armv7l") {
        Some("armv7-linux-androideabi".to_owned())
    } else if str_eq(machine, "armv8l") {
        Some("armv7-linux-androideabi".to_owned())
    } else if str_eq(machine, "aarch64") {
        Some("aarch64-linux-android".to_owned())
    } else if str_eq(machine, "i686") {
        Some("i686-linux-android".to_owned())
    } else if str_eq(machine, "x86_64") {
        Some("x86_64-linux-android".to_owned())
    } else {
        None
    }
}

/// The first bytes of a 32-bit ELF file.
pub open spec fn elf32_magic() -> Seq<u8> {
    seq![0x7fu8, 0x45u8, 0x4cu8, 0x46u8, 0x01u8]
}

/// Whether the user space is 32-bit, judged from the first five bytes of
/// the system shell (`None` when they could not be read, in which case the
/// installer's own pointer width decides).
pub fn is_32bit_userspace(shell_header: &Option<Vec<u8>>, pointer_width_32: bool) -> (r: bool)
    ensures
        r == (match shell_header {
            Some(h) => h@ == elf32_magic(),
            None => pointer_width_32,
        }),
{
    match shell_header {
        Some(h) => {
            if h.len() != 5 {
                return false;
            }
            let same = h[0] == 0x7fu8 && h[1] == 0x45u8 && h[2] == 0x4cu8 && h[3] == 0x46u8 && h[4] == 0x01u8;
            proof {
                if same {
                    assert(h@ =~= elf32_magic());
                }
            }
            same
        },
        None => pointer_width_32,
    }
}

/// The Windows architecture name for a native machine code as
/// `IsWow64Process2` reports it.
pub open spec fn native_machine_arch(code: u16) -> Option<Seq<char>> {
    if code == 0x8664 {
        Some("x86_64"@)
    } else if code == 0x014c {
        Some("i686"@)
    } else if code == 0xAA64 {
        Some("aarch64"@)
    } else {
        None
    }
}

/// The Windows architecture name for a processor architecture code as
/// `GetNativeSystemInfo` reports it (which knows no `aarch64`).
pub open spec fn processor_arch(code: u16) -> Option<Seq<char>> {
    if code == 9 {
        Some("x86_64"@)
    } else if code == 0 {
        Some("i686"@)
    } else {
        None
    }
}

/// The host triple on Windows: the MSVC triple for the architecture that
/// `IsWow64Process2` reports (`native_machine`, `None` where the call is
/// not available), else for the one `GetNativeSystemInfo` reports.
pub fn windows_host_triple(native_machine: Option<u16>, processor_architecture: u16) -> (r: Option<TargetTriple>)
    ensures
        ({
            let arch = match native_machine {
                Some(m) => match native_machine_arch(m) {
                    Some(a) => Some(a),
                    None => processor_arch(processor_architecture),
                },
                None => processor_arch(processor_architecture),
            };
            &&& r is Some <==> arch is Some
            &&& r matches Some(t) ==> arch matches Some(a) && t@ == a + "-pc-windows-msvc"@
        }),
{
    let primary: Option<&str> = match native_machine {
        Some(m) => if m == 0x8664u16 {
            Some("x86_64")
        } else if m == 0x014cu16 {
            Some("i686")
        } else if m == 0xAA64u16 {
            Some("aarch64")
        } else {
            None
        },
        None => None,
    };
    let arch: Option<&str> = match primary {
        Some(a) => Some(a),
        None => if processor_architecture == 9u16 {
            Some("x86_64")
        } else if processor_architecture == 0u16 {
            Some("i686")
        } else {
            None
        },
    };
    match arch {
        Some(a) => Some(TargetTriple::from_string(concat2(a, "-pc-windows-msvc"))),
        None => None,
    }
}

/// The host triple: the one given by the override variable when set, else
/// the one detected.
pub fn host_triple(override_triple: Option<String>, detected: Option<TargetTriple>) -> (r: Option<TargetTriple>)
    ensures
        r is Some <==> (override_triple is Some || detected is Some),
        r matches Some(t) ==> t@ == (match override_triple {
            Some(o) => o@,
            None => detected->Some_0@,
        }),
{
    match override_triple {
        Some(o) => Some(TargetTriple::from_string(o)),
        None => detected,
    }
}

} // verus!
