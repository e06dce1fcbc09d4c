//! The tools that the installer stands in for (its proxies) and the
//! components that provide them.

use vstd::prelude::*;
use crate::text::{concat3, join_strings, join_with, str_eq, substring, texts_view};

verus! {

/// The programs the installer proxies.
pub open spec fn tools_spec() -> Seq<Seq<char>> {
    seq!["rustc"@, "rustdoc"@, "cargo"@, "rust-lldb"@, "rust-gdb"@, "rust-gdbgui"@, "rls"@, "cargo-clippy"@, "clippy-driver"@, "cargo-miri"@]
}

/// Programs that Cargo installs as well, which the installer takes care
/// not to overwrite.
pub open spec fn dup_tools_spec() -> Seq<Seq<char>> {
    seq!["rust-analyzer"@, "rustfmt"@, "cargo-fmt"@]
}

/// The programs the installer proxies; see [`tools_spec`].
pub fn tools() -> (r: Vec<&'static str>)
    ensures
        r@.map_values(|s: &str| s@) == tools_spec(),
{
    let mut v: Vec<&'static str> = Vec::new();
    v.push("rustc");
    v.push("rustdoc");
    v.push("cargo");
    v.push("rust-lldb");
    v.push("rust-gdb");
    v.push("rust-gdbgui");
    v.push("rls");
    v.push("cargo-clippy");
    v.push("clippy-driver");
    v.push("cargo-miri");
    assert(v@.map_values(|s: &str| s@) =~= tools_spec());
    v
}

/// Programs also installed by Cargo; see [`dup_tools_spec`].
pub fn dup_tools() -> (r: Vec<&'static str>)
    ensures
        r@.map_values(|s: &str| s@) == dup_tools_spec(),
{
    let mut v: Vec<&'static str> = Vec::new();
    v.push("rust-analyzer");
    v.push("rustfmt");
    v.push("cargo-fmt");
    assert(v@.map_values(|s: &str| s@) =~= dup_tools_spec());
    v
}

/// The message for a name that is not a proxy: the name, then every proxy
/// name quoted, in order.
pub open spec fn unknown_proxy_msg(tool: Seq<char>) -> Seq<char> {
    "unknown proxy name: '"@ + tool + "'; valid proxy names are "@
        + join_with((tools_spec() + dup_tools_spec()).map_values(|s: Seq<char>| "'"@ + s + "'"@), ", "@)
}

/// Accepts the name of a program the installer proxies; refuses any other
/// with the message [`unknown_proxy_msg`].
pub fn is_proxyable_tools(tool: &str) -> (r: Result<(), String>)
    ensures
        r is Ok <==> (tools_spec() + dup_tools_spec()).contains(tool@),
        r matches Err(msg) ==> msg@ == unknown_proxy_msg(tool@),
{
    let mut all = tools();
    let mut d = dup_tools();
    let ghost a0 = all@;
    let ghost d0 = d@;
    all.append(&mut d);
    let ghost names = all@.map_values(|s: &str| s@);
    assert(names =~= a0.map_values(|s: &str| s@) + d0.map_values(|s: &str| s@));
    assert(names == tools_spec() + dup_tools_spec());
    let mut i: usize = 0;
    while i < all.len()
        invariant
            names == all@.map_values(|s: &str| s@),
            names == tools_spec() + dup_tools_spec(),
            i <= all@.len(),
            forall|j: int| 0 <= j < i ==> names[j] != tool@,
        decreases all@.len() - i,
    {
        if str_eq(all[i], tool) {
            assert(names[i as int] == tool@);
            return Ok(());
        }
        i = i + 1;
    }
    let mut quoted: Vec<String> = Vec::new();
    let mut k: usize = 0;
    while k < all.len()
        invariant
            names == all@.map_values(|s: &str| s@),
            names == tools_spec() + dup_tools_spec(),
            k <= all@.len(),
            quoted@.len() == k,
            forall|j: int| 0 <= j < k ==> (#[trigger] texts_view(quoted@)[j]) == "'"@ + names[j] + "'"@,
        decreases all@.len() - k,
    {
        let ghost q0 = quoted@;
        quoted.push(concat3("'", all[k], "'"));
        assert(texts_view(quoted@) =~= texts_view(q0).push("'"@ + names[k as int] + "'"@));
        k = k + 1;
    }
    assert(texts_view(quoted@) =~= names.map_values(|s: Seq<char>| "'"@ + s + "'"@));
    let joined = join_strings(&quoted, ", ");
    let mut msg = concat3("unknown proxy name: '", tool, "'; valid proxy names are ");
    msg.append(joined.as_str());
    Err(msg)
}

/// The component that provides a program, by its name without the
/// platform's executable suffix.
pub open spec fn component_for_name(name: Seq<char>) -> Option<Seq<char>> {
    if name == "rustc"@ {
        Some("rustc"@)
    } else if name == "rustdoc"@ {
        Some("rustc"@)
    } else if name == "cargo"@ {
        Some("cargo"@)
    } else if name == "rust-lldb"@ {
        Some("rustc"@)
    } else if name == "rust-gdb"@ {
        Some("rustc"@)
    } else if name == "rust-gdbgui"@ {
        Some("rustc"@)
    } else if name == "rls"@ {
        Some("rls"@)
    } else if name == "cargo-clippy"@ {
        Some("clippy"@)
    } else if name == "clippy-driver"@ {
        Some("clippy"@)
    } else if name == "cargo-miri"@ {
        Some("miri"@)
    } else if name == "rustfmt"@ {
        Some("rustfmt"@)
    } else if name == "cargo-fmt"@ {
        Some("rustfmt"@)
    } else {
        None
    }
}

/// The name of a program without the executable suffix `suffix`, when it
/// ends with it.
pub open spec fn without_suffix(binary: Seq<char>, suffix: Seq<char>) -> Seq<char> {
    if suffix.len() <= binary.len() && binary.subrange(binary.len() - suffix.len(), binary.len() as int) == suffix {
        binary.subrange(0, binary.len() - suffix.len())
    } else {
        binary
    }
}

fn component_for_name_exec(name: &str) -> (r: Option<&'static str>)
    ensures
        r is Some <==> component_for_name(name@) is Some,
        r matches Some(c) ==> component_for_name(name@) == Some(c@),
{
    if str_eq(name, "rustc") {
        Some("rustc")
    } else if str_eq(name, "rustdoc") {
        Some("rustc")
    } else if str_eq(name, "cargo") {
        Some("cargo")
    } else if str_eq(name, "rust-lldb") {
        Some("rustc")
    } else if str_eq(name, "rust-gdb") {
        Some("rustc")
    } else if str_eq(name, "rust-gdbgui") {
        Some("rustc")
    } else if str_eq(name, "rls") {
        Some("rls")
    } else if str_eq(name, "cargo-clippy") {
        Some("clippy")
    } else if str_eq(name, "clippy-driver") {
        Some("clippy")
    } else if str_eq(name, "cargo-miri") {
        Some("miri")
    } else if str_eq(name, "rustfmt") {
        Some("rustfmt")
    } else if str_eq(name, "cargo-fmt") {
        Some("rustfmt")
    } else {
        None
    }
}

/// The component that provides the program `binary`; see
/// [`component_for_name`]. `exe_suffix` is the platform's suffix of
/// executables (empty on Unix).
pub fn component_for_bin(binary: &str, exe_suffix: &str) -> (r: Option<&'static str>)
    ensures
        r is Some <==> component_for_name(without_suffix(binary@, exe_suffix@)) is Some,
        r matches Some(c) ==> component_for_name(without_suffix(binary@, exe_suffix@)) == Some(c@),
{
    let n = binary.unicode_len();
    let m = exe_suffix.unicode_len();
    if m <= n {
        let tail = substring(binary, n - m, n);
        if str_eq(tail.as_str(), exe_suffix) {
            let stem = substring(binary, 0, n - m);
            return component_for_name_exec(stem.as_str());
        }
    }
    component_for_name_exec(binary)
}

} // verus!
