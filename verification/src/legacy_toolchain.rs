//! Toolchain names of the older front end: an optional architecture,
//! operating system and environment, each followed by `-`, then a channel
//! (`nightly`, `beta`, `stable`, or a version `D.D.D` or `D.DD.D`), then
//! optionally `-` and a date `DDDD-DD-DD`; and what such a name resolves
//! to: the target triple, the manifest addresses and the full name.

use vstd::prelude::*;
use crate::text::{char_is, concat2, concat3, digits_at, digits_in, occurs_at, starts_with, str_eq, substring};

verus! {

/// Whether `lit` occurs in `s` at position `i`.
pub open spec fn lit_at(s: Seq<char>, i: int, lit: Seq<char>) -> bool {
    0 <= i && i + lit.len() <= s.len() && s.subrange(i, i + lit.len()) == lit
}

/// Whether position `i` of `s` holds `c`.
pub open spec fn char_at(s: Seq<char>, i: int, c: char) -> bool {
    0 <= i < s.len() && s[i] == c
}

/// Whether `tok` followed by `-` occurs in `s` at position `i`.
pub open spec fn tok_dash_at(s: Seq<char>, i: int, tok: Seq<char>) -> bool {
    lit_at(s, i, tok) && char_at(s, i + tok.len(), '-')
}

/// The architecture at position `i`, if one followed by `-` is there.
pub open spec fn arch_tok(s: Seq<char>, i: int) -> Option<Seq<char>> {
    if tok_dash_at(s, i, "i686"@) {
        Some("i686"@)
    } else if tok_dash_at(s, i, "x86_64"@) {
        Some("x86_64"@)
    } else {
        None
    }
}

/// The operating system at position `i`, if one followed by `-` is there.
pub open spec fn os_tok(s: Seq<char>, i: int) -> Option<Seq<char>> {
    if tok_dash_at(s, i, "pc-windows"@) {
        Some("pc-windows"@)
    } else if tok_dash_at(s, i, "unknown-linux"@) {
        Some("unknown-linux"@)
    } else if tok_dash_at(s, i, "apple-darwin"@) {
        Some("apple-darwin"@)
    } else {
        None
    }
}

/// The environment at position `i`, if one followed by `-` is there.
pub open spec fn env_tok(s: Seq<char>, i: int) -> Option<Seq<char>> {
    if tok_dash_at(s, i, "gnu"@) {
        Some("gnu"@)
    } else if tok_dash_at(s, i, "msvc"@) {
        Some("msvc"@)
    } else {
        None
    }
}

/// The position after an optional part and its `-`.
pub open spec fn after_tok(i: int, t: Option<Seq<char>>) -> int {
    match t {
        Some(x) => i + x.len() + 1,
        None => i,
    }
}

/// The length of the channel at position `i`: a channel name, or a
/// version of one digit, `.`, one or two digits, `.`, one digit.
pub open spec fn channel_len_at(s: Seq<char>, i: int) -> Option<int> {
    if lit_at(s, i, "nightly"@) {
        Some(7)
    } else if lit_at(s, i, "beta"@) {
        Some(4)
    } else if lit_at(s, i, "stable"@) {
        Some(6)
    } else if digits_in(s, i, 1) && char_at(s, i + 1, '.') && digits_in(s, i + 2, 1) && char_at(s, i + 3, '.') && digits_in(s, i + 4, 1) {
        Some(5)
    } else if digits_in(s, i, 1) && char_at(s, i + 1, '.') && digits_in(s, i + 2, 2) && char_at(s, i + 4, '.') && digits_in(s, i + 5, 1) {
        Some(6)
    } else {
        None
    }
}

/// Whether a date `DDDD-DD-DD` is at position `i` and ends `s`.
pub open spec fn date_ends_at(s: Seq<char>, i: int) -> bool {
    i + 10 == s.len() && digits_in(s, i, 4) && char_at(s, i + 4, '-') && digits_in(s, i + 5, 2)
        && char_at(s, i + 7, '-') && digits_in(s, i + 8, 2)
}

/// The abstract value of a toolchain name: architecture, operating
/// system, environment, channel and date.
pub type LegacyDescV = (Option<Seq<char>>, Option<Seq<char>>, Option<Seq<char>>, Seq<char>, Option<Seq<char>>);

/// How a toolchain name is read (see the module documentation); `None`
/// when it does not have that shape. The parts are told apart by their
/// words, so a name is read in one way only.
pub open spec fn legacy_desc_spec(s: Seq<char>) -> Option<LegacyDescV> {
    let a = arch_tok(s, 0);
    let i1 = after_tok(0, a);
    let o = os_tok(s, i1);
    let i2 = after_tok(i1, o);
    let e = env_tok(s, i2);
    let i3 = after_tok(i2, e);
    match channel_len_at(s, i3) {
        Some(n) => {
            let ch = s.subrange(i3, i3 + n);
            let j = i3 + n;
            if j == s.len() {
                Some((a, o, e, ch, None))
            } else if char_at(s, j, '-') && date_ends_at(s, j + 1) {
                Some((a, o, e, ch, Some(s.subrange(j + 1, s.len() as int))))
            } else {
                None
            }
        },
        None => None,
    }
}

/// A toolchain name of the older front end.
#[derive(Debug)]
pub struct ToolchainDesc {
    pub arch: Option<String>,
    pub os: Option<String>,
    pub env: Option<String>,
    pub channel: String,
    pub date: Option<String>,
}

/// The abstract value of an optional string.
pub open spec fn opt_view(o: Option<String>) -> Option<Seq<char>> {
    match o {
        Some(x) => Some(x@),
        None => None,
    }
}

impl View for ToolchainDesc {
    type V = LegacyDescV;

    open spec fn view(&self) -> LegacyDescV {
        (opt_view(self.arch), opt_view(self.os), opt_view(self.env), self.channel@, opt_view(self.date))
    }
}

/// A name that is not a toolchain name of the older front end.
#[derive(Debug)]
pub struct InvalidToolchainName {
    pub name: String,
}

impl InvalidToolchainName {
    /// The error message: `invalid custom toolchain name: 'NAME'`.
    pub fn message(&self) -> (r: String)
        ensures
            r@ == "invalid custom toolchain name: '"@ + self.name@ + "'"@,
    {
        concat3("invalid custom toolchain name: '", self.name.as_str(), "'")
    }
}

fn tok_dash(s: &str, i: usize, tok: &str) -> (r: bool)
    ensures
        r == tok_dash_at(s@, i as int, tok@),
{
    let n = s.unicode_len();
    if !occurs_at(s, i, tok) {
        return false;
    }
    let m = tok.unicode_len();
    char_is(s, i + m, '-')
}

fn take_tok(s: &str, i: usize, toks: &Vec<&str>) -> (r: Option<String>)
    requires
        i <= s@.len(),
    ensures
        r matches Some(t) ==> exists|k: int| 0 <= k < toks@.len() && toks@[k]@ == t@ && tok_dash_at(s@, i as int, t@)
            && forall|j: int| 0 <= j < k ==> !tok_dash_at(s@, i as int, (#[trigger] toks@[j])@),
        r is None ==> forall|j: int| 0 <= j < toks@.len() ==> !tok_dash_at(s@, i as int, (#[trigger] toks@[j])@),
{
    let mut k: usize = 0;
    while k < toks.len()
        invariant
            i <= s@.len(),
            k <= toks@.len(),
            forall|j: int| 0 <= j < k ==> !tok_dash_at(s@, i as int, (#[trigger] toks@[j])@),
        decreases toks@.len() - k,
    {
        if tok_dash(s, i, toks[k]) {
            return Some(toks[k].to_owned());
        }
        k = k + 1;
    }
    None
}

fn channel_len(s: &str, i: usize) -> (r: Option<usize>)
    requires
        i <= s@.len(),
    ensures
        match channel_len_at(s@, i as int) {
            Some(n) => r == Some(n as usize) && i + n <= s@.len(),
            None => r is None,
        },
{
    let n = s.unicode_len();
    if occurs_at(s, i, "nightly") {
        proof { reveal_strlit("nightly"); }
        Some(7)
    } else if occurs_at(s, i, "beta") {
        proof { reveal_strlit("beta"); }
        Some(4)
    } else if occurs_at(s, i, "stable") {
        proof { reveal_strlit("stable"); }
        Some(6)
    } else if digits_at(s, i, 1) && char_is(s, i + 1, '.') && digits_at(s, i + 2, 1) && char_is(s, i + 3, '.') && digits_at(s, i + 4, 1) {
        Some(5)
    } else if digits_at(s, i, 1) && char_is(s, i + 1, '.') && digits_at(s, i + 2, 2) && char_is(s, i + 4, '.') && digits_at(s, i + 5, 1) {
        Some(6)
    } else {
        None
    }
}

fn date_ends(s: &str, i: usize) -> (r: bool)
    ensures
        r == date_ends_at(s@, i as int),
{
    let n = s.unicode_len();
    n >= 10 && i == n - 10 && digits_at(s, i, 4) && char_is(s, i + 4, '-') && digits_at(s, i + 5, 2)
        && char_is(s, i + 7, '-') && digits_at(s, i + 8, 2)
}

fn arch_part(s: &str) -> (r: Option<String>)
    ensures
        opt_view(r) == arch_tok(s@, 0),
{
    let archs: Vec<&str> = vec!["i686", "x86_64"];
    proof {
        reveal_strlit("i686");
        reveal_strlit("x86_64");
    }
    let a = take_tok(s, 0, &archs);
    assert(archs@[0]@ == "i686"@);
    assert(archs@[1]@ == "x86_64"@);
    a
}

fn os_part(s: &str, i: usize) -> (r: Option<String>)
    requires
        i <= s@.len(),
    ensures
        opt_view(r) == os_tok(s@, i as int),
{
    let oses: Vec<&str> = vec!["pc-windows", "unknown-linux", "apple-darwin"];
    proof {
        reveal_strlit("pc-windows");
        reveal_strlit("unknown-linux");
        reveal_strlit("apple-darwin");
    }
    let o = take_tok(s, i, &oses);
    assert(oses@[0]@ == "pc-windows"@);
    assert(oses@[1]@ == "unknown-linux"@);
    assert(oses@[2]@ == "apple-darwin"@);
    o
}

fn env_part(s: &str, i: usize) -> (r: Option<String>)
    requires
        i <= s@.len(),
    ensures
        opt_view(r) == env_tok(s@, i as int),
{
    let envs: Vec<&str> = vec!["gnu", "msvc"];
    proof {
        reveal_strlit("gnu");
        reveal_strlit("msvc");
    }
    let e = take_tok(s, i, &envs);
    assert(envs@[0]@ == "gnu"@);
    assert(envs@[1]@ == "msvc"@);
    e
}

fn after_part(s: &str, i: usize, t: &Option<String>) -> (r: usize)
    requires
        i <= s@.len(),
        t matches Some(x) ==> tok_dash_at(s@, i as int, x@),
    ensures
        r == after_tok(i as int, opt_view(*t)),
        r <= s@.len(),
{
    let n = s.unicode_len();
    match t {
        Some(x) => {
            let m = x.unicode_len();
            assert(i + m < n);
            i + m + 1
        },
        None => i,
    }
}

impl ToolchainDesc {
    /// Reads a toolchain name; see [`legacy_desc_spec`]. A name of another
    /// shape is refused.
    pub fn from_str(name: &str) -> (r: Result<ToolchainDesc, InvalidToolchainName>)
        ensures
            r is Ok <==> legacy_desc_spec(name@) is Some,
            r matches Ok(d) ==> legacy_desc_spec(name@) == Some(d@),
            r matches Err(e) ==> e.name@ == name@,
    {
        let s = name;
        let a = arch_part(s);
        let i1 = after_part(s, 0, &a);
        let o = os_part(s, i1);
        let i2 = after_part(s, i1, &o);
        let e = env_part(s, i2);
        let i3 = after_part(s, i2, &e);
        let n = s.unicode_len();
        match channel_len(s, i3) {
            Some(len) => {
                let channel = substring(s, i3, i3 + len);
                let j = i3 + len;
                if j == n {
                    Ok(ToolchainDesc { arch: a, os: o, env: e, channel, date: None })
                } else if char_is(s, j, '-') && date_ends(s, j + 1) {
                    let date = substring(s, j + 1, n);
                    Ok(ToolchainDesc { arch: a, os: o, env: e, channel, date: Some(date) })
                } else {
                    Err(InvalidToolchainName { name: name.to_owned() })
                }
            },
            None => Err(InvalidToolchainName { name: name.to_owned() }),
        }
    }
}

/// The host's triple parts as the older front end names them, from the
/// architecture and operating system names of the standard library and
/// the target environment: `x86` is `i686`; `windows`, `linux` and `macos`
/// are `pc-windows`, `unknown-linux` and `apple-darwin`.
pub open spec fn host_parts_spec(arch: Seq<char>, os: Seq<char>, env: Option<Seq<char>>) -> (Seq<char>, Seq<char>, Option<Seq<char>>) {
    let a = if arch == "x86"@ { "i686"@ } else { arch };
    let o = if os == "windows"@ {
        "pc-windows"@
    } else if os == "linux"@ {
        "unknown-linux"@
    } else {
        "apple-darwin"@
    };
    (a, o, env)
}

/// Whether the older front end knows the operating system at all.
pub open spec fn known_host_os(os: Seq<char>) -> bool {
    os == "windows"@ || os == "linux"@ || os == "macos"@
}

/// The host's triple parts; see [`host_parts_spec`]. Only Windows, Linux
/// and macOS hosts are known.
pub fn get_host_triple(arch: &str, os: &str, env: Option<&str>) -> (r: (String, String, Option<String>))
    requires
        known_host_os(os@),
    ensures
        (r.0@, r.1@, opt_view(r.2)) == host_parts_spec(arch@, os@, match env { Some(e) => Some(e@), None => None }),
{
    let a = if str_eq(arch, "x86") { "i686".to_owned() } else { arch.to_owned() };
    let o = if str_eq(os, "windows") {
        "pc-windows".to_owned()
    } else if str_eq(os, "linux") {
        "unknown-linux".to_owned()
    } else {
        "apple-darwin".to_owned()
    };
    let e = match env {
        Some(x) => Some(x.to_owned()),
        None => None,
    };
    (a, o, e)
}

/// The target triple a name stands for on a host with parts `host`: the
/// host's architecture and operating system fill in those the name lacks;
/// the host's environment fills in a missing one only when the operating
/// system is the host's.
pub open spec fn legacy_target_triple(d: LegacyDescV, host: (Seq<char>, Seq<char>, Option<Seq<char>>)) -> Seq<char> {
    let arch = match d.0 { Some(a) => a, None => host.0 };
    let os = match d.1 { Some(o) => o, None => host.1 };
    let env = if d.2 is None && os == host.1 { host.2 } else { d.2 };
    match env {
        Some(e) => arch + seq!['-'] + os + seq!['-'] + e,
        None => arch + seq!['-'] + os,
    }
}

/// The text form of a name: each part present followed or preceded by `-`.
pub open spec fn legacy_display(d: LegacyDescV) -> Seq<char> {
    (match d.0 { Some(a) => a + seq!['-'], None => Seq::empty() })
        + (match d.1 { Some(o) => o + seq!['-'], None => Seq::empty() })
        + (match d.2 { Some(e) => e + seq!['-'], None => Seq::empty() })
        + d.3
        + (match d.4 { Some(t) => seq!['-'] + t, None => Seq::empty() })
}

/// The v1 manifest address under `root`: dated releases live in a
/// directory of their date.
pub open spec fn legacy_manifest_v1_url(d: LegacyDescV, root: Seq<char>) -> Seq<char> {
    match d.4 {
        None => root + "/channel-rust-"@ + d.3,
        Some(t) => root + seq!['/'] + t + "/channel-rust-"@ + d.3,
    }
}

fn append_opt_dash(r: &mut String, o: &Option<String>)
    ensures
        final(r)@ == old(r)@ + (match opt_view(*o) { Some(x) => x + seq!['-'], None => Seq::empty() }),
{
    proof {
        reveal_strlit("-");
    }
    match o {
        Some(x) => {
            r.append(x.as_str());
            r.append("-");
        },
        None => {
            assert(r@ =~= old(r)@ + Seq::<char>::empty());
        },
    }
}

impl ToolchainDesc {
    /// The target triple on a host with parts `host_arch`, `host_os` and
    /// `host_env`; see [`legacy_target_triple`].
    pub fn target_triple(&self, host_arch: &str, host_os: &str, host_env: Option<&str>) -> (r: String)
        ensures
            r@ == legacy_target_triple(self@, (host_arch@, host_os@, match host_env { Some(e) => Some(e@), None => None })),
    {
        proof {
            reveal_strlit("-");
        }
        let arch: &str = match &self.arch {
            Some(a) => a.as_str(),
            None => host_arch,
        };
        let os: &str = match &self.os {
            Some(o) => o.as_str(),
            None => host_os,
        };
        let env: Option<&str> = if self.env.is_none() && str_eq(os, host_os) {
            host_env
        } else {
            match &self.env {
                Some(e) => Some(e.as_str()),
                None => None,
            }
        };
        let mut r = concat3(arch, "-", os);
        match env {
            Some(e) => {
                r.append("-");
                r.append(e);
            },
            None => {},
        }
        r
    }

    /// The text form; see [`legacy_display`].
    pub fn to_display_string(&self) -> (r: String)
        ensures
            r@ == legacy_display(self@),
    {
        proof {
            reveal_strlit("-");
        }
        let mut r = String::new();
        append_opt_dash(&mut r, &self.arch);
        append_opt_dash(&mut r, &self.os);
        append_opt_dash(&mut r, &self.env);
        r.append(self.channel.as_str());
        match &self.date {
            Some(t) => {
                r.append("-");
                r.append(t.as_str());
            },
            None => {},
        }
        assert(r@ =~= legacy_display(self@));
        r
    }

    /// The v1 manifest address; see [`legacy_manifest_v1_url`].
    pub fn manifest_v1_url(&self, dist_root: &str) -> (r: String)
        ensures
            r@ == legacy_manifest_v1_url(self@, dist_root@),
    {
        match &self.date {
            None => concat3(dist_root, "/channel-rust-", self.channel.as_str()),
            Some(t) => {
                proof {
                    reveal_strlit("/");
                }
                let mut r = concat3(dist_root, "/", t.as_str());
                r.append("/channel-rust-");
                r.append(self.channel.as_str());
                r
            },
        }
    }

    /// The v2 manifest address: the v1 address followed by `.toml`.
    pub fn manifest_v2_url(&self, dist_root: &str) -> (r: String)
        ensures
            r@ == legacy_manifest_v1_url(self@, dist_root@) + ".toml"@,
    {
        let v1 = self.manifest_v1_url(dist_root);
        concat2(v1.as_str(), ".toml")
    }

    /// The directory of the release's packages: `dist_root`, or its
    /// directory of the release's date.
    pub fn package_dir(&self, dist_root: &str) -> (r: String)
        ensures
            r@ == (match self@.4 { None => dist_root@, Some(t) => dist_root@ + seq!['/'] + t }),
    {
        match &self.date {
            None => dist_root.to_owned(),
            Some(t) => {
                proof {
                    reveal_strlit("/");
                }
                concat3(dist_root, "/", t.as_str())
            },
        }
    }

    /// The full name on a host: the target triple, the channel, and the
    /// date, or ` (tracking)` when there is none.
    pub fn full_spec(&self, host_arch: &str, host_os: &str, host_env: Option<&str>) -> (r: String)
        ensures
            r@ == legacy_target_triple(self@, (host_arch@, host_os@, match host_env { Some(e) => Some(e@), None => None }))
                + seq!['-'] + self@.3
                + (match self@.4 { Some(t) => seq!['-'] + t, None => " (tracking)"@ }),
    {
        proof {
            reveal_strlit("-");
        }
        let mut r = self.target_triple(host_arch, host_os, host_env);
        r.append("-");
        r.append(self.channel.as_str());
        match &self.date {
            Some(t) => {
                r.append("-");
                r.append(t.as_str());
            },
            None => r.append(" (tracking)"),
        }
        r
    }

    /// Whether the name follows its channel: it has no date.
    pub fn is_tracking(&self) -> (r: bool)
        ensures
            r == (self@.4 is None),
    {
        self.date.is_none()
    }
}

proof fn lemma_tok_prefix(s: Seq<char>, i: int, t: Option<Seq<char>>)
    requires
        t matches Some(x) ==> tok_dash_at(s, i, x),
        0 <= i <= s.len(),
    ensures
        after_tok(i, t) <= s.len(),
        s.subrange(i, after_tok(i, t)) == (match t { Some(x) => x + seq!['-'], None => Seq::<char>::empty() }),
{
    match t {
        Some(x) => {
            assert(s.subrange(i, i + x.len() + 1) =~= x + seq!['-']) by {
                assert(s.subrange(i, i + x.len()) == x);
            }
        },
        None => {
            assert(s.subrange(i, i) =~= Seq::<char>::empty());
        },
    }
}

/// Reading a name and writing it out again gives the name back: every
/// name the older front end accepts is the text form of what it reads.
pub proof fn law_legacy_display_inverts_parse(s: Seq<char>)
    ensures
        legacy_desc_spec(s) matches Some(d) ==> legacy_display(d) == s,
{
    if let Some(d) = legacy_desc_spec(s) {
        let a = arch_tok(s, 0);
        let i1 = after_tok(0, a);
        lemma_tok_prefix(s, 0, a);
        let o = os_tok(s, i1);
        let i2 = after_tok(i1, o);
        lemma_tok_prefix(s, i1, o);
        let e = env_tok(s, i2);
        let i3 = after_tok(i2, e);
        lemma_tok_prefix(s, i2, e);
        let n = channel_len_at(s, i3)->Some_0;
        let j = i3 + n;
        let tail = if j == s.len() { Seq::<char>::empty() } else { seq!['-'] + s.subrange(j + 1, s.len() as int) };
        assert(s.subrange(j, s.len() as int) =~= tail);
        assert(s =~= s.subrange(0, i1) + s.subrange(i1, i2) + s.subrange(i2, i3) + s.subrange(i3, j) + s.subrange(j, s.len() as int));
        assert(legacy_display(d) =~= s);
    }
}

/// Whether a v1 manifest line is the package `package` for `triple` with
/// the extension `ext`: it starts with the package name and ends with the
/// triple followed by the extension.
pub open spec fn package_line(line: Seq<char>, package: Seq<char>, triple: Seq<char>, ext: Seq<char>) -> bool {
    let suffix = triple + ext;
    package.len() <= line.len() && line.subrange(0, package.len() as int) == package
        && suffix.len() <= line.len() && line.subrange(line.len() - suffix.len(), line.len() as int) == suffix
}

fn ends_with(s: &str, suffix: &str) -> (r: bool)
    ensures
        r == (suffix@.len() <= s@.len() && s@.subrange(s@.len() - suffix@.len(), s@.len() as int) == suffix@),
{
    let n = s.unicode_len();
    let m = suffix.unicode_len();
    if m > n {
        return false;
    }
    occurs_at(s, n - m, suffix)
}

/// The address of a package in a v1 manifest (its lines, relative to
/// `root`): the first line that is the package `package` for `triple`
/// with extension `ext` (see [`package_line`]), after `root` and `/`;
/// none when no line is.
pub fn package_url(lines: &Vec<String>, root: &str, package: &str, triple: &str, ext: &str) -> (r: Option<String>)
    ensures
        r is None <==> forall|j: int| 0 <= j < lines@.len() ==> !package_line(#[trigger] lines@[j]@, package@, triple@, ext@),
        r matches Some(u) ==> exists|i: int| 0 <= i < lines@.len()
            && package_line(#[trigger] lines@[i]@, package@, triple@, ext@)
            && (forall|j: int| 0 <= j < i ==> !package_line(#[trigger] lines@[j]@, package@, triple@, ext@))
            && u@ == root@ + seq!['/'] + lines@[i]@,
{
    let suffix = concat2(triple, ext);
    let mut i: usize = 0;
    while i < lines.len()
        invariant
            i <= lines@.len(),
            suffix@ == triple@ + ext@,
            forall|j: int| 0 <= j < i ==> !package_line(#[trigger] lines@[j]@, package@, triple@, ext@),
        decreases lines@.len() - i,
    {
        let line = lines[i].as_str();
        if starts_with(line, package) && ends_with(line, suffix.as_str()) {
            proof {
                reveal_strlit("/");
            }
            let u = concat3(root, "/", line);
            return Some(u);
        }
        i = i + 1;
    }
    None
}

} // verus!
