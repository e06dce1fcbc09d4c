//! Packages in the rust-installer format: the version check, the list of
//! components a package holds, and the decisions taken while unpacking a
//! package archive (where each entry goes, with which permissions, and how
//! much memory the unpacking may use).

use vstd::prelude::*;
use crate::prefix::{join_path, path_join};
use crate::text::{char_len, concat2, concat3, decimal, has_prefix, join_strings, join_with, starts_with, str_eq, substring, texts_view, u64_to_decimal};

verus! {

/// The metadata revision of the rust-installer format that is understood.
pub const INSTALLER_VERSION: &'static str = "3";
/// The file of a package that holds its format revision.
pub const VERSION_FILE: &'static str = "rust-installer-version";

/// Whether a character is white space, as Rust's `char::is_whitespace`
/// defines it (the Unicode `White_Space` property).
pub open spec fn is_ws(c: char) -> bool {
    c == '\u{9}' || c == '\u{a}' || c == '\u{b}' || c == '\u{c}' || c == '\u{d}' || c == ' '
        || c == '\u{85}' || c == '\u{a0}' || c == '\u{1680}'
        || ('\u{2000}' <= c && c <= '\u{200a}')
        || c == '\u{2028}' || c == '\u{2029}' || c == '\u{202f}' || c == '\u{205f}' || c == '\u{3000}'
}

fn is_ws_exec(c: char) -> (r: bool)
    ensures
        r == is_ws(c),
{
    c == '\u{9}' || c == '\u{a}' || c == '\u{b}' || c == '\u{c}' || c == '\u{d}' || c == ' '
        || c == '\u{85}' || c == '\u{a0}' || c == '\u{1680}'
        || ('\u{2000}' <= c && c <= '\u{200a}')
        || c == '\u{2028}' || c == '\u{2029}' || c == '\u{202f}' || c == '\u{205f}' || c == '\u{3000}'
}

/// `s` without leading white space.
pub open spec fn trim_start(s: Seq<char>) -> Seq<char>
    decreases s.len(),
{
    if s.len() > 0 && is_ws(s[0]) { trim_start(s.skip(1)) } else { s }
}

/// `s` without trailing white space.
pub open spec fn trim_end(s: Seq<char>) -> Seq<char>
    decreases s.len(),
{
    if s.len() > 0 && is_ws(s.last()) { trim_end(s.drop_last()) } else { s }
}

/// `s` without leading and trailing white space, as `str::trim` gives it.
pub open spec fn trim_spec(s: Seq<char>) -> Seq<char> {
    trim_end(trim_start(s))
}

/// The text without leading and trailing white space; see [`trim_spec`].
pub fn trim(s: &str) -> (r: String)
    ensures
        r@ == trim_spec(s@),
{
    let n = s.unicode_len();
    let mut from: usize = 0;
    assert(s@.skip(0) =~= s@);
    while from < n && is_ws_exec(s.get_char(from))
        invariant
            n == s@.len(),
            from <= n,
            trim_start(s@) == trim_start(s@.skip(from as int)),
        decreases n - from,
    {
        assert(s@.skip(from as int).skip(1) =~= s@.skip(from + 1));
        from = from + 1;
    }
    let ghost st = s@.skip(from as int);
    assert(trim_start(s@) == st);
    let mut to: usize = n;
    assert(st =~= s@.subrange(from as int, n as int));
    while to > from && is_ws_exec(s.get_char(to - 1))
        invariant
            n == s@.len(),
            from <= to <= n,
            trim_end(st) == trim_end(s@.subrange(from as int, to as int)),
        decreases to,
    {
        assert(s@.subrange(from as int, to as int).drop_last() =~= s@.subrange(from as int, to - 1));
        to = to - 1;
    }
    substring(s, from, to)
}

/// Checks the format revision that a package states (the text of its
/// version file): it must be [`INSTALLER_VERSION`] once white space around
/// it is removed. The error names the revision found.
pub fn validate_installer_version(version_text: &str) -> (r: Result<(), String>)
    ensures
        r is Ok <==> trim_spec(version_text@) == INSTALLER_VERSION@,
        r matches Err(msg) ==> msg@ == "unsupported installer version: "@ + trim_spec(version_text@),
{
    let v = trim(version_text);
    if str_eq(v.as_str(), INSTALLER_VERSION) {
        Ok(())
    } else {
        Err(concat2("unsupported installer version: ", v.as_str()))
    }
}

/// The lines of a text as Rust's `str::lines` gives them: split at line
/// feeds, a carriage return just before a line feed dropped, and no line
/// after a final line feed.
#[verifier::opaque]
pub open spec fn lines_of(s: Seq<char>) -> Seq<Seq<char>>
    decreases s.len(),
{
    if s.len() == 0 {
        Seq::empty()
    } else {
        let k = first_newline(s);
        if 0 <= k < s.len() {
            seq![strip_cr(s.subrange(0, k))] + lines_of(s.skip(k + 1))
        } else {
            seq![s]
        }
    }
}

/// The position of the first line feed, or the length when there is none.
pub open spec fn first_newline(s: Seq<char>) -> int {
    if exists|i: int| 0 <= i < s.len() && s[i] == '\n' {
        choose|i: int| 0 <= i < s.len() && s[i] == '\n' && forall|j: int| 0 <= j < i ==> s[j] != '\n'
    } else {
        s.len() as int
    }
}

/// A line without its final carriage return, if any.
pub open spec fn strip_cr(l: Seq<char>) -> Seq<char> {
    if l.len() > 0 && l[l.len() - 1] == '\r' { l.subrange(0, l.len() - 1) } else { l }
}

proof fn lemma_first_newline(s: Seq<char>, k: int)
    requires
        0 <= k <= s.len(),
        forall|j: int| 0 <= j < k ==> s[j] != '\n',
        k < s.len() ==> s[k] == '\n',
    ensures
        first_newline(s) == k,
{
    if k < s.len() {
        let c = choose|i: int| 0 <= i < s.len() && s[i] == '\n' && forall|j: int| 0 <= j < i ==> s[j] != '\n';
        if c < k {
            assert(s[c] != '\n');
        } else if c > k {
            assert(s[k] != '\n');
        }
    }
}


#[verifier::spinoff_prover]
proof fn lemma_lines_step(s: Seq<char>, p: int, k: int)
    requires
        0 <= p < s.len(),
        p <= k <= s.len(),
        forall|j: int| p <= j < k ==> s[j] != '\n',
        k < s.len() ==> s[k] == '\n',
    ensures
        lines_of(s.skip(p)) == (if k < s.len() {
            seq![strip_cr(s.subrange(p, k))] + lines_of(s.skip(k + 1))
        } else {
            seq![s.subrange(p, k)]
        }),
        k == s.len() ==> lines_of(s.skip(k)) == Seq::<Seq<char>>::empty(),
{
    reveal(lines_of);
    let rest = s.skip(p);
    lemma_first_newline(rest, k - p);
    assert(rest.subrange(0, k - p) =~= s.subrange(p, k));
    if k < s.len() {
        assert(rest.skip(k - p + 1) =~= s.skip(k + 1));
    } else {
        assert(rest =~= s.subrange(p, k));
        assert(s.skip(k) =~= Seq::<char>::empty());
    }
}

fn strip_cr_exec(s: &str, from: usize, to: usize) -> (r: String)
    requires
        from <= to <= s@.len(),
    ensures
        r@ == strip_cr(s@.subrange(from as int, to as int)),
{
    if to > from && s.get_char(to - 1) == '\r' {
        let r = substring(s, from, to - 1);
        assert(r@ =~= s@.subrange(from as int, to as int).subrange(0, (to - from) - 1));
        r
    } else {
        substring(s, from, to)
    }
}

/// The lines of a text; see [`lines_of`].
#[verifier::rlimit(30)]
pub fn split_lines(s: &str) -> (r: Vec<String>)
    ensures
        texts_view(r@) == lines_of(s@),
{
    let n = s.unicode_len();
    let mut out: Vec<String> = Vec::new();
    let mut p: usize = 0;
    assert(s@.skip(0) =~= s@);
    assert(texts_view(out@) + lines_of(s@) =~= lines_of(s@));
    while p < n
        invariant
            n == s@.len(),
            p <= n,
            texts_view(out@) + lines_of(s@.skip(p as int)) == lines_of(s@),
        decreases n - p,
    {
        let ghost rest = s@.skip(p as int);
        let mut k: usize = p;
        while k < n && s.get_char(k) != '\n'
            invariant
                n == s@.len(),
                p <= k <= n,
                forall|j: int| p <= j < k ==> s@[j] != '\n',
            decreases n - k,
        {
            k = k + 1;
        }
        proof {
            lemma_lines_step(s@, p as int, k as int);
        }
        let line = if k < n { strip_cr_exec(s, p, k) } else { substring(s, p, k) };
        let ghost o0 = out@;
        out.push(line);
        assert(texts_view(out@) =~= texts_view(o0).push(line@));
        if k < n {
            assert(texts_view(out@) + lines_of(s@.skip(k + 1)) =~= texts_view(o0) + lines_of(rest));
            p = k + 1;
        } else {
            assert(texts_view(out@) + lines_of(s@.skip(n as int)) =~= texts_view(o0) + lines_of(rest));
            p = n;
        }
    }
    assert(s@.skip(n as int) =~= Seq::<char>::empty());
    proof {
        reveal(lines_of);
    }
    assert(texts_view(out@) + lines_of(s@.skip(n as int)) =~= texts_view(out@));
    out
}

/// A package unpacked into a directory: its location, the names of the
/// components it holds (each once, in the order its component list first
/// names them), and whether installing copies its files rather than moving
/// them.
#[derive(Debug)]
pub struct DirectoryPackage {
    pub path: String,
    pub components: Vec<String>,
    pub copy: bool,
}

/// The list without later repeats, each kept where it first appears.
pub open spec fn dedup_texts(s: Seq<Seq<char>>) -> Seq<Seq<char>>
    decreases s.len(),
{
    if s.len() == 0 {
        Seq::empty()
    } else {
        let d = dedup_texts(s.drop_last());
        if d.contains(s.last()) { d } else { d.push(s.last()) }
    }
}

fn contains_text(v: &Vec<String>, s: &str) -> (r: bool)
    ensures
        r == texts_view(v@).contains(s@),
{
    let mut i: usize = 0;
    while i < v.len()
        invariant
            i <= v@.len(),
            forall|j: int| 0 <= j < i ==> v@[j]@ != s@,
        decreases v@.len() - i,
    {
        if str_eq(v[i].as_str(), s) {
            assert(texts_view(v@)[i as int] == s@);
            return true;
        }
        i = i + 1;
    }
    proof {
        if texts_view(v@).contains(s@) {
            let j = choose|j: int| 0 <= j < texts_view(v@).len() && texts_view(v@)[j] == s@;
            assert(v@[j]@ == s@);
        }
    }
    false
}

impl DirectoryPackage {
    /// The package unpacked at `path`, given the text of its version file
    /// and of its component list (one name per line). Fails, as
    /// [`validate_installer_version`] does, on another format revision.
    pub fn new(path: String, copy: bool, version_text: &str, components_text: &str) -> (r: Result<DirectoryPackage, String>)
        ensures
            r is Ok <==> trim_spec(version_text@) == INSTALLER_VERSION@,
            r matches Ok(p) ==> p.path@ == path@ && p.copy == copy
                && texts_view(p.components@) == dedup_texts(lines_of(components_text@)),
            r matches Err(msg) ==> msg@ == "unsupported installer version: "@ + trim_spec(version_text@),
    {
        match validate_installer_version(version_text) {
            Err(msg) => {
                return Err(msg);
            },
            Ok(()) => {},
        }
        let lines = split_lines(components_text);
        let ghost ls = texts_view(lines@);
        let mut comps: Vec<String> = Vec::new();
        let mut i: usize = 0;
        assert(ls.take(0) =~= Seq::<Seq<char>>::empty());
        while i < lines.len()
            invariant
                ls == texts_view(lines@),
                i <= ls.len(),
                texts_view(comps@) == dedup_texts(ls.take(i as int)),
            decreases ls.len() - i,
        {
            proof {
                assert(ls.take(i + 1).drop_last() =~= ls.take(i as int));
                assert(ls.take(i + 1).last() == lines@[i as int]@);
            }
            if !contains_text(&comps, lines[i].as_str()) {
                let ghost c0 = comps@;
                comps.push(lines[i].clone());
                assert(texts_view(comps@) =~= texts_view(c0).push(lines@[i as int]@));
            }
            i = i + 1;
        }
        assert(ls.take(ls.len() as int) =~= ls);
        Ok(DirectoryPackage { path, components: comps, copy })
    }

    /// Whether the package holds the component `component`, or, when
    /// given, the one under its short name.
    pub fn contains(&self, component: &str, short_name: Option<&str>) -> (r: bool)
        ensures
            r == (texts_view(self.components@).contains(component@)
                || (short_name matches Some(n) && texts_view(self.components@).contains(n@))),
    {
        contains_text(&self.components, component) || match short_name {
            Some(n) => contains_text(&self.components, n),
            None => false,
        }
    }

    /// The name under which the package holds a component: its full name
    /// when present, else its short name when one is given.
    pub fn actual_name(&self, name: &str, short_name: Option<&str>) -> (r: String)
        ensures
            r@ == (if texts_view(self.components@).contains(name@) {
                name@
            } else {
                match short_name {
                    Some(n) => n@,
                    None => name@,
                }
            }),
    {
        if contains_text(&self.components, name) {
            name.to_owned()
        } else {
            match short_name {
                Some(n) => n.to_owned(),
                None => name.to_owned(),
            }
        }
    }

    /// The names of the components the package holds.
    pub fn component_names(&self) -> (r: Vec<String>)
        ensures
            texts_view(r@) == texts_view(self.components@),
    {
        let mut out: Vec<String> = Vec::new();
        let mut i: usize = 0;
        while i < self.components.len()
            invariant
                i <= self.components@.len(),
                texts_view(out@) == texts_view(self.components@).take(i as int),
            decreases self.components@.len() - i,
        {
            let ghost o0 = out@;
            out.push(self.components[i].clone());
            assert(texts_view(out@) =~= texts_view(o0).push(self.components@[i as int]@));
            assert(texts_view(self.components@).take(i + 1) =~= texts_view(self.components@).take(i as int).push(self.components@[i as int]@));
            i = i + 1;
        }
        assert(texts_view(self.components@).take(self.components@.len() as int) =~= texts_view(self.components@));
        out
    }
}

/// Memory kept back for the installer itself and its buffers when
/// unpacking.
pub const RAM_ALLOWANCE_FOR_RUSTUP_AND_BUFFERS: usize = 209715200;

/// The memory the unpacking may use by default: all that is available
/// beyond the installer's allowance, or the minimum (two I/O chunks) when
/// that is not more than the minimum or the available memory is unknown.
pub open spec fn default_unpack_ram(io_chunk_size: int, effective_max_ram: Option<usize>) -> int {
    let minimum = io_chunk_size * 2;
    match effective_max_ram {
        Some(m) => if m > minimum + RAM_ALLOWANCE_FOR_RUSTUP_AND_BUFFERS {
            m - RAM_ALLOWANCE_FOR_RUSTUP_AND_BUFFERS
        } else {
            minimum
        },
        None => minimum,
    }
}

/// The memory the unpacking may use: the budget the user set, held between
/// the minimum (two I/O chunks) and the default; the default when unset.
pub open spec fn unpack_ram_spec(io_chunk_size: int, effective_max_ram: Option<usize>, budget: Option<usize>) -> int {
    let minimum = io_chunk_size * 2;
    let default = default_unpack_ram(io_chunk_size, effective_max_ram);
    match budget {
        Some(b) => if b < minimum {
            minimum
        } else if b > default {
            default
        } else {
            b as int
        },
        None => default,
    }
}

/// What unpacking reports about its memory budget: a budget below the
/// minimum or above the available memory is ignored with a warning; when
/// no budget is given, the default size is announced.
#[derive(Debug, Clone, Copy, PartialEq, Eq, Structural)]
pub enum UnpackRamNotice {
    /// The budget (first) was below the minimum (second).
    BelowMinimum(usize, usize),
    /// The budget (first) was above the available memory (second).
    AboveAvailable(usize, usize),
    /// No budget was given: the default size is used.
    DefaultBufferSize(usize),
}

/// The notice that goes with a memory budget, if any; see
/// [`UnpackRamNotice`].
pub open spec fn unpack_ram_notice_spec(io_chunk_size: int, effective_max_ram: Option<usize>, budget: Option<usize>) -> Option<UnpackRamNotice> {
    let minimum = io_chunk_size * 2;
    let default = default_unpack_ram(io_chunk_size, effective_max_ram);
    match budget {
        Some(b) => if b < minimum {
            Some(UnpackRamNotice::BelowMinimum(b, minimum as usize))
        } else if b > default {
            Some(UnpackRamNotice::AboveAvailable(b, default as usize))
        } else {
            None
        },
        None => Some(UnpackRamNotice::DefaultBufferSize(default as usize)),
    }
}

/// The text of a warning notice; the default size is announced without
/// text of its own.
pub open spec fn unpack_ram_warning(n: UnpackRamNotice) -> Option<Seq<char>> {
    match n {
        UnpackRamNotice::BelowMinimum(b, m) => Some("Ignoring RUSTUP_UNPACK_RAM ("@ + decimal(b as nat) + ") less than minimum of "@
            + decimal(m as nat) + "."@),
        UnpackRamNotice::AboveAvailable(b, d) => Some("Ignoring RUSTUP_UNPACK_RAM ("@ + decimal(b as nat)
            + ") greater than detected available RAM of "@ + decimal(d as nat) + "."@),
        UnpackRamNotice::DefaultBufferSize(_) => None,
    }
}

impl UnpackRamNotice {
    /// The warning text of this notice, if it is a warning; see
    /// [`unpack_ram_warning`].
    pub fn warning(&self) -> (r: Option<String>)
        ensures
            r.deep_view() == unpack_ram_warning(*self),
    {
        match self {
            UnpackRamNotice::BelowMinimum(b, m) => {
                let mut r = concat3("Ignoring RUSTUP_UNPACK_RAM (", u64_to_decimal(*b as u64).as_str(), ") less than minimum of ");
                r.append(u64_to_decimal(*m as u64).as_str());
                r.append(".");
                Some(r)
            },
            UnpackRamNotice::AboveAvailable(b, d) => {
                let mut r = concat3(
                    "Ignoring RUSTUP_UNPACK_RAM (",
                    u64_to_decimal(*b as u64).as_str(),
                    ") greater than detected available RAM of ",
                );
                r.append(u64_to_decimal(*d as u64).as_str());
                r.append(".");
                Some(r)
            },
            UnpackRamNotice::DefaultBufferSize(_) => None,
        }
    }
}

/// The memory the unpacking may use, and what to report about it; see
/// [`unpack_ram_spec`] and [`unpack_ram_notice_spec`]. `effective_max_ram`
/// is the memory available, when known; `budget` the user's setting, when
/// given.
pub fn unpack_ram(io_chunk_size: usize, effective_max_ram: Option<usize>, budget: Option<usize>) -> (r: (usize, Option<UnpackRamNotice>))
    requires
        io_chunk_size * 2 + RAM_ALLOWANCE_FOR_RUSTUP_AND_BUFFERS <= usize::MAX,
    ensures
        r.0 == unpack_ram_spec(io_chunk_size as int, effective_max_ram, budget),
        r.0 >= io_chunk_size * 2,
        r.1 == unpack_ram_notice_spec(io_chunk_size as int, effective_max_ram, budget),
        r.1 matches Some(UnpackRamNotice::DefaultBufferSize(_)) <==> budget is None,
{
    let minimum_ram = io_chunk_size * 2;
    let default_max = match effective_max_ram {
        Some(m) => if m > minimum_ram + RAM_ALLOWANCE_FOR_RUSTUP_AND_BUFFERS {
            m - RAM_ALLOWANCE_FOR_RUSTUP_AND_BUFFERS
        } else {
            minimum_ram
        },
        None => minimum_ram,
    };
    match budget {
        Some(b) => if b < minimum_ram {
            (minimum_ram, Some(UnpackRamNotice::BelowMinimum(b, minimum_ram)))
        } else if b > default_max {
            (default_max, Some(UnpackRamNotice::AboveAvailable(b, default_max)))
        } else {
            (b, None)
        },
        None => (default_max, Some(UnpackRamNotice::DefaultBufferSize(default_max))),
    }
}

/// The permissions given to an unpacked entry: the owner's, with the
/// owner's read and execute permissions granted to the group and to others
/// (so `0o700` becomes `0o755`).
pub open spec fn normalized_mode(tar_mode: u32) -> u32 {
    (tar_mode & 0o700u32) | ((tar_mode & 0o500u32) >> 3u32) | ((tar_mode & 0o500u32) >> 6u32)
}

/// The permissions for an unpacked entry; see [`normalized_mode`].
pub fn normalize_mode(tar_mode: u32) -> (r: u32)
    ensures
        r == normalized_mode(tar_mode),
        r & 0o022u32 == 0,
        r <= 0o755u32,
{
    let u_mode = tar_mode & 0o700u32;
    let g_mode = (u_mode & 0o500u32) >> 3u32;
    let o_mode = g_mode >> 3u32;
    let mode = u_mode | g_mode | o_mode;
    assert(mode == normalized_mode(tar_mode) && mode & 0o022u32 == 0 && mode <= 0o755u32) by (bit_vector)
        requires
            u_mode == tar_mode & 0o700u32,
            g_mode == (u_mode & 0o500u32) >> 3u32,
            o_mode == g_mode >> 3u32,
            mode == u_mode | g_mode | o_mode;
    mode
}


/// The position of the first `c` in `s`, or the length when there is none.
pub open spec fn first_char(s: Seq<char>, c: char) -> int {
    if exists|i: int| 0 <= i < s.len() && s[i] == c {
        choose|i: int| 0 <= i < s.len() && s[i] == c && forall|j: int| 0 <= j < i ==> s[j] != c
    } else {
        s.len() as int
    }
}

proof fn lemma_first_char(s: Seq<char>, c: char, k: int)
    requires
        0 <= k <= s.len(),
        forall|j: int| 0 <= j < k ==> s[j] != c,
        k < s.len() ==> s[k] == c,
    ensures
        first_char(s, c) == k,
{
    if k < s.len() {
        let w = choose|i: int| 0 <= i < s.len() && s[i] == c && forall|j: int| 0 <= j < i ==> s[j] != c;
        if w < k {
            assert(s[w] != c);
        } else if w > k {
            assert(s[k] != c);
        }
    }
}

/// The parts of `s` between the separators `/`, as `str::split` gives
/// them (empty parts included).
#[verifier::opaque]
pub open spec fn split_slash(s: Seq<char>) -> Seq<Seq<char>>
    decreases s.len(),
{
    let k = first_char(s, '/');
    if 0 <= k < s.len() {
        seq![s.subrange(0, k)] + split_slash(s.skip(k + 1))
    } else {
        seq![s]
    }
}

#[verifier::rlimit(40)]
proof fn lemma_split_step(s: Seq<char>, p: int, k: int)
    requires
        0 <= p <= s.len(),
        p <= k <= s.len(),
        forall|j: int| p <= j < k ==> s[j] != '/',
        k < s.len() ==> s[k] == '/',
    ensures
        split_slash(s.skip(p)) == seq![s.subrange(p, k)] + (if k < s.len() {
            split_slash(s.skip(k + 1))
        } else {
            Seq::<Seq<char>>::empty()
        }),
{
    reveal(split_slash);
    let rest = s.skip(p);
    lemma_first_char(rest, '/', k - p);
    assert(rest.subrange(0, k - p) =~= s.subrange(p, k));
    if k < s.len() {
        assert(rest.skip(k - p + 1) =~= s.skip(k + 1));
    } else {
        assert(rest =~= s.subrange(p, k));
    }
    assert(seq![s.subrange(p, k)] + Seq::<Seq<char>>::empty() =~= seq![s.subrange(p, k)]);
}

/// Splits `s` at each `/`; see [`split_slash`].
pub fn split_at_slashes(s: &str) -> (r: Vec<String>)
    ensures
        texts_view(r@) == split_slash(s@),
{
    let n = s.unicode_len();
    let mut out: Vec<String> = Vec::new();
    let mut p: usize = 0;
    assert(s@.skip(0) =~= s@);
    assert(texts_view(out@) + split_slash(s@) =~= split_slash(s@));
    loop
        invariant
            n == s@.len(),
            p <= n,
            texts_view(out@) + split_slash(s@.skip(p as int)) == split_slash(s@),
        decreases n - p,
    {
        let ghost rest = s@.skip(p as int);
        let mut k: usize = p;
        while k < n && s.get_char(k) != '/'
            invariant
                n == s@.len(),
                p <= k <= n,
                forall|j: int| p <= j < k ==> s@[j] != '/',
            decreases n - k,
        {
            k = k + 1;
        }
        proof {
            lemma_split_step(s@, p as int, k as int);
        }
        let part = substring(s, p, k);
        let ghost o0 = out@;
        out.push(part);
        assert(texts_view(out@) =~= texts_view(o0).push(part@));
        if k < n {
            assert(texts_view(out@) + split_slash(s@.skip(k + 1)) =~= texts_view(o0) + split_slash(rest));
            p = k + 1;
        } else {
            assert(texts_view(out@) =~= texts_view(o0) + split_slash(rest));
            return out;
        }
    }
}

/// The names of the ordinary parts of a path (neither empty nor `.`).
pub open spec fn normal_parts(segs: Seq<Seq<char>>) -> Seq<Seq<char>> {
    segs.filter(normal_part())
}

/// Selects the ordinary parts of a path: neither empty nor `.`.
pub open spec fn normal_part() -> spec_fn(Seq<char>) -> bool {
    |x: Seq<char>| x.len() > 0 && x != "."@
}

/// The path, relative to the directory unpacked into, where an archive
/// entry at `relpath` goes: the first component of its path is dropped
/// (archives hold one top directory); nothing is unpacked when no
/// component is left; and a path that starts at the root or climbs with
/// `..` is refused. A leading `.` counts as a component, other `.` parts
/// and empty parts do not, as in Rust's `Path::components`.
pub open spec fn unpack_relpath_spec(relpath: Seq<char>) -> Result<Option<Seq<char>>, ()> {
    let segs = split_slash(relpath);
    if has_prefix(relpath, "/"@) || segs.contains(".."@) {
        Err(())
    } else {
        let names = normal_parts(segs);
        let rest = if segs[0] == "."@ { names } else if names.len() > 0 { names.skip(1) } else { names };
        if rest.len() == 0 {
            Ok(None)
        } else {
            Ok(Some(join_with(rest, "/"@)))
        }
    }
}

/// Where an archive entry at `relpath` is unpacked under `root`; see
/// [`unpack_relpath_spec`].
pub open spec fn unpack_destination_spec(root: Seq<char>, relpath: Seq<char>) -> Result<Option<Seq<char>>, ()> {
    match unpack_relpath_spec(relpath) {
        Ok(Some(r)) => Ok(Some(path_join(root, r))),
        Ok(None) => Ok(None),
        Err(()) => Err(()),
    }
}

/// Where an archive entry is unpacked, relative to the directory unpacked
/// into; see [`unpack_relpath_spec`]. The error says that the entry's path
/// is not supported.
pub fn unpack_relpath(relpath: &str) -> (r: Result<Option<String>, String>)
    ensures
        r is Err <==> unpack_relpath_spec(relpath@) is Err,
        r matches Ok(d) ==> unpack_relpath_spec(relpath@) == Ok::<_, ()>(match d {
            Some(x) => Some(x@),
            None => None,
        }),
        r matches Ok(Some(x)) ==> x@.len() > 0,
        r matches Err(msg) ==> msg@ == "tar path '"@ + relpath@ + "' is not supported"@,
{
    let segs = split_at_slashes(relpath);
    let ghost sv = texts_view(segs@);
    proof {
        reveal_strlit("/");
        reveal_strlit("..");
        reveal_strlit(".");
    }
    let absolute = starts_with(relpath, "/");
    let climbs = contains_text(&segs, "..");
    if absolute || climbs {
        return Err(concat3("tar path '", relpath, "' is not supported"));
    }
    let mut names: Vec<String> = Vec::new();
    let mut i: usize = 0;
    while i < segs.len()
        invariant
            sv == texts_view(segs@),
            i <= sv.len(),
            texts_view(names@) == normal_parts(sv.take(i as int)),
        decreases sv.len() - i,
    {
        proof {
            reveal(Seq::filter);
            assert(sv.take(i + 1).drop_last() =~= sv.take(i as int));
            assert(sv.take(i + 1).last() == segs@[i as int]@);
        }
        let seg = segs[i].as_str();
        if char_len(seg) > 0 && !str_eq(seg, ".") {
            let ghost n0 = names@;
            names.push(seg.to_owned());
            assert(texts_view(names@) =~= texts_view(n0).push(seg@));
        }
        i = i + 1;
    }
    assert(sv.take(sv.len() as int) =~= sv);
    let lead_dot = segs.len() > 0 && str_eq(segs[0].as_str(), ".");
    let mut rest: Vec<String> = Vec::new();
    let start: usize = if lead_dot { 0 } else if names.len() > 0 { 1 } else { 0 };
    let mut k: usize = start;
    while k < names.len()
        invariant
            start <= k <= names@.len(),
            texts_view(rest@) == texts_view(names@).subrange(start as int, k as int),
        decreases names@.len() - k,
    {
        let ghost r0 = rest@;
        rest.push(names[k].clone());
        assert(texts_view(rest@) =~= texts_view(r0).push(names@[k as int]@));
        assert(texts_view(names@).subrange(start as int, k + 1) =~= texts_view(names@).subrange(start as int, k as int).push(names@[k as int]@));
        k = k + 1;
    }
    proof {
        let nv = texts_view(names@);
        if lead_dot {
            assert(nv.subrange(0, nv.len() as int) =~= nv);
        } else if nv.len() > 0 {
            assert(nv.subrange(1, nv.len() as int) =~= nv.skip(1));
        } else {
            assert(nv.subrange(0, 0) =~= nv);
        }
    }
    if rest.len() == 0 {
        Ok(None)
    } else {
        let joined = join_strings(&rest, "/");
        proof {
            let nv = texts_view(names@);
            assert forall|i: int| 0 <= i < texts_view(rest@).len() implies (#[trigger] texts_view(rest@)[i]).len() > 0 by {
                assert(texts_view(rest@)[i] == nv[i + start]);
                sv.lemma_filter_pred(normal_part(), i + start);
            }
            lemma_join_nonempty_parts(texts_view(rest@));
        }
        Ok(Some(joined))
    }
}

/// Joining non-empty parts gives a non-empty text.
proof fn lemma_join_nonempty_parts(parts: Seq<Seq<char>>)
    requires
        parts.len() > 0,
        forall|i: int| 0 <= i < parts.len() ==> (#[trigger] parts[i]).len() > 0,
    ensures
        join_with(parts, "/"@).len() > 0,
    decreases parts.len(),
{
    if parts.len() > 1 {
        lemma_join_nonempty_parts(parts.drop_last());
    }
}

/// Where an archive entry is unpacked under `root`; see
/// [`unpack_destination_spec`]. The error says that the entry's path is not
/// supported.
pub fn unpack_destination(root: &str, relpath: &str) -> (r: Result<Option<String>, String>)
    ensures
        r is Err <==> unpack_destination_spec(root@, relpath@) is Err,
        r matches Ok(d) ==> unpack_destination_spec(root@, relpath@) == Ok::<_, ()>(match d {
            Some(x) => Some(x@),
            None => None,
        }),
        r matches Err(msg) ==> msg@ == "tar path '"@ + relpath@ + "' is not supported"@,
{
    match unpack_relpath(relpath) {
        Ok(Some(r)) => Ok(Some(join_path(root, r.as_str()))),
        Ok(None) => Ok(None),
        Err(e) => Err(e),
    }
}

} // verus!
