//! Target triples and the partial triples that toolchain names may carry.

use vstd::prelude::*;
use crate::text::{char_len, concat2, concat3, occurs_at, str_eq};

verus! {

/// Number of CPU architectures that partial triples recognise.
pub const NUM_ARCHS: usize = 18;
/// Number of operating systems that partial triples recognise.
pub const NUM_OSES: usize = 9;
/// Number of environments (C libraries / ABIs) that partial triples recognise.
pub const NUM_ENVS: usize = 9;

/// The `i`-th known architecture, in matching priority order.
pub open spec fn spec_arch(i: int) -> Seq<char> {
    if i == 0 { "i386"@ }
    else if i == 1 { "i586"@ }
    else if i == 2 { "i686"@ }
    else if i == 3 { "x86_64"@ }
    else if i == 4 { "arm"@ }
    else if i == 5 { "armv7"@ }
    else if i == 6 { "armv7s"@ }
    else if i == 7 { "aarch64"@ }
    else if i == 8 { "mips"@ }
    else if i == 9 { "mipsel"@ }
    else if i == 10 { "mips64"@ }
    else if i == 11 { "mips64el"@ }
    else if i == 12 { "powerpc"@ }
    else if i == 13 { "powerpc64"@ }
    else if i == 14 { "powerpc64le"@ }
    else if i == 15 { "riscv64gc"@ }
    else if i == 16 { "s390x"@ }
    else { "loongarch64"@ }
}

/// The `i`-th known operating system, in matching priority order.
pub open spec fn spec_os(i: int) -> Seq<char> {
    if i == 0 { "pc-windows"@ }
    else if i == 1 { "unknown-linux"@ }
    else if i == 2 { "apple-darwin"@ }
    else if i == 3 { "unknown-netbsd"@ }
    else if i == 4 { "apple-ios"@ }
    else if i == 5 { "linux"@ }
    else if i == 6 { "rumprun-netbsd"@ }
    else if i == 7 { "unknown-freebsd"@ }
    else { "unknown-illumos"@ }
}

/// The `i`-th known environment, in matching priority order.
pub open spec fn spec_env(i: int) -> Seq<char> {
    if i == 0 { "gnu"@ }
    else if i == 1 { "gnux32"@ }
    else if i == 2 { "msvc"@ }
    else if i == 3 { "gnueabi"@ }
    else if i == 4 { "gnueabihf"@ }
    else if i == 5 { "gnuabi64"@ }
    else if i == 6 { "androideabi"@ }
    else if i == 7 { "android"@ }
    else { "musl"@ }
}

/// Executable access to the known architectures.
pub fn known_arch(i: usize) -> (s: &'static str)
    requires
        i < NUM_ARCHS,
    ensures
        s@ == spec_arch(i as int),
{
    match i {
        0 => "i386",
        1 => "i586",
        2 => "i686",
        3 => "x86_64",
        4 => "arm",
        5 => "armv7",
        6 => "armv7s",
        7 => "aarch64",
        8 => "mips",
        9 => "mipsel",
        10 => "mips64",
        11 => "mips64el",
        12 => "powerpc",
        13 => "powerpc64",
        14 => "powerpc64le",
        15 => "riscv64gc",
        16 => "s390x",
        _ => "loongarch64",
    }
}

/// Executable access to the known operating systems.
pub fn known_os(i: usize) -> (s: &'static str)
    requires
        i < NUM_OSES,
    ensures
        s@ == spec_os(i as int),
{
    match i {
        0 => "pc-windows",
        1 => "unknown-linux",
        2 => "apple-darwin",
        3 => "unknown-netbsd",
        4 => "apple-ios",
        5 => "linux",
        6 => "rumprun-netbsd",
        7 => "unknown-freebsd",
        _ => "unknown-illumos",
    }
}

/// Executable access to the known environments.
pub fn known_env(i: usize) -> (s: &'static str)
    requires
        i < NUM_ENVS,
    ensures
        s@ == spec_env(i as int),
{
    match i {
        0 => "gnu",
        1 => "gnux32",
        2 => "msvc",
        3 => "gnueabi",
        4 => "gnueabihf",
        5 => "gnuabi64",
        6 => "androideabi",
        7 => "android",
        _ => "musl",
    }
}

/// The characters of an optional string slice.
pub open spec fn str_opt_view(o: Option<&str>) -> Option<Seq<char>> {
    match o {
        Some(l) => Some(l@),
        None => None,
    }
}

/// Index `NUM_ARCHS` stands for "no architecture given".
pub open spec fn arch_choice(i: int) -> Option<Seq<char>> {
    if 0 <= i < NUM_ARCHS { Some(spec_arch(i)) } else { None }
}

/// Index `NUM_OSES` stands for "no operating system given".
pub open spec fn os_choice(i: int) -> Option<Seq<char>> {
    if 0 <= i < NUM_OSES { Some(spec_os(i)) } else { None }
}

/// Index `NUM_ENVS` stands for "no environment given".
pub open spec fn env_choice(i: int) -> Option<Seq<char>> {
    if 0 <= i < NUM_ENVS { Some(spec_env(i)) } else { None }
}

/// A part preceded by `-`, or nothing for an absent part.
pub open spec fn dash_opt(o: Option<Seq<char>>) -> Seq<char> {
    match o {
        Some(x) => seq!['-'] + x,
        None => Seq::<char>::empty(),
    }
}

/// The text that the choice of parts `(i, j, k)` spells, with a leading `-`.
pub open spec fn render_choice(i: int, j: int, k: int) -> Seq<char> {
    dash_opt(arch_choice(i)) + dash_opt(os_choice(j)) + dash_opt(env_choice(k))
}

/// `name` splits into the parts `(i, j, k)` (an index at the end of its
/// list meaning that part is absent).
pub open spec fn is_candidate(name: Seq<char>, i: int, j: int, k: int) -> bool {
    &&& 0 <= i <= NUM_ARCHS
    &&& 0 <= j <= NUM_OSES
    &&& 0 <= k <= NUM_ENVS
    &&& render_choice(i, j, k) == seq!['-'] + name
}

/// Lexicographic order on choices: the order in which a name is tried
/// against the known parts (present parts before absent ones).
pub open spec fn choice_lt(a: int, b: int, c: int, i: int, j: int, k: int) -> bool {
    a < i || (a == i && (b < j || (b == j && c < k)))
}

/// `(i, j, k)` is the first choice, in trying order, that `name` splits into.
pub open spec fn is_first_candidate(name: Seq<char>, i: int, j: int, k: int) -> bool {
    &&& is_candidate(name, i, j, k)
    &&& forall|a: int, b: int, c: int|
        #![trigger is_candidate(name, a, b, c)]
        choice_lt(a, b, c, i, j, k) ==> !is_candidate(name, a, b, c)
}

/// The parts that a name with a first candidate `(i, j, k)` is read as.
pub open spec fn choice_parts(i: int, j: int, k: int) -> (Option<Seq<char>>, Option<Seq<char>>, Option<Seq<char>>) {
    (arch_choice(i), os_choice(j), env_choice(k))
}

/// Whether `name` is accepted as a partial target triple.
pub open spec fn partial_triple_accepts(name: Seq<char>) -> bool {
    name.len() == 0 || exists|i: int, j: int, k: int| is_candidate(name, i, j, k)
}

/// `parts` is how `name` is read as a partial target triple: the empty name
/// has no parts; otherwise the parts are those of the first choice, in trying
/// order, that the name splits into.
pub open spec fn partial_triple_reads_as(
    name: Seq<char>,
    parts: (Option<Seq<char>>, Option<Seq<char>>, Option<Seq<char>>),
) -> bool {
    if name.len() == 0 {
        parts == (None::<Seq<char>>, None::<Seq<char>>, None::<Seq<char>>)
    } else {
        exists|i: int, j: int, k: int| is_first_candidate(name, i, j, k) && parts == choice_parts(i, j, k)
    }
}

proof fn lemma_split3(t: Seq<char>, x: Seq<char>, y: Seq<char>, z: Seq<char>)
    ensures
        (t == x + y + z) <==> (x.len() + y.len() + z.len() == t.len()
            && t.subrange(0, x.len() as int) == x
            && t.subrange(x.len() as int, (x.len() + y.len()) as int) == y
            && t.subrange((x.len() + y.len()) as int, t.len() as int) == z),
{
    if t == x + y + z {
        assert(t.subrange(0, x.len() as int) =~= x);
        assert(t.subrange(x.len() as int, (x.len() + y.len()) as int) =~= y);
        assert(t.subrange((x.len() + y.len()) as int, t.len() as int) =~= z);
    }
    if x.len() + y.len() + z.len() == t.len()
        && t.subrange(0, x.len() as int) == x
        && t.subrange(x.len() as int, (x.len() + y.len()) as int) == y
        && t.subrange((x.len() + y.len()) as int, t.len() as int) == z {
        assert(t =~= x + y + z);
    }
}

/// Whether the optional part `lit` (with its `-`) occurs in `t` at `pos`;
/// on success returns the position after it.
fn dash_part_at(t: &str, pos: usize, lit: Option<&str>) -> (r: Option<usize>)
    requires
        pos <= t@.len(),
    ensures
        r matches Some(q) ==> q == pos + dash_opt(str_opt_view(lit)).len()
            && q <= t@.len(),
        r is Some <==> (pos + dash_opt(str_opt_view(lit)).len() <= t@.len()
            && t@.subrange(pos as int, pos + dash_opt(str_opt_view(lit)).len())
                == dash_opt(str_opt_view(lit))),
{
    match lit {
        None => {
            assert(t@.subrange(pos as int, pos as int) =~= Seq::<char>::empty());
            Some(pos)
        },
        Some(l) => {
            let n = char_len(t);
            let d = occurs_at(t, pos, "-");
            proof {
                reveal_strlit("-");
                assert("-"@ =~= seq!['-']);
            }
            if !d {
                proof {
                    let full = seq!['-'] + l@;
                    if pos + full.len() <= t@.len() && t@.subrange(pos as int, pos + full.len()) == full {
                        assert(t@.subrange(pos as int, pos + 1) =~= t@.subrange(pos as int, pos + full.len()).subrange(0, 1));
                        assert(full.subrange(0, 1) =~= seq!['-']);
                    }
                }
                return None;
            }
            let e = occurs_at(t, pos + 1, l);
            proof {
                let full = seq!['-'] + l@;
                if e {
                    assert(t@.subrange(pos as int, pos + full.len()) =~= t@.subrange(pos as int, pos + 1) + t@.subrange(pos + 1, pos + 1 + l@.len()));
                } else {
                    if pos + full.len() <= t@.len() && t@.subrange(pos as int, pos + full.len()) == full {
                        assert(t@.subrange(pos + 1, pos + 1 + l@.len()) =~= t@.subrange(pos as int, pos + full.len()).subrange(1, full.len() as int));
                        assert(full.subrange(1, full.len() as int) =~= l@);
                    }
                }
            }
            if e {
                Some(pos + 1 + char_len(l))
            } else {
                None
            }
        },
    }
}

fn arch_opt(i: usize) -> (r: Option<&'static str>)
    requires
        i <= NUM_ARCHS,
    ensures
        str_opt_view(r) == arch_choice(i as int),
{
    if i < NUM_ARCHS { Some(known_arch(i)) } else { None }
}

fn os_opt(i: usize) -> (r: Option<&'static str>)
    requires
        i <= NUM_OSES,
    ensures
        str_opt_view(r) == os_choice(i as int),
{
    if i < NUM_OSES { Some(known_os(i)) } else { None }
}

fn env_opt(i: usize) -> (r: Option<&'static str>)
    requires
        i <= NUM_ENVS,
    ensures
        str_opt_view(r) == env_choice(i as int),
{
    if i < NUM_ENVS { Some(known_env(i)) } else { None }
}

fn opt_to_string(o: Option<&str>) -> (r: Option<String>)
    ensures
        r.deep_view() == str_opt_view(o),
{
    match o {
        Some(l) => Some(l.to_owned()),
        None => None,
    }
}

/// The first candidate is unique.
proof fn lemma_first_candidate_unique(name: Seq<char>, i: int, j: int, k: int, a: int, b: int, c: int)
    requires
        is_first_candidate(name, i, j, k),
        is_first_candidate(name, a, b, c),
    ensures
        i == a && j == b && k == c,
{
    if choice_lt(a, b, c, i, j, k) {
        assert(!is_candidate(name, a, b, c));
    } else if choice_lt(i, j, k, a, b, c) {
        assert(!is_candidate(name, i, j, k));
    }
}

/// How `name` is read as a partial target triple, if it is accepted: the
/// empty name has no parts; otherwise the parts are those of the first
/// choice, in trying order, that the name splits into.
pub open spec fn partial_triple_read(name: Seq<char>) -> Option<(Option<Seq<char>>, Option<Seq<char>>, Option<Seq<char>>)> {
    if name.len() == 0 {
        Some((None, None, None))
    } else if exists|i: int, j: int, k: int| is_first_candidate(name, i, j, k) {
        let (i, j, k) = choose|i: int, j: int, k: int| is_first_candidate(name, i, j, k);
        Some(choice_parts(i, j, k))
    } else {
        None
    }
}

/// Reads `name` as a partial target triple: optional architecture,
/// operating system and environment from the known lists, joined by `-`.
/// The empty name has no parts.
pub fn parse_partial_triple(name: &str) -> (r: Option<(Option<String>, Option<String>, Option<String>)>)
    ensures
        r is Some <==> partial_triple_accepts(name@),
        r matches Some(p) ==> partial_triple_reads_as(name@, p.deep_view()),
        r.deep_view() == partial_triple_read(name@),
{
    if char_len(name) == 0 {
        return Some((None, None, None));
    }
    let t = concat2("-", name);
    let ghost tt = seq!['-'] + name@;
    proof { reveal_strlit("-"); assert(t@ =~= tt); }
    let n = char_len(t.as_str());
    let mut i: usize = 0;
    while i <= NUM_ARCHS
        invariant
            t@ == tt,
            tt == seq!['-'] + name@,
            n == tt.len(),
            name@.len() > 0,
            i <= NUM_ARCHS + 1,
            forall|a: int, b: int, c: int|
                #![trigger is_candidate(name@, a, b, c)]
                a < i ==> !is_candidate(name@, a, b, c),
        decreases NUM_ARCHS + 1 - i,
    {
        let la = arch_opt(i);
        let p1 = dash_part_at(t.as_str(), 0, la);
        if let Some(q1) = p1 {
            let mut j: usize = 0;
            while j <= NUM_OSES
                invariant
                    t@ == tt,
                    tt == seq!['-'] + name@,
            tt == seq!['-'] + name@,
                    n == tt.len(),
                    name@.len() > 0,
                    i <= NUM_ARCHS,
                    j <= NUM_OSES + 1,
                    str_opt_view(la) == arch_choice(i as int),
                    q1 == dash_opt(arch_choice(i as int)).len(),
                    q1 <= n,
                    tt.subrange(0, q1 as int) == dash_opt(arch_choice(i as int)),
                    forall|a: int, b: int, c: int|
                        #![trigger is_candidate(name@, a, b, c)]
                        a < i ==> !is_candidate(name@, a, b, c),
                    forall|b: int, c: int|
                        #![trigger is_candidate(name@, i as int, b, c)]
                        b < j ==> !is_candidate(name@, i as int, b, c),
                decreases NUM_OSES + 1 - j,
            {
                let lo = os_opt(j);
                let p2 = dash_part_at(t.as_str(), q1, lo);
                if let Some(q2) = p2 {
                    let mut k: usize = 0;
                    while k <= NUM_ENVS
                        invariant
                            t@ == tt,
                            tt == seq!['-'] + name@,
                    tt == seq!['-'] + name@,
            tt == seq!['-'] + name@,
                            n == tt.len(),
                            name@.len() > 0,
                            i <= NUM_ARCHS,
                            j <= NUM_OSES,
                            k <= NUM_ENVS + 1,
                            str_opt_view(la) == arch_choice(i as int),
                            str_opt_view(lo) == os_choice(j as int),
                            q1 == dash_opt(arch_choice(i as int)).len(),
                            q2 == q1 + dash_opt(os_choice(j as int)).len(),
                            q2 <= n,
                            tt.subrange(0, q1 as int) == dash_opt(arch_choice(i as int)),
                            tt.subrange(q1 as int, q2 as int) == dash_opt(os_choice(j as int)),
                            forall|a: int, b: int, c: int|
                                #![trigger is_candidate(name@, a, b, c)]
                                a < i ==> !is_candidate(name@, a, b, c),
                            forall|b: int, c: int|
                                #![trigger is_candidate(name@, i as int, b, c)]
                                b < j ==> !is_candidate(name@, i as int, b, c),
                            forall|c: int|
                                #![trigger is_candidate(name@, i as int, j as int, c)]
                                c < k ==> !is_candidate(name@, i as int, j as int, c),
                        decreases NUM_ENVS + 1 - k,
                    {
                        let le = env_opt(k);
                        let p3 = dash_part_at(t.as_str(), q2, le);
                        proof {
                            lemma_split3(tt, dash_opt(arch_choice(i as int)), dash_opt(os_choice(j as int)), dash_opt(env_choice(k as int)));
                        }
                        if let Some(q3) = p3 {
                            if q3 == n {
                                let r = (opt_to_string(la), opt_to_string(lo), opt_to_string(le));
                                proof {
                                    let x = dash_opt(arch_choice(i as int));
                                    let y = dash_opt(os_choice(j as int));
                                    let z = dash_opt(env_choice(k as int));
                                    assert(q3 == q2 + z.len());
                                    assert(tt.subrange(q2 as int, q3 as int) == z);
                                    assert(x.len() + y.len() + z.len() == tt.len());
                                    assert(tt.subrange(0, x.len() as int) == x);
                                    assert(tt.subrange(x.len() as int, (x.len() + y.len()) as int) == y);
                                    assert(tt.subrange((x.len() + y.len()) as int, tt.len() as int) == z);
                                    assert(tt == x + y + z);
                                    assert(render_choice(i as int, j as int, k as int) == x + y + z);
                                    assert(is_candidate(name@, i as int, j as int, k as int));
                                    assert(is_first_candidate(name@, i as int, j as int, k as int));
                                    assert(r.deep_view() == choice_parts(i as int, j as int, k as int));
                                    let (a, b, c) = choose|a: int, b: int, c: int| is_first_candidate(name@, a, b, c);
                                    lemma_first_candidate_unique(name@, i as int, j as int, k as int, a, b, c);
                                }
                                return Some(r);
                            }
                        }
                        k = k + 1;
                    }
                } else {
                    proof {
                        assert forall|c: int| #![trigger is_candidate(name@, i as int, j as int, c)]
                            true implies !is_candidate(name@, i as int, j as int, c) by {
                            lemma_split3(tt, dash_opt(arch_choice(i as int)), dash_opt(os_choice(j as int)), dash_opt(env_choice(c)));
                            if is_candidate(name@, i as int, j as int, c) {
                                assert(tt.subrange(q1 as int, q1 + dash_opt(os_choice(j as int)).len())
                                    =~= tt.subrange(dash_opt(arch_choice(i as int)).len() as int,
                                        (dash_opt(arch_choice(i as int)).len() + dash_opt(os_choice(j as int)).len()) as int));
                            }
                        }
                    }
                }
                j = j + 1;
            }
        } else {
            proof {
                assert forall|b: int, c: int| #![trigger is_candidate(name@, i as int, b, c)]
                    true implies !is_candidate(name@, i as int, b, c) by {
                    lemma_split3(tt, dash_opt(arch_choice(i as int)), dash_opt(os_choice(b)), dash_opt(env_choice(c)));
                }
            }
        }
        i = i + 1;
    }
    proof {
        if exists|a: int, b: int, c: int| is_candidate(name@, a, b, c) {
            let (a, b, c) = choose|a: int, b: int, c: int| is_candidate(name@, a, b, c);
            assert(!is_candidate(name@, a, b, c));
        }
    }
    None
}


/// Whether two optional strings hold the same characters.
pub fn opt_str_eq(a: &Option<String>, b: &Option<String>) -> (r: bool)
    ensures
        r == (a.deep_view() == b.deep_view()),
{
    match (a, b) {
        (Some(x), Some(y)) => str_eq(x.as_str(), y.as_str()),
        (None, None) => true,
        _ => false,
    }
}

/// Whether an optional string holds exactly `lit`.
pub fn opt_str_is(a: &Option<String>, lit: &str) -> (r: bool)
    ensures
        r == (a.deep_view() == Some(lit@)),
{
    match a {
        Some(x) => str_eq(x.as_str(), lit),
        None => false,
    }
}

/// A copy of an optional string.
pub fn opt_str_copy(a: &Option<String>) -> (r: Option<String>)
    ensures
        r.deep_view() == a.deep_view(),
{
    match a {
        Some(x) => Some(x.clone()),
        None => None,
    }
}

/// A partially specified target triple, as it may appear in a toolchain
/// name such as `stable-msvc`. Its parts come from a fixed list of known
/// architectures, operating systems and environments.
#[derive(Debug, Clone, PartialEq, Eq)]
pub struct PartialTargetTriple {
    pub arch: Option<String>,
    pub os: Option<String>,
    pub env: Option<String>,
}

impl View for PartialTargetTriple {
    type V = (Option<Seq<char>>, Option<Seq<char>>, Option<Seq<char>>);

    open spec fn view(&self) -> Self::V {
        (self.arch.deep_view(), self.os.deep_view(), self.env.deep_view())
    }
}

impl PartialTargetTriple {
    /// Parses a partial triple; `None` when `name` is not made of known
    /// parts. The empty name gives the triple with no parts.
    pub fn new(name: &str) -> (r: Option<Self>)
        ensures
            r is Some <==> partial_triple_accepts(name@),
            r matches Some(p) ==> Some(p@) == partial_triple_read(name@),
    {
        match parse_partial_triple(name) {
            Some((arch, os, env)) => Some(PartialTargetTriple { arch, os, env }),
            None => None,
        }
    }

    /// Whether no part is given.
    pub fn is_empty(&self) -> (r: bool)
        ensures
            r == (self.arch is None && self.os is None && self.env is None),
    {
        self.arch.is_none() && self.env.is_none() && self.os.is_none()
    }

    /// A copy of this partial triple.
    pub fn copy(&self) -> (r: Self)
        ensures
            r@ == self@,
    {
        PartialTargetTriple { arch: opt_str_copy(&self.arch), os: opt_str_copy(&self.os), env: opt_str_copy(&self.env) }
    }

    /// Fills the missing parts from `input_host`; see [`complete_parts`].
    pub fn complete(self, input_host: &TargetTriple) -> (r: Result<TargetTriple, HostTripleError>)
        ensures
            r matches Ok(t) ==> completion_spec(self@, input_host@) == Ok::<Seq<char>, HostTripleErrorKind>(t@),
            r matches Err(e) ==> completion_spec(self@, input_host@) == Err::<Seq<char>, HostTripleErrorKind>(e.kind)
                && e.host@ == input_host@,
    {
        match complete_parts(self.arch, self.os, self.env, input_host) {
            Ok(t) => Ok(TargetTriple(t)),
            Err(e) => Err(e),
        }
    }

    /// The full triple when all three parts are given.
    pub fn to_full_triple(self) -> (r: Option<TargetTriple>)
        ensures
            r is Some <==> (self.arch is Some && self.os is Some && self.env is Some),
            r matches Some(t) ==> t@ == self.arch.unwrap()@ + seq!['-'] + self.os.unwrap()@
                + seq!['-'] + self.env.unwrap()@,
    {
        match (self.arch, self.os, self.env) {
            (Some(a), Some(o), Some(e)) => {
                let s1 = concat3(a.as_str(), "-", o.as_str());
                let s2 = concat3(s1.as_str(), "-", e.as_str());
                proof { reveal_strlit("-"); assert("-"@ =~= seq!['-']); }
                Some(TargetTriple(s2))
            },
            _ => None,
        }
    }

    /// The text form: the architecture, then `-os` and `-env` for each
    /// part that is given.
    pub fn to_display_string(&self) -> (r: String)
        ensures
            r@ == partial_display(self@),
    {
        let mut r = String::new();
        if let Some(a) = &self.arch {
            r.append(a.as_str());
        }
        if let Some(o) = &self.os {
            r.append("-");
            r.append(o.as_str());
        }
        if let Some(e) = &self.env {
            r.append("-");
            r.append(e.as_str());
        }
        proof {
            reveal_strlit("-");
            assert("-"@ =~= seq!['-']);
            assert(r@ =~= partial_display(self@));
        }
        r
    }
}

/// A partially specified target tuple; the same notion as
/// [`PartialTargetTriple`], under the newer name.
#[derive(Debug, Clone, PartialEq, Eq)]
pub struct PartialTargetTuple {
    pub arch: Option<String>,
    pub os: Option<String>,
    pub env: Option<String>,
}

impl View for PartialTargetTuple {
    type V = (Option<Seq<char>>, Option<Seq<char>>, Option<Seq<char>>);

    open spec fn view(&self) -> Self::V {
        (self.arch.deep_view(), self.os.deep_view(), self.env.deep_view())
    }
}

impl PartialTargetTuple {
    /// Parses a partial tuple; `None` when `name` is not made of known parts.
    pub fn new(name: &str) -> (r: Option<Self>)
        ensures
            r is Some <==> partial_triple_accepts(name@),
            r matches Some(p) ==> Some(p@) == partial_triple_read(name@),
    {
        match parse_partial_triple(name) {
            Some((arch, os, env)) => Some(PartialTargetTuple { arch, os, env }),
            None => None,
        }
    }

    /// Whether no part is given.
    pub fn is_empty(&self) -> (r: bool)
        ensures
            r == (self.arch is None && self.os is None && self.env is None),
    {
        self.arch.is_none() && self.env.is_none() && self.os.is_none()
    }

    /// Returns a full tuple using `input_host` to fill in missing fields.
    pub fn complete(self, input_host: &TargetTriple) -> (r: Result<TargetTriple, HostTripleError>)
        ensures
            r matches Ok(t) ==> completion_spec(self@, input_host@) == Ok::<Seq<char>, HostTripleErrorKind>(t@),
            r matches Err(e) ==> completion_spec(self@, input_host@) == Err::<Seq<char>, HostTripleErrorKind>(e.kind)
                && e.host@ == input_host@,
    {
        match complete_parts(self.arch, self.os, self.env, input_host) {
            Ok(t) => Ok(TargetTriple(t)),
            Err(e) => Err(e),
        }
    }

    /// The text form: the architecture, then `-os` and `-env` for each
    /// part that is given.
    pub fn to_display_string(&self) -> (r: String)
        ensures
            r@ == partial_display(self@),
    {
        let p = PartialTargetTriple { arch: opt_str_copy(&self.arch), os: opt_str_copy(&self.os), env: opt_str_copy(&self.env) };
        p.to_display_string()
    }
}

/// The text form of partial-triple parts.
pub open spec fn partial_display(p: (Option<Seq<char>>, Option<Seq<char>>, Option<Seq<char>>)) -> Seq<char> {
    (match p.0 { Some(a) => a, None => Seq::<char>::empty() }) + dash_opt(p.1) + dash_opt(p.2)
}

/// Why a host triple could not serve to complete a partial triple.
#[derive(Debug, Clone, Copy, PartialEq, Eq, Structural)]
pub enum HostTripleErrorKind {
    /// The host is not made of known parts.
    Unparsable,
    /// The host names no CPU architecture.
    NoArch,
    /// The host names no operating system.
    NoOs,
}

/// A host triple that could not serve to complete a partial triple.
#[derive(Debug, Clone)]
pub struct HostTripleError {
    pub kind: HostTripleErrorKind,
    pub host: String,
}

/// The first present of two optional parts.
pub open spec fn opt_or(a: Option<Seq<char>>, b: Option<Seq<char>>) -> Option<Seq<char>> {
    match a {
        Some(x) => Some(x),
        None => b,
    }
}

/// Completing partial parts from a host triple: the host must read as a
/// partial triple with an architecture and an operating system. A missing
/// architecture or operating system is taken from the host; a missing
/// environment is taken from the host only when no operating system was
/// given (so that an explicit operating system can go without environment).
/// The result joins architecture, operating system and environment (if any)
/// with `-`.
pub open spec fn completion_spec(
    parts: (Option<Seq<char>>, Option<Seq<char>>, Option<Seq<char>>),
    host: Seq<char>,
) -> Result<Seq<char>, HostTripleErrorKind> {
    match partial_triple_read(host) {
        None => Err(HostTripleErrorKind::Unparsable),
        Some(h) => {
            if h.0 is None {
                Err(HostTripleErrorKind::NoArch)
            } else if h.1 is None {
                Err(HostTripleErrorKind::NoOs)
            } else {
                let env = if parts.1 is Some { parts.2 } else { opt_or(parts.2, h.2) };
                let arch = opt_or(parts.0, h.0).unwrap();
                let os = opt_or(parts.1, h.1).unwrap();
                Ok(arch + seq!['-'] + os + dash_opt(env))
            }
        },
    }
}

fn take_or(a: Option<String>, b: Option<String>) -> (r: Option<String>)
    ensures
        r.deep_view() == opt_or(a.deep_view(), b.deep_view()),
{
    match a {
        Some(x) => Some(x),
        None => b,
    }
}

/// Fills missing parts of a partial triple from `host`; see
/// [`completion_spec`].
pub fn complete_parts(
    arch: Option<String>,
    os: Option<String>,
    env: Option<String>,
    host: &TargetTriple,
) -> (r: Result<String, HostTripleError>)
    ensures
        r matches Ok(t) ==> completion_spec((arch.deep_view(), os.deep_view(), env.deep_view()), host@)
            == Ok::<Seq<char>, HostTripleErrorKind>(t@),
        r matches Err(e) ==> completion_spec((arch.deep_view(), os.deep_view(), env.deep_view()), host@)
            == Err::<Seq<char>, HostTripleErrorKind>(e.kind) && e.host@ == host@,
{
    let h = match parse_partial_triple(host.0.as_str()) {
        Some(h) => h,
        None => {
            return Err(HostTripleError { kind: HostTripleErrorKind::Unparsable, host: host.0.clone() });
        },
    };
    let (host_arch, host_os, host_env) = h;
    if host_arch.is_none() {
        return Err(HostTripleError { kind: HostTripleErrorKind::NoArch, host: host.0.clone() });
    }
    if host_os.is_none() {
        return Err(HostTripleError { kind: HostTripleErrorKind::NoOs, host: host.0.clone() });
    }
    let ghost parts = (arch.deep_view(), os.deep_view(), env.deep_view());
    let ghost hv = (host_arch.deep_view(), host_os.deep_view(), host_env.deep_view());
    let os_given = os.is_some();
    let env2 = if os_given { env } else { take_or(env, host_env) };
    let a = take_or(arch, host_arch).unwrap();
    let o = take_or(os, host_os).unwrap();
    let mut t = concat3(a.as_str(), "-", o.as_str());
    proof {
        reveal_strlit("-");
        assert("-"@ =~= seq!['-']);
    }
    let ghost t0 = t@;
    match env2 {
        Some(e) => {
            t.append("-");
            t.append(e.as_str());
            assert(t@ =~= t0 + dash_opt(Some(e@)));
        },
        None => {
            assert(t@ =~= t0 + dash_opt(None));
        },
    }
    proof {
        assert(Some(hv) == partial_triple_read(host@));
        assert(a@ == opt_or(parts.0, hv.0).unwrap());
        assert(o@ == opt_or(parts.1, hv.1).unwrap());
    }
    Ok(t)
}

/// A full target triple such as `x86_64-unknown-linux-gnu`. Any string
/// may be held; parsing happens where parts are needed.
#[derive(Debug, Clone, PartialEq, Eq, PartialOrd, Ord, Hash)]
pub struct TargetTriple(String);

impl View for TargetTriple {
    type V = Seq<char>;

    closed spec fn view(&self) -> Seq<char> {
        self.0@
    }
}

/// The windows operating-system part.
pub open spec fn windows_os() -> Seq<char> {
    "pc-windows"@
}

/// Whether a toolchain for the triple `b` can run on a host with triple
/// `a`; `None` when the triples differ and one of them does not read as a
/// partial triple. Equal triples can always run each other. Otherwise the
/// operating systems must agree and be windows, where the architectures must
/// agree or the host be `x86_64` or `aarch64` running `i686`.
pub open spec fn can_run_spec(a: Seq<char>, b: Seq<char>) -> Option<bool> {
    if a == b {
        Some(true)
    } else {
        match (partial_triple_read(a), partial_triple_read(b)) {
            (Some(pa), Some(pb)) => Some(
                if pa.1 != pb.1 {
                    false
                } else if pa.1 == Some(windows_os()) {
                    pa.0 == pb.0
                        || (pa.0 == Some("x86_64"@) && pb.0 == Some("i686"@))
                        || (pa.0 == Some("aarch64"@) && pb.0 == Some("i686"@))
                } else {
                    false
                },
            ),
            _ => None,
        }
    }
}

/// Every toolchain can run on a host of its own triple.
pub proof fn law_can_run_itself(a: Seq<char>)
    ensures
        can_run_spec(a, a) == Some(true),
{
}

/// A host never runs a toolchain for another operating system.
pub proof fn law_can_run_same_os_only(a: Seq<char>, b: Seq<char>)
    ensures
        can_run_spec(a, b) == Some(true) && a != b
            ==> (partial_triple_read(a) matches Some(pa) && partial_triple_read(b) matches Some(pb) && pa.1 == pb.1),
{
}

/// What a host can run, it can run on anything that runs the host: if a
/// can run b and b can run c, a can run c.
pub proof fn law_can_run_transitive(a: Seq<char>, b: Seq<char>, c: Seq<char>)
    requires
        can_run_spec(a, b) == Some(true),
        can_run_spec(b, c) == Some(true),
    ensures
        can_run_spec(a, c) == Some(true),
{
}

/// Completing a partial triple that names an operating system keeps its
/// own environment: the result is the architecture (the given one, else
/// the host's), the given operating system, and then exactly the given
/// environment, none when none is given, whatever the host's operating
/// system and environment.
pub proof fn law_given_os_keeps_given_environment(
    parts: (Option<Seq<char>>, Option<Seq<char>>, Option<Seq<char>>),
    host: Seq<char>,
)
    requires
        parts.1 is Some,
        completion_spec(parts, host) is Ok,
    ensures
        partial_triple_read(host) matches Some(h) && h.0 is Some
            && completion_spec(parts, host) == Ok::<Seq<char>, HostTripleErrorKind>(
                (match parts.0 { Some(a) => a, None => h.0->Some_0 }) + seq!['-'] + parts.1->Some_0 + dash_opt(parts.2),
            ),
{
}

/// Completing a partial triple with architecture and operating system gives
/// the same triple on every host that can complete it: the host adds
/// nothing, not even its environment.
pub proof fn law_full_os_completion_ignores_host(
    parts: (Option<Seq<char>>, Option<Seq<char>>, Option<Seq<char>>),
    host1: Seq<char>,
    host2: Seq<char>,
)
    requires
        parts.0 is Some,
        parts.1 is Some,
        completion_spec(parts, host1) is Ok,
        completion_spec(parts, host2) is Ok,
    ensures
        completion_spec(parts, host1) == completion_spec(parts, host2),
{
}

/// Without an operating system, the host's environment fills a missing
/// environment, and a given one is kept.
pub proof fn law_missing_os_takes_host_environment(
    parts: (Option<Seq<char>>, Option<Seq<char>>, Option<Seq<char>>),
    host: Seq<char>,
)
    requires
        parts.1 is None,
        completion_spec(parts, host) is Ok,
    ensures
        partial_triple_read(host) matches Some(h) && h.0 is Some && h.1 is Some
            && completion_spec(parts, host) == Ok::<Seq<char>, HostTripleErrorKind>(
                (match parts.0 { Some(a) => a, None => h.0->Some_0 }) + seq!['-'] + h.1->Some_0
                    + dash_opt(match parts.2 { Some(e) => Some(e), None => h.2 }),
            ),
{
}

/// A target triple that does not read as a partial triple.
#[derive(Debug, Clone)]
pub struct UnparsableTriple {
    pub triple: String,
}

impl TargetTriple {
    /// A triple holding `name` as it is.
    pub fn new(name: &str) -> (r: Self)
        ensures
            r@ == name@,
    {
        TargetTriple(name.to_owned())
    }

    /// A triple taking ownership of `name`.
    pub fn from_string(name: String) -> (r: Self)
        ensures
            r@ == name@,
    {
        TargetTriple(name)
    }

    /// The triple's text.
    pub fn as_str(&self) -> (r: &str)
        ensures
            r@ == self@,
    {
        self.0.as_str()
    }

    /// A copy of this triple.
    pub fn copy(&self) -> (r: Self)
        ensures
            r@ == self@,
    {
        TargetTriple(self.0.clone())
    }

    /// Character-wise equality.
    pub fn same_as(&self, other: &TargetTriple) -> (r: bool)
        ensures
            r == (self@ == other@),
    {
        str_eq(self.0.as_str(), other.0.as_str())
    }

    /// The host triple when one was detected, else the triple this program
    /// was built for.
    pub fn from_host_or_build(host: Option<TargetTriple>, build: TargetTriple) -> (r: Self)
        ensures
            r@ == (match host { Some(h) => h@, None => build@ }),
    {
        match host {
            Some(h) => h,
            None => build,
        }
    }

    /// Whether a toolchain built for `other` can run on this host; see
    /// [`can_run_spec`]. Fails, naming the triple, when one of the two
    /// does not read as a partial triple.
    pub fn can_run(&self, other: &TargetTriple) -> (r: Result<bool, UnparsableTriple>)
        ensures
            r matches Ok(b) ==> can_run_spec(self@, other@) == Some(b),
            r is Err <==> can_run_spec(self@, other@) is None,
            r matches Err(e) ==> e.triple@ == (if partial_triple_read(self@) is None { self@ } else { other@ }),
    {
        if self.same_as(other) {
            return Ok(true);
        }
        let ps = match PartialTargetTriple::new(self.0.as_str()) {
            Some(p) => p,
            None => {
                return Err(UnparsableTriple { triple: self.0.clone() });
            },
        };
        let po = match PartialTargetTriple::new(other.0.as_str()) {
            Some(p) => p,
            None => {
                return Err(UnparsableTriple { triple: other.0.clone() });
            },
        };
        let ret = if !opt_str_eq(&ps.os, &po.os) {
            false
        } else if opt_str_is(&ps.os, "pc-windows") {
            opt_str_eq(&ps.arch, &po.arch)
                || (opt_str_is(&ps.arch, "x86_64") && opt_str_is(&po.arch, "i686"))
                || (opt_str_is(&ps.arch, "aarch64") && opt_str_is(&po.arch, "i686"))
        } else {
            false
        };
        Ok(ret)
    }
}

} // verus!
