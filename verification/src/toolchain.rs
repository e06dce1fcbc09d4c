//! Toolchain names: channels, dates, targets, and the descriptors built
//! from them.

use vstd::prelude::*;
use crate::text::{char_len, char_is, concat2, concat3, decimal, digits_at, digits_in, is_digit, lacks_char_after, lacks_char_from, occurs_at, str_eq, substring, u64_to_decimal};
use crate::triple::{complete_parts, dash_opt, partial_triple_read, completion_spec, HostTripleError, HostTripleErrorKind, PartialTargetTriple, TargetTriple};
use crate::outside::{comparator_numbers, prerelease_text, semver_comparator, semver_prerelease_ok};

verus! {

/// Number of channel shapes a toolchain name may start with: the three
/// named channels followed by the version shapes.
/// The official distribution server.
pub const DEFAULT_DIST_SERVER: &'static str = "https://static.rust-lang.org";

pub const NUM_CHANNEL_SHAPES: usize = 39;

/// Digits of the minor version in version shape `c` (greedy: 3, 2, then 1).
pub open spec fn minor_digits(c: int) -> int {
    3 - (c - 3) / 12
}

/// Patch part of version shape `c`: 0 two digits, 1 one digit, 2 none.
pub open spec fn patch_sel(c: int) -> int {
    ((c - 3) % 12) / 4
}

/// Beta tag of version shape `c`: 0 `-beta.NN`, 1 `-beta.N`, 2 `-beta`, 3 none.
pub open spec fn beta_sel(c: int) -> int {
    (c - 3) % 4
}

/// Characters taken by a patch part (with its dot).
pub open spec fn patch_len(ps: int) -> int {
    if ps == 0 { 3 } else if ps == 1 { 2 } else { 0 }
}

/// Characters taken by a beta tag.
pub open spec fn beta_len(bs: int) -> int {
    if bs == 0 { 8 } else if bs == 1 { 7 } else if bs == 2 { 5 } else { 0 }
}

/// Characters taken by channel shape `c`.
pub open spec fn shape_len(c: int) -> int {
    if c == 0 { 7 }
    else if c == 1 { 4 }
    else if c == 2 { 6 }
    else { 2 + minor_digits(c) + patch_len(patch_sel(c)) + beta_len(beta_sel(c)) }
}

/// `s` starts with channel shape `c`. Shapes, in trying order: `nightly`,
/// `beta`, `stable`, then versions `D.M[.P][-beta[.B]]` with one major
/// digit, one to three minor digits, an optional patch of one or two
/// digits and an optional beta tag with an optional one- or two-digit
/// number; longer parts are tried first and present parts before absent
/// ones.
pub open spec fn shape_matches(s: Seq<char>, c: int) -> bool {
    if c == 0 {
        s.len() >= 7 && s.subrange(0, 7) == "nightly"@
    } else if c == 1 {
        s.len() >= 4 && s.subrange(0, 4) == "beta"@
    } else if c == 2 {
        s.len() >= 6 && s.subrange(0, 6) == "stable"@
    } else {
        let m = minor_digits(c);
        let ps = patch_sel(c);
        let bs = beta_sel(c);
        let q = 2 + m + patch_len(ps);
        &&& s.len() >= shape_len(c)
        &&& digits_in(s, 0, 1)
        &&& s[1] == '.'
        &&& digits_in(s, 2, m)
        &&& (ps < 2 ==> s[2 + m] == '.' && digits_in(s, 3 + m, patch_len(ps) - 1))
        &&& (bs < 3 ==> s.subrange(q, q + 5) == "-beta"@)
        &&& (bs < 2 ==> s[q + 5] == '.' && digits_in(s, q + 6, beta_len(bs) - 6))
    }
}

/// A `-YYYY-MM-DD` date (digits only) at `pos`.
pub open spec fn date_at(s: Seq<char>, pos: int) -> bool {
    &&& pos + 11 <= s.len()
    &&& s[pos] == '-'
    &&& digits_in(s, pos + 1, 4)
    &&& s[pos + 5] == '-'
    &&& digits_in(s, pos + 6, 2)
    &&& s[pos + 8] == '-'
    &&& digits_in(s, pos + 9, 2)
}

/// Where the target part may start, after shape `c` and (when `d == 0`) a date.
pub open spec fn after_date(c: int, d: int) -> int {
    shape_len(c) + if d == 0 { 11int } else { 0int }
}

/// `s` reads as channel shape `c`, a date when `d == 0`, and a non-empty
/// `-target` without a line break when `t == 0`, with nothing left over.
pub open spec fn desc_candidate(s: Seq<char>, c: int, d: int, t: int) -> bool {
    &&& 0 <= c < NUM_CHANNEL_SHAPES
    &&& 0 <= d < 2
    &&& 0 <= t < 2
    &&& shape_matches(s, c)
    &&& (d == 0 ==> date_at(s, shape_len(c)))
    &&& (d == 1 ==> shape_len(c) <= s.len())
    &&& if t == 0 {
        after_date(c, d) + 2 <= s.len() && s[after_date(c, d)] == '-'
            && lacks_char_from(s, after_date(c, d) + 1, '\n')
    } else {
        after_date(c, d) == s.len()
    }
}

/// Lexicographic trying order on `(shape, date, target)` choices.
pub open spec fn desc_lt(a: int, b: int, c: int, i: int, j: int, k: int) -> bool {
    a < i || (a == i && (b < j || (b == j && c < k)))
}

/// `(c, d, t)` is the first choice, in trying order, that `s` reads as.
pub open spec fn first_desc_candidate(s: Seq<char>, c: int, d: int, t: int) -> bool {
    &&& desc_candidate(s, c, d, t)
    &&& forall|a: int, b: int, e: int|
        #![trigger desc_candidate(s, a, b, e)]
        desc_lt(a, b, e, c, d, t) ==> !desc_candidate(s, a, b, e)
}

/// The channel, date and target texts of choice `(c, d, t)`.
pub open spec fn desc_parts(s: Seq<char>, c: int, d: int, t: int) -> (Seq<char>, Option<Seq<char>>, Option<Seq<char>>) {
    (
        s.subrange(0, shape_len(c)),
        if d == 0 { Some(s.subrange(shape_len(c) + 1, shape_len(c) + 11)) } else { None },
        if t == 0 { Some(s.subrange(after_date(c, d) + 1, s.len() as int)) } else { None },
    )
}

/// The raw channel, date and target of a toolchain name, if it has the
/// shape `CHANNEL[-YYYY-MM-DD][-TARGET]`; parts are found as described at
/// [`shape_matches`], the first choice in trying order winning.
pub open spec fn toolchain_parts_spec(s: Seq<char>) -> Option<(Seq<char>, Option<Seq<char>>, Option<Seq<char>>)> {
    if exists|c: int, d: int, t: int| first_desc_candidate(s, c, d, t) {
        let (c, d, t) = choose|c: int, d: int, t: int| first_desc_candidate(s, c, d, t);
        Some(desc_parts(s, c, d, t))
    } else {
        None
    }
}

proof fn lemma_first_desc_unique(s: Seq<char>, c: int, d: int, t: int, a: int, b: int, e: int)
    requires
        first_desc_candidate(s, c, d, t),
        first_desc_candidate(s, a, b, e),
    ensures
        c == a && d == b && t == e,
{
    if desc_lt(a, b, e, c, d, t) {
        assert(!desc_candidate(s, a, b, e));
    } else if desc_lt(c, d, t, a, b, e) {
        assert(!desc_candidate(s, c, d, t));
    }
}

fn shape_len_exec(c: usize) -> (r: usize)
    requires
        c < NUM_CHANNEL_SHAPES,
    ensures
        r == shape_len(c as int),
        r <= 18,
{
    if c == 0 {
        7
    } else if c == 1 {
        4
    } else if c == 2 {
        6
    } else {
        let idx = c - 3;
        let m = 3 - idx / 12;
        let ps = (idx % 12) / 4;
        let bs = idx % 4;
        let pl: usize = if ps == 0 { 3 } else if ps == 1 { 2 } else { 0 };
        let bl: usize = if bs == 0 { 8 } else if bs == 1 { 7 } else if bs == 2 { 5 } else { 0 };
        2 + m + pl + bl
    }
}

fn shape_matches_exec(s: &str, c: usize) -> (r: bool)
    requires
        c < NUM_CHANNEL_SHAPES,
    ensures
        r == shape_matches(s@, c as int),
{
    if c == 0 {
        let r = occurs_at(s, 0, "nightly");
        proof { reveal_strlit("nightly"); }
        r
    } else if c == 1 {
        let r = occurs_at(s, 0, "beta");
        proof { reveal_strlit("beta"); }
        r
    } else if c == 2 {
        let r = occurs_at(s, 0, "stable");
        proof { reveal_strlit("stable"); }
        r
    } else {
        let n = char_len(s);
        let idx = c - 3;
        let m = 3 - idx / 12;
        let ps = (idx % 12) / 4;
        let bs = idx % 4;
        let pl: usize = if ps == 0 { 3 } else if ps == 1 { 2 } else { 0 };
        let bl: usize = if bs == 0 { 8 } else if bs == 1 { 7 } else if bs == 2 { 5 } else { 0 };
        let q = 2 + m + pl;
        let len = q + bl;
        assert(len == shape_len(c as int));
        if n < len {
            return false;
        }
        if !digits_at(s, 0, 1) || !char_is(s, 1, '.') || !digits_at(s, 2, m) {
            return false;
        }
        if ps < 2 {
            if !char_is(s, 2 + m, '.') || !digits_at(s, 3 + m, pl - 1) {
                return false;
            }
        }
        if bs < 3 {
            let b = occurs_at(s, q, "-beta");
            proof { reveal_strlit("-beta"); }
            if !b {
                return false;
            }
        }
        if bs < 2 {
            if !char_is(s, q + 5, '.') || !digits_at(s, q + 6, bl - 6) {
                return false;
            }
        }
        true
    }
}

fn date_at_exec(s: &str, pos: usize) -> (r: bool)
    requires
        pos <= 18,
    ensures
        r == date_at(s@, pos as int),
{
    let n = char_len(s);
    if n < pos + 11 {
        return false;
    }
    char_is(s, pos, '-') && digits_at(s, pos + 1, 4) && char_is(s, pos + 5, '-')
        && digits_at(s, pos + 6, 2) && char_is(s, pos + 8, '-') && digits_at(s, pos + 9, 2)
}

/// Splits a toolchain name into its raw channel, date and target texts;
/// see [`toolchain_parts_spec`].
pub fn parse_toolchain_parts(desc: &str) -> (r: Option<(String, Option<String>, Option<String>)>)
    ensures
        r.deep_view() == toolchain_parts_spec(desc@),
{
    let n = char_len(desc);
    let mut c: usize = 0;
    while c < NUM_CHANNEL_SHAPES
        invariant
            n == desc@.len(),
            c <= NUM_CHANNEL_SHAPES,
            forall|a: int, b: int, e: int|
                #![trigger desc_candidate(desc@, a, b, e)]
                a < c ==> !desc_candidate(desc@, a, b, e),
        decreases NUM_CHANNEL_SHAPES - c,
    {
        if shape_matches_exec(desc, c) {
            let l = shape_len_exec(c);
            let mut d: usize = 0;
            while d < 2
                invariant
                    n == desc@.len(),
                    c < NUM_CHANNEL_SHAPES,
                    l == shape_len(c as int),
                    l <= 18,
                    d <= 2,
                    shape_matches(desc@, c as int),
                    forall|a: int, b: int, e: int|
                        #![trigger desc_candidate(desc@, a, b, e)]
                        a < c ==> !desc_candidate(desc@, a, b, e),
                    forall|b: int, e: int|
                        #![trigger desc_candidate(desc@, c as int, b, e)]
                        b < d ==> !desc_candidate(desc@, c as int, b, e),
                decreases 2 - d,
            {
                let date_ok = if d == 0 { date_at_exec(desc, l) } else { l <= n };
                if date_ok {
                    let after: usize = if d == 0 { l + 11 } else { l };
                    assert(after == after_date(c as int, d as int));
                    let mut t: usize = 0;
                    while t < 2
                        invariant
                            n == desc@.len(),
                            c < NUM_CHANNEL_SHAPES,
                            l == shape_len(c as int),
                            l <= 18,
                            d < 2,
                            after == after_date(c as int, d as int),
                            after <= n,
                            t <= 2,
                            shape_matches(desc@, c as int),
                            d == 0 ==> date_at(desc@, l as int),
                            d == 1 ==> l <= n,
                            forall|a: int, b: int, e: int|
                                #![trigger desc_candidate(desc@, a, b, e)]
                                a < c ==> !desc_candidate(desc@, a, b, e),
                            forall|b: int, e: int|
                                #![trigger desc_candidate(desc@, c as int, b, e)]
                                b < d ==> !desc_candidate(desc@, c as int, b, e),
                            forall|e: int|
                                #![trigger desc_candidate(desc@, c as int, d as int, e)]
                                e < t ==> !desc_candidate(desc@, c as int, d as int, e),
                        decreases 2 - t,
                    {
                        let ok = if t == 0 {
                            after + 2 <= n && char_is(desc, after, '-') && lacks_char_after(desc, after + 1, '\n')
                        } else {
                            after == n
                        };
                        if ok {
                            let ch = substring(desc, 0, l);
                            let date = if d == 0 { Some(substring(desc, l + 1, l + 11)) } else { None };
                            let target = if t == 0 { Some(substring(desc, after + 1, n)) } else { None };
                            let r = (ch, date, target);
                            proof {
                                assert(desc_candidate(desc@, c as int, d as int, t as int));
                                assert(first_desc_candidate(desc@, c as int, d as int, t as int));
                                let (a, b, e) = choose|a: int, b: int, e: int| first_desc_candidate(desc@, a, b, e);
                                lemma_first_desc_unique(desc@, c as int, d as int, t as int, a, b, e);
                                assert(r.deep_view() == desc_parts(desc@, c as int, d as int, t as int));
                            }
                            return Some(r);
                        }
                        t = t + 1;
                    }
                }
                d = d + 1;
            }
        }
        c = c + 1;
    }
    proof {
        if exists|a: int, b: int, e: int| first_desc_candidate(desc@, a, b, e) {
            let (a, b, e) = choose|a: int, b: int, e: int| first_desc_candidate(desc@, a, b, e);
            assert(!desc_candidate(desc@, a, b, e));
        }
    }
    None
}


/// Position of the first `-` in `s`, if any.
pub open spec fn first_dash(s: Seq<char>) -> Option<int> {
    if exists|i: int| 0 <= i < s.len() && s[i] == '-' {
        Some(choose|i: int| 0 <= i < s.len() && s[i] == '-' && forall|j: int| 0 <= j < i ==> s[j] != '-')
    } else {
        None
    }
}

/// Finds the first `-` of `s`.
pub fn find_first_dash(s: &str) -> (r: Option<usize>)
    ensures
        r is Some <==> first_dash(s@) is Some,
        r matches Some(i) ==> first_dash(s@) == Some(i as int) && i < s@.len() && s@[i as int] == '-',
{
    let n = char_len(s);
    let mut i: usize = 0;
    while i < n
        invariant
            n == s@.len(),
            i <= n,
            forall|j: int| 0 <= j < i ==> s@[j] != '-',
        decreases n - i,
    {
        if s.get_char(i) == '-' {
            proof {
                let k = choose|k: int| 0 <= k < s@.len() && s@[k] == '-' && forall|j: int| 0 <= j < k ==> s@[j] != '-';
                if k < i {
                } else if k > i {
                    assert(s@[i as int] != '-');
                }
            }
            return Some(i);
        }
        i = i + 1;
    }
    None
}

/// Why a version text was refused.
#[derive(Debug, Clone, Copy, PartialEq, Eq, Structural)]
pub enum VersionErrorKind {
    /// The text does not start with an ASCII digit.
    NotDigit,
    /// The part before the first `-` is not a comparator version.
    BadVersion,
    /// The part after the first `-` is not a pre-release identifier.
    BadPrerelease,
}

/// A version text that could not be read.
#[derive(Debug)]
pub struct VersionError {
    pub kind: VersionErrorKind,
    pub text: String,
}

/// The reading of a partial version text: it must not start with anything
/// but an ASCII digit; the part before the first `-` is read by `semver` as
/// a comparator (major, optional minor, optional patch), and the part after
/// it (empty when there is no `-`) must be a `semver` pre-release.
pub open spec fn partial_version_spec(s: Seq<char>) -> Result<(u64, Option<u64>, Option<u64>, Seq<char>), VersionErrorKind> {
    if s.len() > 0 && !is_digit(s[0]) {
        Err(VersionErrorKind::NotDigit)
    } else {
        let (v, pre) = match first_dash(s) {
            Some(k) => (s.subrange(0, k), s.subrange(k + 1, s.len() as int)),
            None => (s, Seq::<char>::empty()),
        };
        match semver_comparator(v) {
            None => Err(VersionErrorKind::BadVersion),
            Some((a, b, c)) => if semver_prerelease_ok(pre) {
                Ok((a, b, c, pre))
            } else {
                Err(VersionErrorKind::BadPrerelease)
            },
        }
    }
}

/// A possibly incomplete Rust toolchain version, such as `1.48` or
/// `1.23.0-beta.4`.
#[derive(Debug, Clone, PartialEq, Eq)]
pub struct PartialVersion {
    pub major: u64,
    pub minor: Option<u64>,
    pub patch: Option<u64>,
    pub pre: String,
}

impl View for PartialVersion {
    type V = (u64, Option<u64>, Option<u64>, Seq<char>);

    open spec fn view(&self) -> Self::V {
        (self.major, self.minor, self.patch, self.pre@)
    }
}

/// The text form of a partial version: major, `.minor` and `.patch` when
/// given, and `-pre` when the pre-release is not empty.
pub open spec fn partial_version_display(v: (u64, Option<u64>, Option<u64>, Seq<char>)) -> Seq<char> {
    decimal(v.0 as nat)
        + (match v.1 { Some(m) => seq!['.'] + decimal(m as nat), None => Seq::<char>::empty() })
        + (match v.2 { Some(p) => seq!['.'] + decimal(p as nat), None => Seq::<char>::empty() })
        + (if v.3.len() > 0 { seq!['-'] + v.3 } else { Seq::<char>::empty() })
}

impl PartialVersion {
    /// Reads a partial version; see [`partial_version_spec`].
    pub fn from_str(ver: &str) -> (r: Result<Self, VersionError>)
        ensures
            r matches Ok(v) ==> partial_version_spec(ver@) == Ok::<_, VersionErrorKind>(v@),
            r matches Err(e) ==> partial_version_spec(ver@) == Err::<(u64, Option<u64>, Option<u64>, Seq<char>), _>(e.kind)
                && e.text@ == ver@,
    {
        let n = char_len(ver);
        if n > 0 {
            let c = ver.get_char(0);
            if !('0' <= c && c <= '9') {
                return Err(VersionError { kind: VersionErrorKind::NotDigit, text: ver.to_owned() });
            }
        }
        let (v, pre) = match find_first_dash(ver) {
            Some(k) => (substring(ver, 0, k), substring(ver, k + 1, n)),
            None => (ver.to_owned(), String::new()),
        };
        let nums = match comparator_numbers(v.as_str()) {
            Ok(x) => x,
            Err(_) => {
                return Err(VersionError { kind: VersionErrorKind::BadVersion, text: ver.to_owned() });
            },
        };
        let pre = match prerelease_text(pre.as_str()) {
            Ok(p) => p,
            Err(_) => {
                return Err(VersionError { kind: VersionErrorKind::BadPrerelease, text: ver.to_owned() });
            },
        };
        let (major, minor, patch) = nums;
        Ok(PartialVersion { major, minor, patch, pre })
    }

    /// The text form; see [`partial_version_display`].
    pub fn to_display_string(&self) -> (r: String)
        ensures
            r@ == partial_version_display(self@),
    {
        let mut r = u64_to_decimal(self.major);
        let ghost r0 = r@;
        if let Some(m) = self.minor {
            r.append(".");
            let d = u64_to_decimal(m);
            r.append(d.as_str());
        }
        let ghost r1 = r@;
        if let Some(p) = self.patch {
            r.append(".");
            let d = u64_to_decimal(p);
            r.append(d.as_str());
        }
        let ghost r2 = r@;
        if char_len(self.pre.as_str()) > 0 {
            r.append("-");
            r.append(self.pre.as_str());
        }
        proof {
            reveal_strlit(".");
            reveal_strlit("-");
            assert("."@ =~= seq!['.']);
            assert("-"@ =~= seq!['-']);
            assert(r@ =~= partial_version_display(self@));
        }
        r
    }

    /// A copy of this version.
    pub fn copy(&self) -> (r: Self)
        ensures
            r@ == self@,
    {
        PartialVersion { major: self.major, minor: self.minor, patch: self.patch, pre: self.pre.clone() }
    }
}

/// The abstract value of a channel.
pub enum ChannelSpec {
    Stable,
    Beta,
    Nightly,
    Version((u64, Option<u64>, Option<u64>, Seq<char>)),
}

/// A release channel: one of the named channels or a (partial) version.
#[derive(Debug, Clone, PartialEq, Eq)]
pub enum Channel {
    Stable,
    Beta,
    Nightly,
    Version(PartialVersion),
}

impl View for Channel {
    type V = ChannelSpec;

    open spec fn view(&self) -> ChannelSpec {
        match self {
            Channel::Stable => ChannelSpec::Stable,
            Channel::Beta => ChannelSpec::Beta,
            Channel::Nightly => ChannelSpec::Nightly,
            Channel::Version(v) => ChannelSpec::Version(v@),
        }
    }
}

/// Reading a channel: `stable`, `beta` and `nightly` name themselves; any
/// other text is read as a partial version.
pub open spec fn channel_spec(s: Seq<char>) -> Result<ChannelSpec, VersionErrorKind> {
    if s == "stable"@ {
        Ok(ChannelSpec::Stable)
    } else if s == "beta"@ {
        Ok(ChannelSpec::Beta)
    } else if s == "nightly"@ {
        Ok(ChannelSpec::Nightly)
    } else {
        match partial_version_spec(s) {
            Ok(v) => Ok(ChannelSpec::Version(v)),
            Err(e) => Err(e),
        }
    }
}

/// The text form of a channel.
pub open spec fn channel_display(c: ChannelSpec) -> Seq<char> {
    match c {
        ChannelSpec::Stable => "stable"@,
        ChannelSpec::Beta => "beta"@,
        ChannelSpec::Nightly => "nightly"@,
        ChannelSpec::Version(v) => partial_version_display(v),
    }
}

impl Channel {
    /// Reads a channel; see [`channel_spec`].
    pub fn from_str(chan: &str) -> (r: Result<Self, VersionError>)
        ensures
            r matches Ok(c) ==> channel_spec(chan@) == Ok::<ChannelSpec, VersionErrorKind>(c@),
            r matches Err(e) ==> channel_spec(chan@) == Err::<ChannelSpec, VersionErrorKind>(e.kind)
                && e.text@ == chan@,
    {
        if str_eq(chan, "stable") {
            Ok(Channel::Stable)
        } else if str_eq(chan, "beta") {
            Ok(Channel::Beta)
        } else if str_eq(chan, "nightly") {
            Ok(Channel::Nightly)
        } else {
            match PartialVersion::from_str(chan) {
                Ok(v) => Ok(Channel::Version(v)),
                Err(e) => Err(e),
            }
        }
    }

    /// The text form; see [`channel_display`].
    pub fn to_display_string(&self) -> (r: String)
        ensures
            r@ == channel_display(self@),
    {
        match self {
            Channel::Stable => "stable".to_owned(),
            Channel::Beta => "beta".to_owned(),
            Channel::Nightly => "nightly".to_owned(),
            Channel::Version(v) => v.to_display_string(),
        }
    }

    /// Whether this is the nightly channel.
    pub fn is_nightly(&self) -> (r: bool)
        ensures
            r == (self@ is Nightly),
    {
        match self {
            Channel::Nightly => true,
            _ => false,
        }
    }

    /// A copy of this channel.
    pub fn copy(&self) -> (r: Self)
        ensures
            r@ == self@,
    {
        match self {
            Channel::Stable => Channel::Stable,
            Channel::Beta => Channel::Beta,
            Channel::Nightly => Channel::Nightly,
            Channel::Version(v) => Channel::Version(v.copy()),
        }
    }
}


/// Channels `1.0` to `1.8` only ever had `.0` releases and are read as
/// `1.x.0`.
pub open spec fn legacy_channel(c: Seq<char>) -> Seq<char> {
    if c.len() == 3 && c[0] == '1' && c[1] == '.' && '0' <= c[2] && c[2] <= '8' {
        c + seq!['.', '0']
    } else {
        c
    }
}

fn legacy_channel_exec(c: String) -> (r: String)
    ensures
        r@ == legacy_channel(c@),
{
    let n = char_len(c.as_str());
    if n == 3 && c.as_str().get_char(0) == '1' && c.as_str().get_char(1) == '.' {
        let d = c.as_str().get_char(2);
        if '0' <= d && d <= '8' {
            let r = concat2(c.as_str(), ".0");
            proof {
                reveal_strlit(".0");
                assert(".0"@ =~= seq!['.', '0']);
            }
            return r;
        }
    }
    c
}

/// Whether the channel of a toolchain name that has the expected shape can
/// be read. The functions that read toolchain names require it; their
/// `try_` forms report a name that fails it, such as `1.01`, whose minor
/// version has a leading zero.
pub open spec fn toolchain_name_ok(s: Seq<char>) -> bool {
    match toolchain_parts_spec(s) {
        Some(p) => channel_spec(legacy_channel(p.0)) is Ok,
        None => true,
    }
}

/// A toolchain name that does not have the expected shape.
#[derive(Debug, Clone)]
pub struct InvalidToolchainName {
    pub name: String,
}

impl InvalidToolchainName {
    /// The error message: `invalid toolchain name: 'NAME'`.
    pub fn message(&self) -> (r: String)
        ensures
            r@ == "invalid toolchain name: '"@ + self.name@ + "'"@,
    {
        concat3("invalid toolchain name: '", self.name.as_str(), "'")
    }
}

/// The channel (read), date and target texts of a toolchain name.
#[derive(Debug, PartialEq)]
pub struct ParsedToolchainDesc {
    pub channel: Channel,
    pub date: Option<String>,
    pub target: Option<String>,
}

/// The parts of a well-formed toolchain name, with its channel read.
pub open spec fn parsed_desc_spec(s: Seq<char>) -> Option<(ChannelSpec, Option<Seq<char>>, Option<Seq<char>>)> {
    match toolchain_parts_spec(s) {
        Some(p) => match channel_spec(legacy_channel(p.0)) {
            Ok(c) => Some((c, p.1, p.2)),
            Err(_) => None,
        },
        None => None,
    }
}

impl ParsedToolchainDesc {
    /// Reads a toolchain name `CHANNEL[-YYYY-MM-DD][-TARGET]`; see
    /// [`toolchain_parts_spec`] and [`legacy_channel`].
    pub fn from_str(desc: &str) -> (r: Result<Self, InvalidToolchainName>)
        requires
            toolchain_name_ok(desc@),
        ensures
            r is Err <==> toolchain_parts_spec(desc@) is None,
            r matches Ok(p) ==> parsed_desc_spec(desc@) == Some((p.channel@, p.date.deep_view(), p.target.deep_view())),
            r matches Err(e) ==> e.name@ == desc@,
    {
        match parse_toolchain_parts(desc) {
            Some((c, date, target)) => {
                let c = legacy_channel_exec(c);
                let channel = match Channel::from_str(c.as_str()) {
                    Ok(ch) => ch,
                    Err(_) => {
                        assert(false);
                        return Err(InvalidToolchainName { name: desc.to_owned() });
                    },
                };
                Ok(ParsedToolchainDesc { channel, date, target })
            },
            None => Err(InvalidToolchainName { name: desc.to_owned() }),
        }
    }

    /// Like [`ParsedToolchainDesc::from_str`], but `None` for a name whose
    /// channel cannot be read.
    pub fn try_from_str(desc: &str) -> (r: Option<Result<Self, InvalidToolchainName>>)
        ensures
            r is None <==> !toolchain_name_ok(desc@),
            r matches Some(Ok(p)) ==> parsed_desc_spec(desc@) == Some((p.channel@, p.date.deep_view(), p.target.deep_view())),
            r matches Some(Err(e)) ==> toolchain_parts_spec(desc@) is None && e.name@ == desc@,
    {
        if toolchain_name_is_ok(desc) {
            Some(Self::from_str(desc))
        } else {
            None
        }
    }
}

/// Whether a toolchain name's channel, when it has the expected shape, can
/// be read; see [`toolchain_name_ok`].
pub fn toolchain_name_is_ok(name: &str) -> (r: bool)
    ensures
        r == toolchain_name_ok(name@),
{
    match parse_toolchain_parts(name) {
        Some((c, _, _)) => {
            let c = legacy_channel_exec(c);
            Channel::from_str(c.as_str()).is_ok()
        },
        None => true,
    }
}

/// A toolchain descriptor from the user's side: channel, optional date and
/// a partial target triple, as in `stable-msvc`.
#[derive(Debug, Clone, PartialEq, Eq)]
pub struct PartialToolchainDesc {
    pub channel: Channel,
    pub date: Option<String>,
    pub target: PartialTargetTriple,
}

/// A fully resolved toolchain descriptor with a full target triple, as in
/// `stable-x86_64-pc-windows-msvc`.
#[derive(Debug, Clone, PartialEq, Eq)]
pub struct ToolchainDesc {
    pub channel: Channel,
    pub date: Option<String>,
    pub target: TargetTriple,
}

impl View for PartialToolchainDesc {
    type V = (ChannelSpec, Option<Seq<char>>, (Option<Seq<char>>, Option<Seq<char>>, Option<Seq<char>>));

    open spec fn view(&self) -> Self::V {
        (self.channel@, self.date.deep_view(), self.target@)
    }
}

impl View for ToolchainDesc {
    type V = (ChannelSpec, Option<Seq<char>>, Seq<char>);

    open spec fn view(&self) -> Self::V {
        (self.channel@, self.date.deep_view(), self.target@)
    }
}

/// Reading a partial toolchain name: a well-formed toolchain name whose
/// target part (absent meaning empty) reads as a partial triple.
pub open spec fn partial_desc_spec(s: Seq<char>) -> Option<(ChannelSpec, Option<Seq<char>>, (Option<Seq<char>>, Option<Seq<char>>, Option<Seq<char>>))> {
    match parsed_desc_spec(s) {
        Some(p) => match partial_triple_read(match p.2 { Some(t) => t, None => Seq::<char>::empty() }) {
            Some(t) => Some((p.0, p.1, t)),
            None => None,
        },
        None => None,
    }
}

/// The text form of a partial descriptor: channel, then `-date`, `-arch`,
/// `-os` and `-env` for each part that is given.
pub open spec fn partial_desc_display(d: (ChannelSpec, Option<Seq<char>>, (Option<Seq<char>>, Option<Seq<char>>, Option<Seq<char>>))) -> Seq<char> {
    channel_display(d.0) + dash_opt(d.1) + dash_opt(d.2.0) + dash_opt(d.2.1) + dash_opt(d.2.2)
}

/// The text form of a descriptor: channel, `-date` when given, and `-target`.
pub open spec fn desc_display(d: (ChannelSpec, Option<Seq<char>>, Seq<char>)) -> Seq<char> {
    channel_display(d.0) + dash_opt(d.1) + seq!['-'] + d.2
}

fn append_dash_opt(r: &mut String, o: &Option<String>)
    ensures
        final(r)@ == old(r)@ + dash_opt(o.deep_view()),
{
    proof {
        reveal_strlit("-");
        assert("-"@ =~= seq!['-']);
    }
    match o {
        Some(x) => {
            r.append("-");
            r.append(x.as_str());
            assert(r@ =~= old(r)@ + dash_opt(o.deep_view()));
        },
        None => {
            assert(r@ =~= old(r)@ + dash_opt(o.deep_view()));
        },
    }
}

/// Why a channel name was refused.
#[derive(Debug, Clone)]
pub enum ChannelNameError {
    /// The name is not a toolchain name.
    Invalid(InvalidToolchainName),
    /// The name carries a target triple.
    HasTriple(String),
}

impl ChannelNameError {
    /// The text this error shows: `target triple in channel name 'NAME'`
    /// for a name with a triple, the reading error's own text otherwise.
    pub fn message(&self) -> (r: String)
        ensures
            self matches ChannelNameError::HasTriple(n) ==> r@ == "target triple in channel name '"@ + n@ + "'"@,
            self matches ChannelNameError::Invalid(e) ==> r@ == "invalid toolchain name: '"@ + e.name@ + "'"@,
    {
        match self {
            ChannelNameError::HasTriple(n) => concat3("target triple in channel name '", n.as_str(), "'"),
            ChannelNameError::Invalid(e) => e.message(),
        }
    }
}

impl PartialToolchainDesc {
    /// Reads a partial toolchain name; see [`partial_desc_spec`].
    pub fn from_str(name: &str) -> (r: Result<Self, InvalidToolchainName>)
        requires
            toolchain_name_ok(name@),
        ensures
            r is Err <==> partial_desc_spec(name@) is None,
            r matches Ok(d) ==> partial_desc_spec(name@) == Some(d@),
            r matches Err(e) ==> e.name@ == name@,
    {
        let parsed = match ParsedToolchainDesc::from_str(name) {
            Ok(p) => p,
            Err(e) => {
                return Err(e);
            },
        };
        let t = match &parsed.target {
            Some(t) => t.clone(),
            None => String::new(),
        };
        match PartialTargetTriple::new(t.as_str()) {
            Some(target) => Ok(PartialToolchainDesc { channel: parsed.channel, date: parsed.date, target }),
            None => Err(InvalidToolchainName { name: name.to_owned() }),
        }
    }

    /// Like [`PartialToolchainDesc::from_str`], but `None` for a name whose
    /// channel cannot be read.
    pub fn try_from_str(name: &str) -> (r: Option<Result<Self, InvalidToolchainName>>)
        ensures
            r is None <==> !toolchain_name_ok(name@),
            r matches Some(Ok(d)) ==> partial_desc_spec(name@) == Some(d@),
            r matches Some(Err(e)) ==> partial_desc_spec(name@) is None && e.name@ == name@,
    {
        if toolchain_name_is_ok(name) {
            Some(Self::from_str(name))
        } else {
            None
        }
    }

    /// Creates a toolchain descriptor using `input_host` to fill in the
    /// missing target parts; see [`completion_spec`].
    pub fn resolve(self, input_host: &TargetTriple) -> (r: Result<ToolchainDesc, HostTripleError>)
        ensures
            r matches Ok(d) ==> d@.0 == self@.0 && d@.1 == self@.1
                && completion_spec(self@.2, input_host@) == Ok::<Seq<char>, HostTripleErrorKind>(d@.2),
            r matches Err(e) ==> completion_spec(self@.2, input_host@) == Err::<Seq<char>, HostTripleErrorKind>(e.kind)
                && e.host@ == input_host@,
    {
        let PartialToolchainDesc { channel, date, target } = self;
        let PartialTargetTriple { arch, os, env } = target;
        match complete_parts(arch, os, env, input_host) {
            Ok(t) => Ok(ToolchainDesc { channel, date, target: TargetTriple::from_string(t) }),
            Err(e) => Err(e),
        }
    }

    /// Whether any part of a target triple was given.
    pub fn has_triple(&self) -> (r: bool)
        ensures
            r == (self.target.arch is Some || self.target.os is Some || self.target.env is Some),
    {
        self.target.arch.is_some() || self.target.os.is_some() || self.target.env.is_some()
    }

    /// The text form; see [`partial_desc_display`].
    pub fn to_display_string(&self) -> (r: String)
        ensures
            r@ == partial_desc_display(self@),
    {
        let mut r = self.channel.to_display_string();
        append_dash_opt(&mut r, &self.date);
        append_dash_opt(&mut r, &self.target.arch);
        append_dash_opt(&mut r, &self.target.os);
        append_dash_opt(&mut r, &self.target.env);
        r
    }
}

/// Reading a full toolchain name: a well-formed toolchain name with a
/// target part, which is taken as the target triple as it is.
pub open spec fn desc_spec(s: Seq<char>) -> Option<(ChannelSpec, Option<Seq<char>>, Seq<char>)> {
    match parsed_desc_spec(s) {
        Some(p) => match p.2 {
            Some(t) => Some((p.0, p.1, t)),
            None => None,
        },
        None => None,
    }
}

/// Whether a descriptor tracks a channel: it has no date, and its channel
/// is a named one or a version without patch number or with the plain
/// `beta` pre-release.
pub open spec fn is_tracking_spec(d: (ChannelSpec, Option<Seq<char>>, Seq<char>)) -> bool {
    if d.1 is Some {
        false
    } else {
        match d.0 {
            ChannelSpec::Version(v) => v.2 is None || v.3 == "beta"@,
            _ => true,
        }
    }
}

impl ToolchainDesc {
    /// Reads a full toolchain name; see [`desc_spec`].
    pub fn from_str(name: &str) -> (r: Result<Self, InvalidToolchainName>)
        requires
            toolchain_name_ok(name@),
        ensures
            r is Err <==> desc_spec(name@) is None,
            r matches Ok(d) ==> desc_spec(name@) == Some(d@),
            r matches Err(e) ==> e.name@ == name@,
    {
        let parsed = match ParsedToolchainDesc::from_str(name) {
            Ok(p) => p,
            Err(e) => {
                return Err(e);
            },
        };
        match parsed.target {
            Some(t) => Ok(ToolchainDesc { channel: parsed.channel, date: parsed.date, target: TargetTriple::from_string(t) }),
            None => Err(InvalidToolchainName { name: name.to_owned() }),
        }
    }

    /// Like [`ToolchainDesc::from_str`], but `None` for a name whose channel
    /// cannot be read.
    pub fn try_from_str(name: &str) -> (r: Option<Result<Self, InvalidToolchainName>>)
        ensures
            r is None <==> !toolchain_name_ok(name@),
            r matches Some(Ok(d)) ==> desc_spec(name@) == Some(d@),
            r matches Some(Err(e)) ==> desc_spec(name@) is None && e.name@ == name@,
    {
        if toolchain_name_is_ok(name) {
            Some(Self::from_str(name))
        } else {
            None
        }
    }

    /// The URL of the v1 manifest: `ROOT/channel-rust-CHANNEL`, with the
    /// date as a directory when given, or under `staging/` when staging
    /// (dated staging manifests do not exist).
    pub fn manifest_v1_url(&self, dist_root: &str, staging: bool) -> (r: String)
        requires
            !(staging && self.date is Some),
        ensures
            r@ == manifest_v1_url_spec(self@, dist_root@, staging),
    {
        let ch = self.channel.to_display_string();
        let mut r = dist_root.to_owned();
        match &self.date {
            Some(d) => {
                r.append("/");
                r.append(d.as_str());
            },
            None => {
                if staging {
                    r.append("/staging");
                }
            },
        }
        r.append("/channel-rust-");
        r.append(ch.as_str());
        proof {
            reveal_strlit("/");
            reveal_strlit("/staging");
            reveal_strlit("/channel-rust-");
            assert(r@ =~= manifest_v1_url_spec(self@, dist_root@, staging));
        }
        r
    }

    /// The URL of the v2 manifest: the v1 URL with `.toml` appended.
    pub fn manifest_v2_url(&self, dist_root: &str, staging: bool) -> (r: String)
        requires
            !(staging && self.date is Some),
        ensures
            r@ == manifest_v1_url_spec(self@, dist_root@, staging) + ".toml"@,
    {
        let mut r = self.manifest_v1_url(dist_root, staging);
        r.append(".toml");
        r
    }

    /// Either `CHANNEL` or `CHANNEL-DATE`.
    pub fn manifest_name(&self) -> (r: String)
        ensures
            r@ == channel_display(self@.0) + dash_opt(self@.1),
    {
        let mut r = self.channel.to_display_string();
        append_dash_opt(&mut r, &self.date);
        r
    }

    /// The distribution directory: the root, or `ROOT/DATE` when dated.
    pub fn package_dir(&self, dist_root: &str) -> (r: String)
        ensures
            r@ == (match self@.1 { Some(d) => dist_root@ + seq!['/'] + d, None => dist_root@ }),
    {
        match &self.date {
            None => dist_root.to_owned(),
            Some(d) => {
                let mut r = dist_root.to_owned();
                r.append("/");
                r.append(d.as_str());
                proof {
                    reveal_strlit("/");
                    assert(r@ =~= dist_root@ + seq!['/'] + d@);
                }
                r
            },
        }
    }

    /// The text form; see [`desc_display`].
    pub fn to_display_string(&self) -> (r: String)
        ensures
            r@ == desc_display(self@),
    {
        let mut r = self.channel.to_display_string();
        append_dash_opt(&mut r, &self.date);
        r.append("-");
        r.append(self.target.as_str());
        proof {
            reveal_strlit("-");
            assert(r@ =~= desc_display(self@));
        }
        r
    }

    /// The full specification: the text form, followed by ` (tracking)`
    /// when the descriptor has no date.
    pub fn full_spec(&self) -> (r: String)
        ensures
            r@ == desc_display(self@) + (if self@.1 is Some { Seq::<char>::empty() } else { " (tracking)"@ }),
    {
        let mut r = self.to_display_string();
        if self.date.is_none() {
            r.append(" (tracking)");
        } else {
            assert(r@ =~= r@ + Seq::<char>::empty());
        }
        r
    }

    /// Whether this descriptor tracks a channel; see [`is_tracking_spec`].
    pub fn is_tracking(&self) -> (r: bool)
        ensures
            r == is_tracking_spec(self@),
    {
        if self.date.is_some() {
            return false;
        }
        match &self.channel {
            Channel::Version(v) => v.patch.is_none() || str_eq(v.pre.as_str(), "beta"),
            _ => true,
        }
    }
}

/// The v1 manifest URL of a descriptor.
pub open spec fn manifest_v1_url_spec(d: (ChannelSpec, Option<Seq<char>>, Seq<char>), root: Seq<char>, staging: bool) -> Seq<char> {
    root + (match d.1 {
        Some(date) => seq!['/'] + date,
        None => if staging { "/staging"@ } else { Seq::<char>::empty() },
    }) + "/channel-rust-"@ + channel_display(d.0)
}

/// Checks that a channel name names a channel (with optional date) and no
/// target triple.
pub fn validate_channel_name(name: &str) -> (r: Result<(), ChannelNameError>)
    requires
        toolchain_name_ok(name@),
    ensures
        r is Ok <==> (partial_desc_spec(name@) matches Some(d)
            && d.2.0 is None && d.2.1 is None && d.2.2 is None),
        r matches Err(ChannelNameError::HasTriple(n)) ==> n@ == name@,
        r matches Err(ChannelNameError::HasTriple(_)) <==> (partial_desc_spec(name@) matches Some(d)
            && !(d.2.0 is None && d.2.1 is None && d.2.2 is None)),
        r matches Err(ChannelNameError::Invalid(_)) <==> partial_desc_spec(name@) is None,
        r matches Err(ChannelNameError::Invalid(e)) ==> e.name@ == name@,
{
    match PartialToolchainDesc::from_str(name) {
        Ok(d) => {
            if d.has_triple() {
                Err(ChannelNameError::HasTriple(name.to_owned()))
            } else {
                Ok(())
            }
        },
        Err(e) => Err(ChannelNameError::Invalid(e)),
    }
}

/// Like [`validate_channel_name`], but `None` for a name whose channel
/// cannot be read.
pub fn try_validate_channel_name(name: &str) -> (r: Option<Result<(), ChannelNameError>>)
    ensures
        r is None <==> !toolchain_name_ok(name@),
        r matches Some(v) ==> (v is Ok <==> (partial_desc_spec(name@) matches Some(d)
            && d.2.0 is None && d.2.1 is None && d.2.2 is None)),
        r matches Some(Err(ChannelNameError::HasTriple(n))) ==> n@ == name@,
        r matches Some(Err(ChannelNameError::HasTriple(_))) <==> (toolchain_name_ok(name@)
            && (partial_desc_spec(name@) matches Some(d) && !(d.2.0 is None && d.2.1 is None && d.2.2 is None))),
        r matches Some(Err(ChannelNameError::Invalid(_))) <==> (toolchain_name_ok(name@)
            && partial_desc_spec(name@) is None),
        r matches Some(Err(ChannelNameError::Invalid(e))) ==> e.name@ == name@,
{
    if toolchain_name_is_ok(name) {
        Some(validate_channel_name(name))
    } else {
        None
    }
}


/// An installation profile: which set of components to install.
#[derive(Debug, Clone, Copy, PartialEq, Eq, Hash, Structural)]
pub enum Profile {
    Minimal,
    Default,
    Complete,
}

/// Reading a profile name: `minimal` or `m`; `default`, `d` or the empty
/// name; `complete` or `c`.
pub open spec fn profile_spec(s: Seq<char>) -> Option<Profile> {
    if s == "minimal"@ || s == "m"@ {
        Some(Profile::Minimal)
    } else if s == "default"@ || s == "d"@ || s.len() == 0 {
        Some(Profile::Default)
    } else if s == "complete"@ || s == "c"@ {
        Some(Profile::Complete)
    } else {
        None
    }
}

/// The name of a profile.
pub open spec fn profile_name(p: Profile) -> Seq<char> {
    match p {
        Profile::Minimal => "minimal"@,
        Profile::Default => "default"@,
        Profile::Complete => "complete"@,
    }
}

/// An unknown profile name.
#[derive(Debug, Clone)]
pub struct UnknownProfile {
    pub name: String,
}

impl UnknownProfile {
    /// The error message, listing the valid names.
    pub fn message(&self) -> (r: String)
        ensures
            r@ == "unknown profile name: '"@ + self.name@ + "'; valid profile names are: minimal, default, complete"@,
    {
        concat3("unknown profile name: '", self.name.as_str(), "'; valid profile names are: minimal, default, complete")
    }
}

impl Profile {
    /// Reads a profile name; see [`profile_spec`].
    pub fn from_str(name: &str) -> (r: Result<Profile, UnknownProfile>)
        ensures
            r matches Ok(p) ==> profile_spec(name@) == Some(p),
            r matches Err(e) ==> profile_spec(name@) is None && e.name@ == name@,
    {
        if str_eq(name, "minimal") || str_eq(name, "m") {
            Ok(Profile::Minimal)
        } else if str_eq(name, "default") || str_eq(name, "d") || char_len(name) == 0 {
            Ok(Profile::Default)
        } else if str_eq(name, "complete") || str_eq(name, "c") {
            Ok(Profile::Complete)
        } else {
            Err(UnknownProfile { name: name.to_owned() })
        }
    }

    /// The profile's name.
    pub fn as_str(&self) -> (r: &'static str)
        ensures
            r@ == profile_name(*self),
    {
        match self {
            Profile::Minimal => "minimal",
            Profile::Default => "default",
            Profile::Complete => "complete",
        }
    }

    /// The names of all profiles, in order.
    pub fn names() -> (r: Vec<&'static str>)
        ensures
            r@.len() == 3,
            r@[0]@ == profile_name(Profile::Minimal),
            r@[1]@ == profile_name(Profile::Default),
            r@[2]@ == profile_name(Profile::Complete),
    {
        let mut v = Vec::new();
        v.push("minimal");
        v.push("default");
        v.push("complete");
        v
    }

    /// The name of the default profile.
    pub fn default_name() -> (r: &'static str)
        ensures
            r@ == profile_name(Profile::Default),
    {
        "default"
    }

    /// The default profile.
    pub fn default_profile() -> (r: Profile)
        ensures
            r == Profile::Default,
    {
        Profile::Default
    }
}

/// The profile names quoted and joined with `, `.
pub fn valid_profile_names() -> (r: String)
    ensures
        r@ == "'minimal', 'default', 'complete'"@,
{
    "'minimal', 'default', 'complete'".to_owned()
}

/// Whether toolchains are installed automatically when first needed.
#[derive(Debug, Clone, Copy, PartialEq, Eq, Hash, Structural)]
pub enum AutoInstallMode {
    Enable,
    Disable,
}

impl AutoInstallMode {
    /// Reads `enable` or `disable`.
    pub fn from_str(mode: &str) -> (r: Option<AutoInstallMode>)
        ensures
            r == (if mode@ == "enable"@ { Some(AutoInstallMode::Enable) }
                else if mode@ == "disable"@ { Some(AutoInstallMode::Disable) }
                else { None }),
    {
        if str_eq(mode, "enable") {
            Some(AutoInstallMode::Enable)
        } else if str_eq(mode, "disable") {
            Some(AutoInstallMode::Disable)
        } else {
            None
        }
    }

    /// The mode's name.
    pub fn as_str(&self) -> (r: &'static str)
        ensures
            r@ == (match self { AutoInstallMode::Enable => "enable"@, AutoInstallMode::Disable => "disable"@ }),
    {
        match self {
            AutoInstallMode::Enable => "enable",
            AutoInstallMode::Disable => "disable",
        }
    }
}

} // verus!
