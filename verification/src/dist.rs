//! Installing a toolchain from a distribution server: the components that a
//! request asks for, the search back through nightlies, and the message
//! for components that a release lacks.

use vstd::prelude::*;
use crate::errors::descriptions;
use crate::manifest::{
    comp_in, component_description_spec, comps_view, contains_component, first_key, lemma_first_key,
    profile_components_spec, rename_spec, rust_target_spec, same_comp, Component, ComponentV, Manifest,
    ManifestError, ManifestErrorV, ManifestV,
};
use crate::text::{
    concat2, concat3, has_prefix, join_strings, join_with, lemma_seq_lt_irreflexive, lemma_seq_lt_total,
    lemma_seq_lt_transitive, seq_lt, starts_with, str_eq, str_lt, texts_view,
};
use crate::outside::{chrono_day_text, chrono_day_from_text, day_to_text, parse_day};
use crate::notifications::Notification;
use crate::triple::dash_opt;
use crate::toolchain::{channel_display, partial_version_display, ChannelSpec, Channel, Profile, ToolchainDesc};
use crate::package::{lines_of, split_lines};
use crate::triple::TargetTriple;

verus! {

/// The help for a nightly channel that lacks components, before and after
/// the toolchain name.
pub const NIGHTLY_HELP_HEAD: &'static str = "Sometimes not all components are available in any given nightly.\nIf you don't need these components, you could try a minimal installation with:\n\n    rustup toolchain add ";
/// See [`NIGHTLY_HELP_HEAD`].
pub const NIGHTLY_HELP_TAIL: &'static str = " --profile minimal\n\nIf you require these components, please install and use the latest successfully built version,\nwhich you can find at <https://rust-lang.github.io/rustup-components-history>.\n\nAfter determining the correct date, install it with a command such as:\n\n    rustup toolchain install nightly-2018-12-27\n\nThen you can use the toolchain with commands such as:\n\n    cargo +nightly-2018-12-27 build";
/// The help for a beta or stable channel that lacks components, around two
/// mentions of the toolchain name.
pub const RELEASE_HELP_HEAD: &'static str = "One or many components listed above might have been permanently removed from newer versions\nof the official Rust distribution due to deprecation.\n\nYou can find the list of removed components at\n<https://rust-lang.github.io/rustup/devel/concepts/components.html#previous-components>.\n\nIf you are updating an existing toolchain, after determining the deprecated component(s)\nand/or target(s) in question, please remove them with:\n\n    rustup component remove --toolchain ";
/// See [`RELEASE_HELP_HEAD`].
pub const RELEASE_HELP_MIDDLE: &'static str = " <COMPONENT>...\n    rustup target remove --toolchain ";
/// See [`RELEASE_HELP_HEAD`].
pub const RELEASE_HELP_TAIL: &'static str = " <TARGET>...\n\nAfter that, you should be able to continue with the update as usual.";

/// The help that follows the list of missing components, by channel.
pub open spec fn missing_help(toolchain: Seq<char>) -> Seq<char> {
    if has_prefix(toolchain, "nightly"@) {
        NIGHTLY_HELP_HEAD@ + toolchain + NIGHTLY_HELP_TAIL@
    } else if has_prefix(toolchain, "beta"@) || has_prefix(toolchain, "stable"@) {
        RELEASE_HELP_HEAD@ + toolchain + RELEASE_HELP_MIDDLE@ + toolchain + RELEASE_HELP_TAIL@
    } else {
        Seq::empty()
    }
}

/// The message for components missing from a release of a whole
/// toolchain: the component described on a line of its own, or the
/// descriptions of several; then the help for the channel.
pub open spec fn components_missing_msg_spec(cs: Seq<ComponentV>, m: ManifestV, toolchain: Seq<char>) -> Seq<char> {
    (if cs.len() == 1 {
        "component "@ + component_description_spec(m, cs[0]) + " is unavailable for download for channel '"@
            + toolchain + "'\n"@
    } else {
        "some components are unavailable for download for channel '"@ + toolchain + "': "@
            + join_with(descriptions(m, cs), ", "@)
    }) + missing_help(toolchain)
}

fn missing_help_exec(toolchain: &str) -> (r: String)
    ensures
        r@ == missing_help(toolchain@),
{
    if starts_with(toolchain, "nightly") {
        concat3(NIGHTLY_HELP_HEAD, toolchain, NIGHTLY_HELP_TAIL)
    } else if starts_with(toolchain, "beta") || starts_with(toolchain, "stable") {
        let mut r = concat3(RELEASE_HELP_HEAD, toolchain, RELEASE_HELP_MIDDLE);
        r.append(toolchain);
        r.append(RELEASE_HELP_TAIL);
        r
    } else {
        String::new()
    }
}

/// The message for components missing from a release; see
/// [`components_missing_msg_spec`]. There must be at least one.
pub fn components_missing_msg(cs: &Vec<Component>, manifest: &Manifest, toolchain: &str) -> (r: String)
    requires
        cs@.len() > 0,
    ensures
        r@ == components_missing_msg_spec(comps_view(cs@), manifest@, toolchain@),
{
    let mut r;
    if cs.len() == 1 {
        let d = manifest.component_description(&cs[0]);
        r = concat2("component ", d.as_str());
        r.append(" is unavailable for download for channel '");
        r.append(toolchain);
        r.append("'\n");
        assert(r@ =~= "component "@ + component_description_spec(manifest@, comps_view(cs@)[0])
            + " is unavailable for download for channel '"@ + toolchain@ + "'\n"@);
    } else {
        let ghost v = comps_view(cs@);
        let mut parts: Vec<String> = Vec::new();
        let mut i: usize = 0;
        while i < cs.len()
            invariant
                v == comps_view(cs@),
                i <= v.len(),
                parts@.len() == i,
                forall|k: int| 0 <= k < i ==> (#[trigger] texts_view(parts@)[k]) == descriptions(manifest@, v)[k],
            decreases v.len() - i,
        {
            let part = manifest.component_description(&cs[i]);
            let ghost p0 = parts@;
            parts.push(part);
            assert(texts_view(parts@) =~= texts_view(p0).push(part@));
            i = i + 1;
        }
        assert(texts_view(parts@) =~= descriptions(manifest@, v));
        let joined = join_strings(&parts, ", ");
        r = concat3("some components are unavailable for download for channel '", toolchain, "': ");
        r.append(joined.as_str());
        assert(r@ =~= "some components are unavailable for download for channel '"@ + toolchain@ + "': "@
            + join_with(descriptions(manifest@, v), ", "@));
    }
    let ghost r0 = r@;
    let help = missing_help_exec(toolchain);
    r.append(help.as_str());
    assert(r@ =~= r0 + missing_help(toolchain@));
    r
}


/// The order of optional targets: the one for every target first, then by
/// name.
pub open spec fn opt_lt(a: Option<Seq<char>>, b: Option<Seq<char>>) -> bool {
    match (a, b) {
        (None, Some(_)) => true,
        (Some(x), Some(y)) => seq_lt(x, y),
        _ => false,
    }
}

/// The order of components: by package name, then target, then the
/// extension flag (the order Rust derives for a component's fields).
pub open spec fn comp_lt(a: ComponentV, b: ComponentV) -> bool {
    seq_lt(a.0, b.0) || (a.0 == b.0 && (opt_lt(a.1, b.1) || (a.1 == b.1 && !a.2 && b.2)))
}

/// [`comp_lt`] is irreflexive.
pub proof fn lemma_comp_lt_irreflexive(a: ComponentV)
    ensures
        !comp_lt(a, a),
{
    lemma_seq_lt_irreflexive(a.0);
    if let Some(x) = a.1 {
        lemma_seq_lt_irreflexive(x);
    }
}

/// [`comp_lt`] is transitive.
pub proof fn lemma_comp_lt_transitive(a: ComponentV, b: ComponentV, c: ComponentV)
    requires
        comp_lt(a, b),
        comp_lt(b, c),
    ensures
        comp_lt(a, c),
{
    if seq_lt(a.0, b.0) && seq_lt(b.0, c.0) {
        lemma_seq_lt_transitive(a.0, b.0, c.0);
    } else if a.0 == b.0 && b.0 == c.0 {
        if let (Some(x), Some(y), Some(z)) = (a.1, b.1, c.1) {
            if seq_lt(x, y) && seq_lt(y, z) {
                lemma_seq_lt_transitive(x, y, z);
            }
        }
    }
}

/// Two different components are ordered one way or the other.
pub proof fn lemma_comp_lt_total(a: ComponentV, b: ComponentV)
    requires
        a != b,
    ensures
        comp_lt(a, b) || comp_lt(b, a),
{
    if a.0 != b.0 {
        lemma_seq_lt_total(a.0, b.0);
    } else if a.1 != b.1 {
        if let (Some(x), Some(y)) = (a.1, b.1) {
            lemma_seq_lt_total(x, y);
        }
    }
}

/// Strictly increasing by [`comp_lt`].
pub open spec fn comps_sorted(s: Seq<ComponentV>) -> bool {
    forall|i: int, j: int| 0 <= i < j < s.len() ==> comp_lt(#[trigger] s[i], #[trigger] s[j])
}

fn opt_triple_lt(a: &Option<TargetTriple>, b: &Option<TargetTriple>) -> (r: bool)
    ensures
        r == opt_lt(match a { Some(t) => Some(t@), None => None }, match b { Some(t) => Some(t@), None => None }),
{
    match (a, b) {
        (None, Some(_)) => true,
        (Some(x), Some(y)) => str_lt(x.as_str(), y.as_str()),
        _ => false,
    }
}

/// Whether component `a` comes before `b`; see [`comp_lt`].
pub fn component_lt(a: &Component, b: &Component) -> (r: bool)
    ensures
        r == comp_lt(a@, b@),
{
    if str_lt(a.pkg.as_str(), b.pkg.as_str()) {
        return true;
    }
    if !str_eq(a.pkg.as_str(), b.pkg.as_str()) {
        return false;
    }
    if opt_triple_lt(&a.target, &b.target) {
        return true;
    }
    let same_target = match (&a.target, &b.target) {
        (Some(x), Some(y)) => x.same_as(y),
        (None, None) => true,
        _ => false,
    };
    same_target && !a.is_extension && b.is_extension
}

/// Inserts `e`, which is not among them, into sorted components, keeping
/// them sorted.
fn insert_sorted(v: &mut Vec<Component>, e: Component)
    requires
        comps_sorted(comps_view(old(v)@)),
        !comp_in(e@, comps_view(old(v)@)),
    ensures
        comps_sorted(comps_view(final(v)@)),
        comps_view(final(v)@).len() == comps_view(old(v)@).len() + 1,
        forall|x: ComponentV| comps_view(final(v)@).contains(x) <==> (comps_view(old(v)@).contains(x) || x == e@),
{
    let ghost s = comps_view(v@);
    let mut k: usize = 0;
    while k < v.len()
        invariant
            s == comps_view(v@),
            k <= s.len(),
            forall|i: int| 0 <= i < k ==> !comp_lt(e@, #[trigger] s[i]),
        ensures
            k <= s.len(),
            forall|i: int| 0 <= i < k ==> !comp_lt(e@, #[trigger] s[i]),
            k < s.len() ==> comp_lt(e@, s[k as int]),
        decreases s.len() - k,
    {
        if component_lt(&e, &v[k]) {
            break;
        }
        k = k + 1;
    }
    proof {
        assert forall|i: int| 0 <= i < k implies comp_lt(#[trigger] s[i], e@) by {
            if s[i] == e@ {
                assert(same_comp(s[i], e@));
            }
            lemma_comp_lt_total(s[i], e@);
        }
        assert forall|j: int| k <= j < s.len() implies comp_lt(e@, #[trigger] s[j]) by {
            if j > k {
                lemma_comp_lt_transitive(e@, s[k as int], s[j]);
            }
        }
    }
    let ghost ev = e@;
    v.insert(k, e);
    proof {
        let t = comps_view(v@);
        assert(t =~= s.insert(k as int, ev));
        assert forall|i: int, j: int| 0 <= i < j < t.len() implies comp_lt(#[trigger] t[i], #[trigger] t[j]) by {
            if j < k {
                assert(t[i] == s[i] && t[j] == s[j]);
            } else if j == k {
                assert(t[i] == s[i]);
            } else if i < k {
                assert(t[i] == s[i] && t[j] == s[j - 1]);
                lemma_comp_lt_transitive(s[i], ev, s[j - 1]);
            } else if i == k {
                assert(t[j] == s[j - 1]);
            } else {
                assert(t[i] == s[i - 1] && t[j] == s[j - 1]);
            }
        }
        assert forall|x: ComponentV| t.contains(x) <==> (s.contains(x) || x == ev) by {
            if t.contains(x) {
                let i = choose|i: int| 0 <= i < t.len() && t[i] == x;
                if i < k {
                    assert(s[i] == x);
                } else if i > k {
                    assert(s[i - 1] == x);
                }
            }
            if s.contains(x) {
                let i = choose|i: int| 0 <= i < s.len() && s[i] == x;
                if i < k {
                    assert(t[i] == x);
                } else {
                    assert(t[i + 1] == x);
                }
            }
            if x == ev {
                assert(t[k as int] == x);
            }
        }
    }
}

/// The list without later repeats of a component (by package and target),
/// each kept where it first appears.
pub open spec fn dedup_comps(s: Seq<ComponentV>) -> Seq<ComponentV>
    decreases s.len(),
{
    if s.len() == 0 {
        Seq::empty()
    } else {
        let d = dedup_comps(s.drop_last());
        if comp_in(s.last(), d) { d } else { d.push(s.last()) }
    }
}

/// Lists with the same elements hold the same components.
proof fn lemma_same_elements_comp_in(a: Seq<ComponentV>, b: Seq<ComponentV>, c: ComponentV)
    requires
        forall|x: ComponentV| a.contains(x) <==> b.contains(x),
    ensures
        comp_in(c, a) <==> comp_in(c, b),
{
    if comp_in(c, a) {
        let i = choose|i: int| 0 <= i < a.len() && same_comp(#[trigger] a[i], c);
        assert(a.contains(a[i]));
        let j = choose|j: int| 0 <= j < b.len() && b[j] == a[i];
        assert(same_comp(b[j], c));
    }
    if comp_in(c, b) {
        let i = choose|i: int| 0 <= i < b.len() && same_comp(#[trigger] b[i], c);
        assert(b.contains(b[i]));
        let j = choose|j: int| 0 <= j < a.len() && a[j] == b[i];
        assert(same_comp(a[j], c));
    }
}

/// The components ordered by [`comp_lt`], each (by package and target)
/// once, as first found; see [`dedup_comps`].
pub fn sorted_unique(w: &Vec<Component>) -> (r: Vec<Component>)
    ensures
        comps_sorted(comps_view(r@)),
        comps_view(r@).len() == dedup_comps(comps_view(w@)).len(),
        forall|x: ComponentV| comps_view(r@).contains(x) <==> dedup_comps(comps_view(w@)).contains(x),
{
    let ghost ws = comps_view(w@);
    let mut out: Vec<Component> = Vec::new();
    let mut i: usize = 0;
    assert(ws.take(0) =~= Seq::<ComponentV>::empty());
    while i < w.len()
        invariant
            ws == comps_view(w@),
            i <= ws.len(),
            comps_sorted(comps_view(out@)),
            comps_view(out@).len() == dedup_comps(ws.take(i as int)).len(),
            forall|x: ComponentV| comps_view(out@).contains(x) <==> dedup_comps(ws.take(i as int)).contains(x),
        decreases ws.len() - i,
    {
        let e = &w[i];
        let ghost d = dedup_comps(ws.take(i as int));
        proof {
            assert(ws.take(i + 1).drop_last() =~= ws.take(i as int));
            assert(ws.take(i + 1).last() == e@);
            lemma_same_elements_comp_in(comps_view(out@), d, e@);
        }
        if !contains_component(&out, e) {
            let ghost o0 = comps_view(out@);
            insert_sorted(&mut out, e.copy());
            proof {
                let nd = d.push(e@);
                assert forall|x: ComponentV| nd.contains(x) <==> (d.contains(x) || x == e@) by {
                    if nd.contains(x) {
                        let j = choose|j: int| 0 <= j < nd.len() && nd[j] == x;
                        if j < d.len() {
                            assert(d[j] == x);
                        }
                    }
                    if d.contains(x) {
                        let j = choose|j: int| 0 <= j < d.len() && d[j] == x;
                        assert(nd[j] == x);
                    }
                    if x == e@ {
                        assert(nd[d.len() as int] == x);
                    }
                }
            }
        }
        i = i + 1;
    }
    assert(ws.take(ws.len() as int) =~= ws);
    out
}

/// The pairs of package and target of components.
pub open spec fn pkg_targets(s: Seq<ComponentV>) -> Seq<(Seq<char>, Option<Seq<char>>)> {
    s.map_values(|c: ComponentV| (c.0, c.1))
}

/// An error of an installation from a distribution server.
#[derive(Debug)]
pub enum DistError {
    /// The release lacks components that the installation needs.
    ToolchainComponentsMissing(Vec<Component>, Manifest, String),
    /// There is no release for the toolchain.
    MissingReleaseForToolchain(String),
    /// The name is not that of an official toolchain.
    InvalidOfficialName(String),
}

/// Whether an error can be told to the user: one for missing components
/// names at least one.
pub open spec fn dist_error_wf(e: &DistError) -> bool {
    e matches DistError::ToolchainComponentsMissing(cs, _, _) ==> cs@.len() > 0
}

impl DistError {
    /// The error's message: the message of [`components_missing_msg`] for
    /// missing components, `no release found for 'NAME'`, or
    /// `invalid toolchain name: 'NAME'`.
    pub fn message(&self) -> (r: String)
        requires
            dist_error_wf(self),
        ensures
            r@ == (match self {
                DistError::ToolchainComponentsMissing(cs, m, t) => components_missing_msg_spec(comps_view(cs@), m@, t@),
                DistError::MissingReleaseForToolchain(n) => "no release found for '"@ + n@ + "'"@,
                DistError::InvalidOfficialName(n) => "invalid toolchain name: '"@ + n@ + "'"@,
            }),
    {
        match self {
            DistError::ToolchainComponentsMissing(cs, m, t) => components_missing_msg(cs, m, t.as_str()),
            DistError::MissingReleaseForToolchain(n) => concat3("no release found for '", n.as_str(), "'"),
            DistError::InvalidOfficialName(n) => concat3("invalid toolchain name: '", n.as_str(), "'"),
        }
    }
}

/// How fetching a manifest failed.
#[derive(Debug, Clone, Copy, PartialEq, Eq, Structural)]
pub enum ManifestFetchError {
    /// The manifest's hash did not match.
    ChecksumFailed,
    /// There is no such manifest on the server.
    NotFound,
    /// Anything else.
    Other,
}

/// What follows a failed fetch of the (v2) manifest.
#[derive(Debug, Clone, Copy, PartialEq, Eq, Structural)]
pub enum AfterManifestError {
    /// Nothing changed: a mismatched manifest is not installed.
    NothingChanged,
    /// Announce it (`DownloadingLegacyManifest`) and fetch the legacy
    /// (v1) manifest instead.
    TryLegacy,
    /// Fail with the error as it is.
    Fail,
}

/// What follows a failed fetch of the manifest: a checksum mismatch leaves
/// everything as it is, a missing manifest sends the search to the legacy
/// manifest, any other error stops the installation.
pub fn after_manifest_error(e: ManifestFetchError) -> (r: AfterManifestError)
    ensures
        r == (match e {
            ManifestFetchError::ChecksumFailed => AfterManifestError::NothingChanged,
            ManifestFetchError::NotFound => AfterManifestError::TryLegacy,
            ManifestFetchError::Other => AfterManifestError::Fail,
        }),
{
    match e {
        ManifestFetchError::ChecksumFailed => AfterManifestError::NothingChanged,
        ManifestFetchError::NotFound => AfterManifestError::TryLegacy,
        ManifestFetchError::Other => AfterManifestError::Fail,
    }
}

/// How a failed fetch of the legacy manifest is reported.
#[derive(Debug)]
pub enum LegacyManifestFailure {
    /// The release does not exist: this error.
    NoRelease(DistError),
    /// The checksum error, as it is.
    AsIs,
    /// The error, under this context.
    WithContext(String),
}

/// How a failed fetch of the legacy manifest of `toolchain` is reported: a
/// missing manifest means there is no release for the toolchain (named by
/// its manifest name); a checksum mismatch is passed on as it is; any
/// other error is passed on under `failed to download manifest for 'NAME'`.
pub fn after_legacy_manifest_error(e: ManifestFetchError, toolchain: &ToolchainDesc) -> (r: LegacyManifestFailure)
    ensures
        e == ManifestFetchError::NotFound <==> r is NoRelease,
        r matches LegacyManifestFailure::NoRelease(d) ==> (d matches DistError::MissingReleaseForToolchain(n)
            && n@ == channel_display(toolchain@.0) + dash_opt(toolchain@.1)),
        e == ManifestFetchError::ChecksumFailed <==> r is AsIs,
        e == ManifestFetchError::Other <==> r is WithContext,
        r matches LegacyManifestFailure::WithContext(c)
            ==> c@ == "failed to download manifest for '"@ + channel_display(toolchain@.0) + dash_opt(toolchain@.1) + "'"@,
{
    match e {
        ManifestFetchError::NotFound => LegacyManifestFailure::NoRelease(
            DistError::MissingReleaseForToolchain(toolchain.manifest_name()),
        ),
        ManifestFetchError::ChecksumFailed => LegacyManifestFailure::AsIs,
        ManifestFetchError::Other => {
            let name = toolchain.manifest_name();
            LegacyManifestFailure::WithContext(concat3("failed to download manifest for '", name.as_str(), "'"))
        },
    }
}

/// Before installing or updating from a distribution server: an update
/// hash file that is present although the toolchain is installed afresh
/// is stray; it is reported (the answer) and then removed.
pub fn stray_update_hash(fresh_install: bool, update_hash: Option<&str>, hash_file_exists: bool) -> (r: Option<Notification>)
    ensures
        r is Some <==> (fresh_install && update_hash is Some && hash_file_exists),
        r matches Some(n) ==> (n matches Notification::StrayHash(p) && update_hash matches Some(h) && p@ == h@),
{
    match update_hash {
        Some(h) => if fresh_install && hash_file_exists {
            Some(Notification::StrayHash(h.to_owned()))
        } else {
            None
        },
        None => None,
    }
}

/// The component for a name that the user asked for: for the toolchain's
/// target and renamed as the manifest says; for every target when the
/// `rust` package's first component of that package serves every target.
pub open spec fn requested_component(m: ManifestV, rtp: Seq<ComponentV>, t: Seq<char>, name: Seq<char>) -> ComponentV {
    let c0 = (name, Some(t), false);
    let c1 = match rename_spec(m, c0) {
        Some(r) => r,
        None => c0,
    };
    match first_key(pkg_targets(rtp), c1.0) {
        Some(i) => if rtp[i].1 is None { (c1.0, None::<Seq<char>>, false) } else { c1 },
        None => c1,
    }
}

/// Everything an installation asks for, in order: the profile's
/// components, the requested ones, and the standard library for each
/// requested target.
pub open spec fn wanted_components(
    m: ManifestV,
    rtp: Seq<ComponentV>,
    t: Seq<char>,
    profile_comps: Seq<ComponentV>,
    names: Seq<Seq<char>>,
    targets: Seq<Seq<char>>,
) -> Seq<ComponentV> {
    profile_comps + names.map_values(|n: Seq<char>| requested_component(m, rtp, t, n))
        + targets.map_values(|x: Seq<char>| ("rust-std"@, Some(x), false))
}

/// Why the components of an installation cannot be worked out: the
/// profile's components, or the `rust` package for the target, are
/// missing.
pub open spec fn explicit_error(m: ManifestV, t: Seq<char>, profile: Option<Profile>) -> Option<ManifestErrorV> {
    match profile {
        Some(p) => match profile_components_spec(m, p, t) {
            Err(e) => Some(e),
            Ok(_) => match rust_target_spec(m, t) {
                Err(e) => Some(e),
                Ok(_) => None,
            },
        },
        None => match rust_target_spec(m, t) {
            Err(e) => Some(e),
            Ok(_) => None,
        },
    }
}

/// The components wanted, given that [`explicit_error`] is none.
pub open spec fn explicit_wanted(
    m: ManifestV,
    t: Seq<char>,
    profile: Option<Profile>,
    names: Seq<Seq<char>>,
    targets: Seq<Seq<char>>,
) -> Seq<ComponentV> {
    let pc = match profile {
        Some(p) => profile_components_spec(m, p, t)->Ok_0,
        None => Seq::empty(),
    };
    wanted_components(m, rust_target_spec(m, t)->Ok_0.1, t, pc, names, targets)
}

fn find_pkg(rtp: &Vec<Component>, pkg: &String) -> (r: Option<usize>)
    ensures
        r is Some <==> first_key(pkg_targets(comps_view(rtp@)), pkg@) is Some,
        r matches Some(i) ==> first_key(pkg_targets(comps_view(rtp@)), pkg@) == Some(i as int) && i < rtp@.len(),
{
    let ghost keys = pkg_targets(comps_view(rtp@));
    let mut i: usize = 0;
    while i < rtp.len()
        invariant
            keys == pkg_targets(comps_view(rtp@)),
            i <= rtp@.len(),
            forall|j: int| 0 <= j < i ==> (#[trigger] keys[j]).0 != pkg@,
        decreases rtp@.len() - i,
    {
        if str_eq(rtp[i].pkg.as_str(), pkg.as_str()) {
            proof {
                lemma_first_key(keys, pkg@, i as int);
            }
            return Some(i);
        }
        i = i + 1;
    }
    None
}

fn request_component(manifest: &Manifest, rtp: &Vec<Component>, target: &TargetTriple, name: &String) -> (r: Component)
    ensures
        r@ == requested_component(manifest@, comps_view(rtp@), target@, name@),
{
    let mut c = Component::new(name.clone(), Some(target.copy()), false);
    match manifest.rename_component(&c) {
        Some(rn) => {
            c = rn;
        },
        None => {},
    }
    match find_pkg(rtp, &c.pkg) {
        Some(i) => {
            assert(comps_view(rtp@)[i as int].1 == (match rtp@[i as int].target { Some(t) => Some(t@), None => None::<Seq<char>> }));
            if rtp[i].target.is_none() {
                c.wildcard()
            } else {
                c
            }
        },
        None => c,
    }
}

/// The components that an installation or update asks for explicitly: the
/// components of `profile` (when given), those named in `components`, and
/// the standard library of each of `targets`, each once and in component
/// order; see [`explicit_wanted`]. Fails as [`explicit_error`] says.
pub fn explicit_components(
    manifest: &Manifest,
    target: &TargetTriple,
    profile: Option<Profile>,
    components: &Vec<String>,
    targets: &Vec<String>,
) -> (r: Result<Vec<Component>, ManifestError>)
    ensures
        r is Err <==> explicit_error(manifest@, target@, profile) is Some,
        r matches Err(e) ==> explicit_error(manifest@, target@, profile) == Some(e@),
        r matches Ok(v) ==> ({
            let d = dedup_comps(explicit_wanted(manifest@, target@, profile, texts_view(components@), texts_view(targets@)));
            &&& comps_sorted(comps_view(v@))
            &&& comps_view(v@).len() == d.len()
            &&& forall|x: ComponentV| comps_view(v@).contains(x) <==> d.contains(x)
        }),
{
    let mut wanted: Vec<Component> = match profile {
        Some(p) => match manifest.get_profile_components(p, target) {
            Ok(v) => v,
            Err(e) => {
                return Err(e);
            },
        },
        None => Vec::new(),
    };
    let rtp = match manifest.rust_target(target) {
        Ok(p) => p,
        Err(e) => {
            return Err(e);
        },
    };
    let ghost pc = comps_view(wanted@);
    let ghost rc = comps_view(rtp.components@);
    let ghost names = texts_view(components@);
    let ghost tgts = texts_view(targets@);
    let mut i: usize = 0;
    while i < components.len()
        invariant
            i <= components@.len(),
            names == texts_view(components@),
            rc == comps_view(rtp.components@),
            comps_view(wanted@) == pc + names.take(i as int).map_values(|n: Seq<char>| requested_component(manifest@, rc, target@, n)),
        decreases components@.len() - i,
    {
        let c = request_component(manifest, &rtp.components, target, &components[i]);
        let ghost w0 = comps_view(wanted@);
        wanted.push(c);
        proof {
            assert(names.take(i + 1) =~= names.take(i as int).push(components@[i as int]@));
            assert(comps_view(wanted@) =~= w0.push(c@));
            assert(comps_view(wanted@) =~= pc + names.take(i + 1).map_values(|n: Seq<char>| requested_component(manifest@, rc, target@, n)));
        }
        i = i + 1;
    }
    assert(names.take(names.len() as int) =~= names);
    let ghost mid = comps_view(wanted@);
    let mut k: usize = 0;
    while k < targets.len()
        invariant
            k <= targets@.len(),
            tgts == texts_view(targets@),
            comps_view(wanted@) == mid + tgts.take(k as int).map_values(|x: Seq<char>| ("rust-std"@, Some(x), false)),
        decreases targets@.len() - k,
    {
        let c = Component::new("rust-std".to_owned(), Some(TargetTriple::new(targets[k].as_str())), false);
        let ghost w0 = comps_view(wanted@);
        wanted.push(c);
        proof {
            assert(tgts.take(k + 1) =~= tgts.take(k as int).push(targets@[k as int]@));
            assert(comps_view(wanted@) =~= w0.push(c@));
            assert(comps_view(wanted@) =~= mid + tgts.take(k + 1).map_values(|x: Seq<char>| ("rust-std"@, Some(x), false)));
        }
        k = k + 1;
    }
    assert(tgts.take(tgts.len() as int) =~= tgts);
    assert(comps_view(wanted@) =~= explicit_wanted(manifest@, target@, profile, names, tgts));
    Ok(sorted_unique(&wanted))
}


/// The chrono form of a manifest date, `YYYY-MM-DD`.
pub open spec fn manifest_date_format() -> Seq<char> {
    "%Y-%m-%d"@
}

/// The day number of a manifest date (`YYYY-MM-DD`), as `chrono` reads it.
pub fn date_from_manifest_date(date: &str) -> (r: Option<i32>)
    ensures
        r == chrono_day_from_text(date@, manifest_date_format()),
{
    parse_day(date, "%Y-%m-%d")
}

/// The manifest date (`YYYY-MM-DD`) of a day number, as `chrono` writes it.
pub fn manifest_date_from_day(day: i32) -> (r: Option<String>)
    ensures
        r is Some <==> chrono_day_text(day, manifest_date_format()) is Some,
        r matches Some(s) ==> chrono_day_text(day, manifest_date_format()) == Some(s@),
{
    day_to_text(day, "%Y-%m-%d")
}

/// The number of nightlies lacking components that a search goes back
/// through unless told otherwise.
pub const BACKTRACK_LIMIT_DEFAULT: i32 = 21;

/// How an attempt to install a toolchain ended.
#[derive(Debug, Clone, Copy, PartialEq, Eq, Structural)]
pub enum Attempt {
    /// It succeeded (or found nothing to do).
    Succeeded,
    /// The release lacks some of the wanted components.
    ComponentsMissing,
    /// There is no release for that date.
    ReleaseMissing,
    /// Any other error.
    Failed,
}

/// What to do after an attempt.
#[derive(Debug, Clone, Copy, PartialEq, Eq, Structural)]
pub enum BacktrackAction {
    /// Stop with the outcome of this attempt.
    ReturnThis,
    /// Stop with the error of the first release that lacked components.
    ReturnFirstError,
    /// Stop: there is nothing newer to install.
    UpToDate,
    /// Try the nightly of this day next.
    TryDay(i32),
}

/// The state of a search back through nightlies for one that has every
/// wanted component.
#[derive(Debug, Clone, Copy, PartialEq, Eq, Structural)]
pub struct Backtrack {
    /// Whether to search at all: only for a nightly without a date.
    pub enabled: bool,
    /// How many more nightlies lacking components may be tried, if limited.
    pub limit: Option<i32>,
    /// The earliest day to try.
    pub last_day: i32,
    /// Whether a release lacking components was met.
    pub seen_missing: bool,
}

/// The search's state is sound: a limit, while searching, is positive.
pub open spec fn backtrack_wf(b: Backtrack) -> bool {
    b.limit matches Some(n) ==> n >= 1
}

/// The start of a search: enabled for a nightly without a date; without a
/// date the number of nightlies lacking components is limited (by the
/// given number, at least one, or by [`BACKTRACK_LIMIT_DEFAULT`]); the
/// search stops at the installed nightly, or, when downgrades are allowed
/// or nothing is installed, at the first manifest.
pub open spec fn backtrack_start(
    nightly: bool,
    has_date: bool,
    provided_limit: Option<i32>,
    allow_downgrade: bool,
    installed_day: Option<i32>,
    first_day: i32,
) -> Backtrack {
    Backtrack {
        enabled: nightly && !has_date,
        limit: if has_date {
            None
        } else {
            let n = match provided_limit {
                Some(n) => n,
                None => BACKTRACK_LIMIT_DEFAULT,
            };
            Some(if n < 1 { 1 } else { n })
        },
        last_day: if allow_downgrade {
            first_day
        } else {
            match installed_day {
                Some(d) => d,
                None => first_day,
            }
        },
        seen_missing: false,
    }
}

/// One step of the search: the new state, the action, and whether this
/// attempt's error is the first of a release lacking components (to be
/// reported if the search fails). `day` is the day of the release just
/// tried.
pub open spec fn backtrack_next(b: Backtrack, attempt: Attempt, day: i32) -> (Backtrack, BacktrackAction, bool) {
    if attempt == Attempt::Succeeded || !b.enabled || attempt == Attempt::Failed {
        (b, BacktrackAction::ReturnThis, false)
    } else {
        let missing = attempt == Attempt::ComponentsMissing;
        let keep = missing && !b.seen_missing;
        let b2 = Backtrack {
            enabled: b.enabled,
            limit: if missing {
                match b.limit {
                    Some(n) => Some((n - 1) as i32),
                    None => None,
                }
            } else {
                b.limit
            },
            last_day: b.last_day,
            seen_missing: b.seen_missing || missing,
        };
        if b2.limit matches Some(n) && n < 1 {
            (b2, BacktrackAction::ReturnFirstError, keep)
        } else if day - 1 < b.last_day {
            (b2, if b2.seen_missing { BacktrackAction::ReturnFirstError } else { BacktrackAction::UpToDate }, keep)
        } else {
            (b2, BacktrackAction::TryDay((day - 1) as i32), keep)
        }
    }
}

impl Backtrack {
    /// The start of a search; see [`backtrack_start`].
    pub fn new(
        nightly: bool,
        has_date: bool,
        provided_limit: Option<i32>,
        allow_downgrade: bool,
        installed_day: Option<i32>,
        first_day: i32,
    ) -> (r: Backtrack)
        ensures
            r == backtrack_start(nightly, has_date, provided_limit, allow_downgrade, installed_day, first_day),
            backtrack_wf(r),
    {
        let limit = if has_date {
            None
        } else {
            let n = match provided_limit {
                Some(n) => n,
                None => BACKTRACK_LIMIT_DEFAULT,
            };
            Some(if n < 1 { 1 } else { n })
        };
        let last_day = if allow_downgrade {
            first_day
        } else {
            match installed_day {
                Some(d) => d,
                None => first_day,
            }
        };
        Backtrack { enabled: nightly && !has_date, limit, last_day, seen_missing: false }
    }

    /// Takes the outcome of the attempt on the release of `day`; see
    /// [`backtrack_next`]. Returns the action and whether to keep this
    /// attempt's error as the first one.
    pub fn next(&mut self, attempt: Attempt, day: i32) -> (r: (BacktrackAction, bool))
        requires
            backtrack_wf(*old(self)),
            day > i32::MIN,
        ensures
            (*final(self), r.0, r.1) == backtrack_next(*old(self), attempt, day),
            r.0 is TryDay ==> backtrack_wf(*final(self)),
    {
        if matches!(attempt, Attempt::Succeeded) || !self.enabled || matches!(attempt, Attempt::Failed) {
            return (BacktrackAction::ReturnThis, false);
        }
        let missing = matches!(attempt, Attempt::ComponentsMissing);
        let keep = missing && !self.seen_missing;
        if missing {
            self.limit = match self.limit {
                Some(n) => Some(n - 1),
                None => None,
            };
        }
        self.seen_missing = self.seen_missing || missing;
        match self.limit {
            Some(n) => {
                if n < 1 {
                    return (BacktrackAction::ReturnFirstError, keep);
                }
            },
            None => {},
        }
        let try_next = day - 1;
        if try_next < self.last_day {
            if self.seen_missing {
                (BacktrackAction::ReturnFirstError, keep)
            } else {
                (BacktrackAction::UpToDate, keep)
            }
        } else {
            (BacktrackAction::TryDay(try_next), keep)
        }
    }
}

/// The search never tries a nightly older than the day it stops at, and
/// each nightly it tries is older than the one before.
pub proof fn law_backtrack_stays_in_range(b: Backtrack, attempt: Attempt, day: i32)
    requires
        backtrack_wf(b),
    ensures
        backtrack_next(b, attempt, day).1 matches BacktrackAction::TryDay(d) ==> b.last_day <= d && d < day,
{
}

/// A search ends: each step that tries another nightly either spends one
/// of a limited number of tries or moves one day closer to the day it
/// stops at, and without a limit only the days count.
pub proof fn law_backtrack_terminates(b: Backtrack, attempt: Attempt, day: i32)
    requires
        backtrack_wf(b),
    ensures
        ({
            let (b2, act, _) = backtrack_next(b, attempt, day);
            act matches BacktrackAction::TryDay(d) ==> {
                &&& b2.last_day == b.last_day
                &&& d - b2.last_day < day - b.last_day
                &&& (b.limit matches Some(n) ==> b2.limit matches Some(n2) && 1 <= n2 <= n)
                &&& (b.limit is None ==> b2.limit is None)
            }
        }),
{
}

/// Without a search (a dated or non-nightly toolchain), the first attempt
/// decides the outcome, and errors other than a missing release or missing
/// components always end the search with that error.
pub proof fn law_backtrack_only_for_missing(b: Backtrack, attempt: Attempt, day: i32)
    ensures
        (!b.enabled || attempt == Attempt::Failed || attempt == Attempt::Succeeded)
            ==> backtrack_next(b, attempt, day).1 == BacktrackAction::ReturnThis,
{
}

/// The error kept for the final report is the first release's that lacked
/// components: it is kept exactly when none was seen before; and the
/// search stops with that error only when there is one.
pub proof fn law_backtrack_keeps_first_error(b: Backtrack, attempt: Attempt, day: i32)
    requires
        backtrack_wf(b),
    ensures
        backtrack_next(b, attempt, day).2 <==> (b.enabled && attempt == Attempt::ComponentsMissing && !b.seen_missing),
        backtrack_next(b, attempt, day).1 == BacktrackAction::ReturnFirstError
            ==> backtrack_next(b, attempt, day).0.seen_missing,
{
}


/// The directory of a release's installers on a server.
pub open spec fn package_dir_spec(d: (ChannelSpec, Option<Seq<char>>, Seq<char>), dist_root: Seq<char>) -> Seq<char> {
    match d.1 {
        Some(date) => dist_root + seq!['/'] + date,
        None => dist_root,
    }
}

/// For a toolchain of a given version, the one installer of its old-style
/// (v1) release: `DIR/rust-VERSION-TARGET.tar.gz`; none for a named
/// channel, whose installers a v1 manifest lists.
pub fn v1_version_installer(desc: &ToolchainDesc, dist_root: &str) -> (r: Option<String>)
    ensures
        r is Some <==> desc@.0 is Version,
        r matches Some(u) ==> (desc@.0 matches ChannelSpec::Version(v)
            && u@ == package_dir_spec(desc@, dist_root@) + "/rust-"@ + partial_version_display(v) + "-"@ + desc@.2 + ".tar.gz"@),
{
    match &desc.channel {
        Channel::Version(v) => {
            let root = desc.package_dir(dist_root);
            let ver = v.to_display_string();
            let mut u = concat3(root.as_str(), "/rust-", ver.as_str());
            u.append("-");
            u.append(desc.target.as_str());
            u.append(".tar.gz");
            Some(u)
        },
        _ => None,
    }
}

/// The installers a v1 manifest lists: each of its lines under the
/// release's directory `root_url`.
pub fn v1_manifest_urls(root_url: &str, manifest_text: &str) -> (r: Vec<String>)
    ensures
        texts_view(r@) == lines_of(manifest_text@).map_values(|l: Seq<char>| root_url@ + "/"@ + l),
{
    let lines = split_lines(manifest_text);
    let ghost ls = texts_view(lines@);
    let mut out: Vec<String> = Vec::new();
    let mut i: usize = 0;
    while i < lines.len()
        invariant
            ls == texts_view(lines@),
            ls == lines_of(manifest_text@),
            i <= ls.len(),
            texts_view(out@) == ls.take(i as int).map_values(|l: Seq<char>| root_url@ + "/"@ + l),
        decreases ls.len() - i,
    {
        let ghost o0 = texts_view(out@);
        out.push(concat3(root_url, "/", lines[i].as_str()));
        proof {
            assert(texts_view(out@) =~= o0.push(root_url@ + "/"@ + ls[i as int]));
            assert(ls.take(i + 1) =~= ls.take(i as int).push(ls[i as int]));
            assert(texts_view(out@) =~= ls.take(i + 1).map_values(|l: Seq<char>| root_url@ + "/"@ + l));
        }
        i = i + 1;
    }
    assert(ls.take(ls.len() as int) =~= ls);
    out
}

} // verus!
