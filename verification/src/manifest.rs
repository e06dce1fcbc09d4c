//! Rust distribution v2 manifests: which packages a release offers, for
//! which targets, and how components relate to them.

use vstd::prelude::*;
use crate::text::{concat2, concat3, str_eq};
use crate::triple::TargetTriple;
use crate::toolchain::{profile_name, Profile};

verus! {

/// The abstract value of a component: package name, target (absent for a
/// component that serves every target) and whether it is an extension.
pub type ComponentV = (Seq<char>, Option<Seq<char>>, bool);

/// A component of a release: a package for a target.
#[derive(Debug, Clone)]
pub struct Component {
    pub pkg: String,
    pub target: Option<TargetTriple>,
    /// Older manifests distinguish essential components from extensions.
    pub is_extension: bool,
}

/// The characters of an optional triple.
pub open spec fn opt_triple_view(t: Option<TargetTriple>) -> Option<Seq<char>> {
    match t {
        Some(x) => Some(x@),
        None => None,
    }
}

impl View for Component {
    type V = ComponentV;

    open spec fn view(&self) -> ComponentV {
        (self.pkg@, opt_triple_view(self.target), self.is_extension)
    }
}

/// Component equality: same package and same target (the extension flag
/// does not count).
pub open spec fn same_comp(a: ComponentV, b: ComponentV) -> bool {
    a.0 == b.0 && a.1 == b.1
}

/// The abstract values of a list of components.
pub open spec fn comps_view(v: Seq<Component>) -> Seq<ComponentV> {
    v.map_values(|c: Component| c@)
}

/// `c` is in `s` (by component equality).
pub open spec fn comp_in(c: ComponentV, s: Seq<ComponentV>) -> bool {
    exists|i: int| 0 <= i < s.len() && same_comp(#[trigger] s[i], c)
}

/// Whether `c` counts as installed among `s`: it is in `s`; or it serves
/// every target and some component of `s` has its package; or some
/// component of `s` has its package and serves every target.
pub open spec fn contained_within_spec(c: ComponentV, s: Seq<ComponentV>) -> bool {
    ||| comp_in(c, s)
    ||| (c.1 is None && exists|i: int| 0 <= i < s.len() && (#[trigger] s[i]).0 == c.0)
    ||| (c.1 is Some && exists|i: int| 0 <= i < s.len() && (#[trigger] s[i]).0 == c.0 && s[i].1 is None)
}

/// A copy of an optional triple.
pub fn opt_triple_copy(t: &Option<TargetTriple>) -> (r: Option<TargetTriple>)
    ensures
        opt_triple_view(r) == opt_triple_view(*t),
{
    match t {
        Some(x) => Some(x.copy()),
        None => None,
    }
}

/// Whether two optional triples are equal.
pub fn opt_triple_eq(a: &Option<TargetTriple>, b: &Option<TargetTriple>) -> (r: bool)
    ensures
        r == (opt_triple_view(*a) == opt_triple_view(*b)),
{
    match (a, b) {
        (Some(x), Some(y)) => x.same_as(y),
        (None, None) => true,
        _ => false,
    }
}

impl Component {
    /// A component of package `pkg` for `target`.
    pub fn new(pkg: String, target: Option<TargetTriple>, is_extension: bool) -> (r: Self)
        ensures
            r.pkg == pkg,
            r.target == target,
            r.is_extension == is_extension,
    {
        Component { pkg, target, is_extension }
    }

    /// A copy of this component.
    pub fn copy(&self) -> (r: Self)
        ensures
            r@ == self@,
    {
        Component { pkg: self.pkg.clone(), target: opt_triple_copy(&self.target), is_extension: self.is_extension }
    }

    /// Component equality: same package and target.
    pub fn same_as(&self, other: &Component) -> (r: bool)
        ensures
            r == same_comp(self@, other@),
    {
        str_eq(self.pkg.as_str(), other.pkg.as_str()) && opt_triple_eq(&self.target, &other.target)
    }

    /// The same package for every target, as an essential component.
    pub fn wildcard(&self) -> (r: Self)
        ensures
            r@ == (self@.0, None::<Seq<char>>, false),
    {
        Component { pkg: self.pkg.clone(), target: None, is_extension: false }
    }

    /// The package name as the manifest knows it.
    pub fn short_name_in_manifest(&self) -> (r: &String)
        ensures
            r@ == self@.0,
    {
        &self.pkg
    }

    /// The package name as the manifest knows it, followed by `-TARGET`
    /// when the component has a target.
    pub fn name_in_manifest(&self) -> (r: String)
        ensures
            r@ == with_target_suffix(self@.0, self@.1),
    {
        with_target(&self.pkg, &self.target)
    }

    /// The target's text, or the empty text.
    pub fn target(&self) -> (r: String)
        ensures
            r@ == (match self@.1 { Some(t) => t, None => Seq::<char>::empty() }),
    {
        match &self.target {
            Some(t) => t.as_str().to_owned(),
            None => String::new(),
        }
    }

    /// Whether this component counts as installed among `components`; see
    /// [`contained_within_spec`].
    pub fn contained_within(&self, components: &Vec<Component>) -> (r: bool)
        ensures
            r == contained_within_spec(self@, comps_view(components@)),
    {
        if contains_component(components, self) {
            return true;
        }
        let n = components.len();
        let mut i: usize = 0;
        let none_target = self.target.is_none();
        while i < n
            invariant
                n == components@.len(),
                i <= n,
                none_target == (self@.1 is None),
                !comp_in(self@, comps_view(components@)),
                forall|j: int| 0 <= j < i ==> {
                    let o = #[trigger] comps_view(components@)[j];
                    !(o.0 == self@.0 && (none_target || o.1 is None))
                },
            decreases n - i,
        {
            let o = &components[i];
            if str_eq(o.pkg.as_str(), self.pkg.as_str()) && (none_target || o.target.is_none()) {
                assert(comps_view(components@)[i as int] == o@);
                return true;
            }
            assert(comps_view(components@)[i as int] == o@);
            i = i + 1;
        }
        proof {
            let s = comps_view(components@);
            if self@.1 is None {
                if exists|j: int| 0 <= j < s.len() && (#[trigger] s[j]).0 == self@.0 {
                    let j = choose|j: int| 0 <= j < s.len() && (#[trigger] s[j]).0 == self@.0;
                    assert(!(s[j].0 == self@.0 && (none_target || s[j].1 is None)));
                }
            } else {
                if exists|j: int| 0 <= j < s.len() && (#[trigger] s[j]).0 == self@.0 && s[j].1 is None {
                    let j = choose|j: int| 0 <= j < s.len() && (#[trigger] s[j]).0 == self@.0 && s[j].1 is None;
                    assert(!(s[j].0 == self@.0 && (none_target || s[j].1 is None)));
                }
            }
        }
        false
    }
}

/// A package name followed by `-TARGET` when there is a target.
pub open spec fn with_target_suffix(pkg: Seq<char>, t: Option<Seq<char>>) -> Seq<char> {
    match t {
        Some(t) => pkg + seq!['-'] + t,
        None => pkg,
    }
}

fn with_target(pkg: &String, t: &Option<TargetTriple>) -> (r: String)
    ensures
        r@ == with_target_suffix(pkg@, opt_triple_view(*t)),
{
    match t {
        Some(t) => {
            let r = concat3(pkg.as_str(), "-", t.as_str());
            proof {
                reveal_strlit("-");
                assert("-"@ =~= seq!['-']);
            }
            r
        },
        None => pkg.clone(),
    }
}

/// Whether `c` is in `components` (by component equality).
pub fn contains_component(components: &Vec<Component>, c: &Component) -> (r: bool)
    ensures
        r == comp_in(c@, comps_view(components@)),
{
    let n = components.len();
    let mut i: usize = 0;
    while i < n
        invariant
            n == components@.len(),
            i <= n,
            forall|j: int| 0 <= j < i ==> !same_comp(#[trigger] comps_view(components@)[j], c@),
        decreases n - i,
    {
        assert(comps_view(components@)[i as int] == components@[i as int]@);
        if components[i].same_as(c) {
            return true;
        }
        i = i + 1;
    }
    false
}


/// The position of the first entry with key `k`, if any.
pub open spec fn first_key<V>(m: Seq<(Seq<char>, V)>, k: Seq<char>) -> Option<int> {
    if exists|i: int| 0 <= i < m.len() && (#[trigger] m[i]).0 == k {
        Some(choose|i: int| 0 <= i < m.len() && (#[trigger] m[i]).0 == k && forall|j: int| 0 <= j < i ==> (#[trigger] m[j]).0 != k)
    } else {
        None
    }
}

/// What [`first_key`] gives: the position of an entry with key `k` that
/// no earlier entry has, or none when no entry has it.
pub proof fn lemma_first_key_props<V>(m: Seq<(Seq<char>, V)>, k: Seq<char>)
    ensures
        first_key(m, k) matches Some(j) ==> 0 <= j < m.len() && m[j].0 == k
            && forall|t: int| 0 <= t < j ==> (#[trigger] m[t]).0 != k,
        first_key(m, k) is None ==> forall|t: int| 0 <= t < m.len() ==> (#[trigger] m[t]).0 != k,
{
    if exists|i: int| 0 <= i < m.len() && (#[trigger] m[i]).0 == k {
        let i = choose|i: int| 0 <= i < m.len() && (#[trigger] m[i]).0 == k;
        lemma_least_key(m, k, i);
    }
}

/// When some entry has key `k`, one of them comes before all others.
proof fn lemma_least_key<V>(m: Seq<(Seq<char>, V)>, k: Seq<char>, i: int)
    requires
        0 <= i < m.len(),
        m[i].0 == k,
    ensures
        exists|j: int| 0 <= j < m.len() && (#[trigger] m[j]).0 == k && forall|t: int| 0 <= t < j ==> (#[trigger] m[t]).0 != k,
    decreases i,
{
    if exists|t: int| 0 <= t < i && (#[trigger] m[t]).0 == k {
        let t = choose|t: int| 0 <= t < i && (#[trigger] m[t]).0 == k;
        lemma_least_key(m, k, t);
    } else {
        assert(forall|t: int| 0 <= t < i ==> (#[trigger] m[t]).0 != k);
    }
}

/// The first entry with key `k` is the one at `i` when no earlier entry has it.
pub proof fn lemma_first_key<V>(m: Seq<(Seq<char>, V)>, k: Seq<char>, i: int)
    requires
        0 <= i < m.len(),
        m[i].0 == k,
        forall|j: int| 0 <= j < i ==> (#[trigger] m[j]).0 != k,
    ensures
        first_key(m, k) == Some(i),
{
    let c = choose|c: int| 0 <= c < m.len() && (#[trigger] m[c]).0 == k && forall|j: int| 0 <= j < c ==> (#[trigger] m[j]).0 != k;
    if c < i {
        assert(m[c].0 != k);
    } else if c > i {
        assert(m[i].0 != k);
    }
}

/// The compression of a package archive.
#[derive(Debug, Clone, Copy, PartialEq, Eq, Structural)]
pub enum CompressionKind {
    GZip,
    XZ,
    ZStd,
}

/// The abstract value of a downloadable archive: URL, hash, compression.
pub type HashedBinaryV = (Seq<char>, Seq<char>, CompressionKind);

/// A downloadable archive with its hash.
#[derive(Debug, Clone)]
pub struct HashedBinary {
    pub url: String,
    pub hash: String,
    pub compression: CompressionKind,
}

impl View for HashedBinary {
    type V = HashedBinaryV;

    open spec fn view(&self) -> HashedBinaryV {
        (self.url@, self.hash@, self.compression)
    }
}

impl HashedBinary {
    /// A copy of this archive description.
    pub fn copy(&self) -> (r: Self)
        ensures
            r@ == self@,
    {
        HashedBinary { url: self.url.clone(), hash: self.hash.clone(), compression: self.compression }
    }
}

/// The abstract value of a targeted package: its archives, in order of
/// preference, and its components.
pub type TargetedPackageV = (Seq<HashedBinaryV>, Seq<ComponentV>);

/// The archives and components of a package for one target.
#[derive(Debug, Clone)]
pub struct TargetedPackage {
    pub bins: Vec<HashedBinary>,
    pub components: Vec<Component>,
}

/// The abstract values of a list of archives.
pub open spec fn bins_view(v: Seq<HashedBinary>) -> Seq<HashedBinaryV> {
    v.map_values(|b: HashedBinary| b@)
}

impl View for TargetedPackage {
    type V = TargetedPackageV;

    open spec fn view(&self) -> TargetedPackageV {
        (bins_view(self.bins@), comps_view(self.components@))
    }
}

fn copy_bins(v: &Vec<HashedBinary>) -> (r: Vec<HashedBinary>)
    ensures
        bins_view(r@) == bins_view(v@),
{
    let mut r: Vec<HashedBinary> = Vec::new();
    let mut i: usize = 0;
    while i < v.len()
        invariant
            i <= v@.len(),
            bins_view(r@) == bins_view(v@.subrange(0, i as int)),
        decreases v@.len() - i,
    {
        let b = v[i].copy();
        let ghost r0 = r@;
        r.push(b);
        proof {
            assert(v@.subrange(0, i + 1) =~= v@.subrange(0, i as int).push(v@[i as int]));
            assert(bins_view(r@) =~= bins_view(r0).push(b@));
            assert(bins_view(v@.subrange(0, i + 1)) =~= bins_view(v@.subrange(0, i as int)).push(v@[i as int]@));
        }
        i = i + 1;
    }
    assert(v@.subrange(0, v@.len() as int) =~= v@);
    r
}

/// A copy of a list of components.
pub fn copy_comps(v: &Vec<Component>) -> (r: Vec<Component>)
    ensures
        comps_view(r@) == comps_view(v@),
{
    let mut r: Vec<Component> = Vec::new();
    let mut i: usize = 0;
    while i < v.len()
        invariant
            i <= v@.len(),
            comps_view(r@) == comps_view(v@.subrange(0, i as int)),
        decreases v@.len() - i,
    {
        let b = v[i].copy();
        let ghost r0 = r@;
        r.push(b);
        proof {
            assert(v@.subrange(0, i + 1) =~= v@.subrange(0, i as int).push(v@[i as int]));
            assert(comps_view(r@) =~= comps_view(r0).push(b@));
            assert(comps_view(v@.subrange(0, i + 1)) =~= comps_view(v@.subrange(0, i as int)).push(v@[i as int]@));
        }
        i = i + 1;
    }
    assert(v@.subrange(0, v@.len() as int) =~= v@);
    r
}

impl TargetedPackage {
    /// Whether there is anything to download.
    pub fn available(&self) -> (r: bool)
        ensures
            r == (self@.0.len() > 0),
    {
        self.bins.len() > 0
    }

    /// A copy of this targeted package.
    pub fn copy(&self) -> (r: Self)
        ensures
            r@ == self@,
    {
        TargetedPackage { bins: copy_bins(&self.bins), components: copy_comps(&self.components) }
    }
}

/// The form a targeted package has in a manifest file.
#[derive(Debug)]
pub struct Target {
    pub available: bool,
    pub url: Option<String>,
    pub hash: Option<String>,
    pub xz_url: Option<String>,
    pub xz_hash: Option<String>,
    pub zst_url: Option<String>,
    pub zst_hash: Option<String>,
    pub components: Option<Vec<Component>>,
    pub extensions: Option<Vec<Component>>,
}

/// One archive when both its URL and hash are given, else none.
pub open spec fn bin_if(url: Option<Seq<char>>, hash: Option<Seq<char>>, k: CompressionKind) -> Seq<HashedBinaryV> {
    match (url, hash) {
        (Some(u), Some(h)) => seq![(u, h, k)],
        _ => Seq::<HashedBinaryV>::empty(),
    }
}

/// The components of an optional list (none meaning the empty list).
pub open spec fn opt_comps_view(o: Option<Vec<Component>>) -> Seq<ComponentV> {
    match o {
        Some(v) => comps_view(v@),
        None => Seq::<ComponentV>::empty(),
    }
}

/// The same components, all marked as extensions.
pub open spec fn mark_extensions(s: Seq<ComponentV>) -> Seq<ComponentV> {
    s.map_values(|c: ComponentV| (c.0, c.1, true))
}

/// Reading the file form of a targeted package: its components followed
/// by its extensions (marked as such); when available, the archives in
/// order of preference zstd, xz, gzip, each present when both its URL and
/// hash are given.
pub open spec fn from_target_spec(t: Target) -> TargetedPackageV {
    (
        if t.available {
            bin_if(t.zst_url.deep_view(), t.zst_hash.deep_view(), CompressionKind::ZStd)
                + bin_if(t.xz_url.deep_view(), t.xz_hash.deep_view(), CompressionKind::XZ)
                + bin_if(t.url.deep_view(), t.hash.deep_view(), CompressionKind::GZip)
        } else {
            Seq::<HashedBinaryV>::empty()
        },
        opt_comps_view(t.components) + mark_extensions(opt_comps_view(t.extensions)),
    )
}

fn push_bin_if(bins: &mut Vec<HashedBinary>, url: Option<String>, hash: Option<String>, k: CompressionKind)
    ensures
        bins_view(final(bins)@) == bins_view(old(bins)@) + bin_if(url.deep_view(), hash.deep_view(), k),
{
    match (url, hash) {
        (Some(u), Some(h)) => {
            bins.push(HashedBinary { url: u, hash: h, compression: k });
            assert(bins_view(bins@) =~= bins_view(old(bins)@) + bin_if(Some(u@), Some(h@), k));
        },
        (u, h) => {
            assert(bins_view(bins@) =~= bins_view(old(bins)@) + bin_if(u.deep_view(), h.deep_view(), k));
        },
    }
}

impl TargetedPackage {
    /// Reads the file form of a targeted package; see [`from_target_spec`].
    pub fn from_target(target: Target) -> (r: Self)
        ensures
            r@ == from_target_spec(target),
    {
        let ghost t0 = target;
        let Target { available, url, hash, xz_url, xz_hash, zst_url, zst_hash, components, extensions } = target;
        let mut comps = match components {
            Some(c) => c,
            None => Vec::new(),
        };
        assert(comps_view(comps@) =~= opt_comps_view(t0.components));
        if let Some(ext) = extensions {
            let ghost c0 = comps_view(comps@);
            let mut i: usize = 0;
            while i < ext.len()
                invariant
                    i <= ext@.len(),
                    comps_view(comps@) == c0 + mark_extensions(comps_view(ext@.subrange(0, i as int))),
                decreases ext@.len() - i,
            {
                let mut c = ext[i].copy();
                c.is_extension = true;
                let ghost k0 = comps@;
                comps.push(c);
                proof {
                    let e = ext@[i as int]@;
                    assert(c@ == (e.0, e.1, true));
                    assert(ext@.subrange(0, i + 1) =~= ext@.subrange(0, i as int).push(ext@[i as int]));
                    assert(comps_view(ext@.subrange(0, i + 1)) =~= comps_view(ext@.subrange(0, i as int)).push(e));
                    assert(mark_extensions(comps_view(ext@.subrange(0, i + 1))) =~= mark_extensions(comps_view(ext@.subrange(0, i as int))).push((e.0, e.1, true)));
                    assert(comps_view(comps@) =~= comps_view(k0).push(c@));
                    assert(comps_view(comps@) =~= c0 + mark_extensions(comps_view(ext@.subrange(0, i + 1))));
                }
                i = i + 1;
            }
            assert(ext@.subrange(0, ext@.len() as int) =~= ext@);
        } else {
            assert(comps_view(comps@) =~= opt_comps_view(t0.components) + mark_extensions(opt_comps_view(t0.extensions)));
        }
        let mut bins: Vec<HashedBinary> = Vec::new();
        if !available {
            assert(bins_view(bins@) =~= Seq::<HashedBinaryV>::empty());
            return TargetedPackage { bins, components: comps };
        }
        push_bin_if(&mut bins, zst_url, zst_hash, CompressionKind::ZStd);
        push_bin_if(&mut bins, xz_url, xz_hash, CompressionKind::XZ);
        push_bin_if(&mut bins, url, hash, CompressionKind::GZip);
        assert(bins_view(bins@) =~= from_target_spec(t0).0);
        TargetedPackage { bins, components: comps }
    }
}


/// The archive of the last of `bins` with compression `k`, as (URL, hash).
pub open spec fn last_of_kind(bins: Seq<HashedBinaryV>, k: CompressionKind) -> Option<(Seq<char>, Seq<char>)>
    decreases bins.len(),
{
    if bins.len() == 0 {
        None
    } else if bins.last().2 == k {
        Some((bins.last().0, bins.last().1))
    } else {
        last_of_kind(bins.drop_last(), k)
    }
}

/// The URL half of an optional archive.
pub open spec fn url_of(o: Option<(Seq<char>, Seq<char>)>) -> Option<Seq<char>> {
    match o {
        Some(p) => Some(p.0),
        None => None,
    }
}

/// The hash half of an optional archive.
pub open spec fn hash_of(o: Option<(Seq<char>, Seq<char>)>) -> Option<Seq<char>> {
    match o {
        Some(p) => Some(p.1),
        None => None,
    }
}

/// Selects essential components (not extensions).
pub open spec fn essential_pred() -> spec_fn(ComponentV) -> bool {
    |c: ComponentV| !c.2
}

/// Selects extensions.
pub open spec fn ext_pred() -> spec_fn(ComponentV) -> bool {
    |c: ComponentV| c.2
}

fn split_components(v: &Vec<Component>) -> (r: (Vec<Component>, Vec<Component>))
    ensures
        comps_view(r.0@) == comps_view(v@).filter(essential_pred()),
        comps_view(r.1@) == comps_view(v@).filter(ext_pred()),
{
    let mut a: Vec<Component> = Vec::new();
    let mut b: Vec<Component> = Vec::new();
    let mut i: usize = 0;
    while i < v.len()
        invariant
            i <= v@.len(),
            comps_view(a@) == comps_view(v@).take(i as int).filter(essential_pred()),
            comps_view(b@) == comps_view(v@).take(i as int).filter(ext_pred()),
        decreases v@.len() - i,
    {
        let c = v[i].copy();
        let ghost a0 = a@;
        let ghost b0 = b@;
        proof {
            assert(comps_view(v@).take(i + 1).drop_last() =~= comps_view(v@).take(i as int));
            assert(comps_view(v@).take(i + 1).last() == v@[i as int]@);
        }
        let ghost pre = comps_view(v@).take(i as int);
        let ghost nxt = comps_view(v@).take(i + 1);
        proof { reveal(Seq::filter); }
        if c.is_extension {
            b.push(c);
            assert(comps_view(b@) =~= comps_view(b0).push(c@));
            assert(comps_view(a@) =~= comps_view(a0));
            assert(nxt.filter(ext_pred()) == pre.filter(ext_pred()).push(c@));
            assert(nxt.filter(essential_pred()) == pre.filter(essential_pred()));
        } else {
            a.push(c);
            assert(comps_view(a@) =~= comps_view(a0).push(c@));
            assert(comps_view(b@) =~= comps_view(b0));
            assert(nxt.filter(essential_pred()) == pre.filter(essential_pred()).push(c@));
            assert(nxt.filter(ext_pred()) == pre.filter(ext_pred()));
        }
        i = i + 1;
    }
    assert(comps_view(v@).take(v@.len() as int) =~= comps_view(v@));
    (a, b)
}

/// The file form of a targeted package: available when it has archives;
/// for each compression the URL and hash of its last archive of that
/// compression; its essential components and its extensions apart.
pub open spec fn to_target_ok(p: TargetedPackageV, t: Target) -> bool {
    &&& t.available == (p.0.len() > 0)
    &&& t.url.deep_view() == url_of(last_of_kind(p.0, CompressionKind::GZip))
    &&& t.hash.deep_view() == hash_of(last_of_kind(p.0, CompressionKind::GZip))
    &&& t.xz_url.deep_view() == url_of(last_of_kind(p.0, CompressionKind::XZ))
    &&& t.xz_hash.deep_view() == hash_of(last_of_kind(p.0, CompressionKind::XZ))
    &&& t.zst_url.deep_view() == url_of(last_of_kind(p.0, CompressionKind::ZStd))
    &&& t.zst_hash.deep_view() == hash_of(last_of_kind(p.0, CompressionKind::ZStd))
    &&& t.components matches Some(c) && comps_view(c@) == p.1.filter(essential_pred())
    &&& t.extensions matches Some(e) && comps_view(e@) == p.1.filter(ext_pred())
}

impl TargetedPackage {
    /// The file form of this targeted package; see [`to_target_ok`].
    pub fn to_target(&self) -> (r: Target)
        ensures
            to_target_ok(self@, r),
    {
        let mut url: Option<String> = None;
        let mut hash: Option<String> = None;
        let mut xz_url: Option<String> = None;
        let mut xz_hash: Option<String> = None;
        let mut zst_url: Option<String> = None;
        let mut zst_hash: Option<String> = None;
        let available = self.bins.len() > 0;
        let mut i: usize = 0;
        while i < self.bins.len()
            invariant
                i <= self.bins@.len(),
                url.deep_view() == url_of(last_of_kind(bins_view(self.bins@).take(i as int), CompressionKind::GZip)),
                hash.deep_view() == hash_of(last_of_kind(bins_view(self.bins@).take(i as int), CompressionKind::GZip)),
                xz_url.deep_view() == url_of(last_of_kind(bins_view(self.bins@).take(i as int), CompressionKind::XZ)),
                xz_hash.deep_view() == hash_of(last_of_kind(bins_view(self.bins@).take(i as int), CompressionKind::XZ)),
                zst_url.deep_view() == url_of(last_of_kind(bins_view(self.bins@).take(i as int), CompressionKind::ZStd)),
                zst_hash.deep_view() == hash_of(last_of_kind(bins_view(self.bins@).take(i as int), CompressionKind::ZStd)),
            decreases self.bins@.len() - i,
        {
            let b = &self.bins[i];
            proof {
                assert(bins_view(self.bins@).take(i + 1).drop_last() =~= bins_view(self.bins@).take(i as int));
                assert(bins_view(self.bins@).take(i + 1).last() == b@);
            }
            match b.compression {
                CompressionKind::GZip => {
                    url = Some(b.url.clone());
                    hash = Some(b.hash.clone());
                },
                CompressionKind::XZ => {
                    xz_url = Some(b.url.clone());
                    xz_hash = Some(b.hash.clone());
                },
                CompressionKind::ZStd => {
                    zst_url = Some(b.url.clone());
                    zst_hash = Some(b.hash.clone());
                },
            }
            i = i + 1;
        }
        assert(bins_view(self.bins@).take(self.bins@.len() as int) =~= bins_view(self.bins@));
        let (components, extensions) = split_components(&self.components);
        Target {
            available,
            url,
            hash,
            xz_url,
            xz_hash,
            zst_url,
            zst_hash,
            components: Some(components),
            extensions: Some(extensions),
        }
    }
}

/// The abstract value of a package's targets.
pub enum PackageTargetsV {
    Wildcard(TargetedPackageV),
    Targeted(Seq<(Seq<char>, TargetedPackageV)>),
}

/// The targets a package is offered for: one package for every target, or
/// one per target triple.
#[derive(Debug, Clone)]
pub enum PackageTargets {
    Wildcard(TargetedPackage),
    Targeted(Vec<(TargetTriple, TargetedPackage)>),
}

/// The abstract value of a target map.
pub open spec fn target_map_view(m: Seq<(TargetTriple, TargetedPackage)>) -> Seq<(Seq<char>, TargetedPackageV)> {
    m.map_values(|e: (TargetTriple, TargetedPackage)| (e.0@, e.1@))
}

impl View for PackageTargets {
    type V = PackageTargetsV;

    open spec fn view(&self) -> PackageTargetsV {
        match self {
            PackageTargets::Wildcard(p) => PackageTargetsV::Wildcard(p@),
            PackageTargets::Targeted(m) => PackageTargetsV::Targeted(target_map_view(m@)),
        }
    }
}

/// The package for `t`: the wildcard package, or the first entry for `t`.
pub open spec fn targets_get_spec(v: PackageTargetsV, t: Seq<char>) -> Option<TargetedPackageV> {
    match v {
        PackageTargetsV::Wildcard(p) => Some(p),
        PackageTargetsV::Targeted(m) => match first_key(m, t) {
            Some(i) => Some(m[i].1),
            None => None,
        },
    }
}

fn entry_package_mut(m: &mut Vec<(TargetTriple, TargetedPackage)>, i: usize) -> (r: &mut TargetedPackage)
    requires
        i < old(m)@.len(),
    ensures
        *r == old(m)@[i as int].1,
        final(m)@ == old(m)@.update(i as int, (old(m)@[i as int].0, *final(r))),
{
    &mut m[i].1
}

proof fn lemma_target_map_update(m: Seq<(TargetTriple, TargetedPackage)>, i: int, q: TargetedPackage)
    requires
        0 <= i < m.len(),
    ensures
        target_map_view(m.update(i, (m[i].0, q))) == target_map_view(m).update(i, (m[i].0@, q@)),
{
    assert(target_map_view(m.update(i, (m[i].0, q))) =~= target_map_view(m).update(i, (m[i].0@, q@)));
}

/// The targets with the package for `t` replaced by `p`: the one package
/// of a wildcard, or the first entry for `t` of a target map (none if it
/// has no entry for `t`).
pub open spec fn targets_set_spec(v: PackageTargetsV, t: Seq<char>, p: TargetedPackageV) -> PackageTargetsV {
    match v {
        PackageTargetsV::Wildcard(_) => PackageTargetsV::Wildcard(p),
        PackageTargetsV::Targeted(m) => match first_key(m, t) {
            Some(i) => PackageTargetsV::Targeted(m.update(i, (m[i].0, p))),
            None => PackageTargetsV::Targeted(m),
        },
    }
}

fn find_target(m: &Vec<(TargetTriple, TargetedPackage)>, t: &TargetTriple) -> (r: Option<usize>)
    ensures
        r is Some <==> first_key(target_map_view(m@), t@) is Some,
        r matches Some(i) ==> first_key(target_map_view(m@), t@) == Some(i as int) && i < m@.len(),
{
    let n = m.len();
    let mut i: usize = 0;
    while i < n
        invariant
            n == m@.len(),
            i <= n,
            forall|j: int| 0 <= j < i ==> (#[trigger] target_map_view(m@)[j]).0 != t@,
        decreases n - i,
    {
        assert(target_map_view(m@)[i as int] == (m@[i as int].0@, m@[i as int].1@));
        if m[i].0.same_as(t) {
            proof { lemma_first_key(target_map_view(m@), t@, i as int); }
            return Some(i);
        }
        i = i + 1;
    }
    proof {
        let v = target_map_view(m@);
        if exists|j: int| 0 <= j < v.len() && (#[trigger] v[j]).0 == t@ {
            let j = choose|j: int| 0 <= j < v.len() && (#[trigger] v[j]).0 == t@;
            assert(v[j].0 != t@);
        }
    }
    None
}

/// Reading a target map from a manifest file: a map whose only key is `*`
/// is a wildcard package; any other map is kept per target.
pub open spec fn targets_from_map_spec(m: Seq<(Seq<char>, TargetedPackageV)>) -> PackageTargetsV {
    if m.len() == 1 && m[0].0 == "*"@ {
        PackageTargetsV::Wildcard(m[0].1)
    } else {
        PackageTargetsV::Targeted(m)
    }
}

/// Writing a package's targets as a map: the wildcard package under `*`.
pub open spec fn targets_to_map_spec(v: PackageTargetsV) -> Seq<(Seq<char>, TargetedPackageV)> {
    match v {
        PackageTargetsV::Wildcard(p) => seq![("*"@, p)],
        PackageTargetsV::Targeted(m) => m,
    }
}

impl PackageTargets {
    /// The package for `target`; see [`targets_get_spec`].
    pub fn get(&self, target: &TargetTriple) -> (r: Option<&TargetedPackage>)
        ensures
            r is Some <==> targets_get_spec(self@, target@) is Some,
            r matches Some(p) ==> targets_get_spec(self@, target@) == Some(p@),
    {
        match self {
            PackageTargets::Wildcard(p) => Some(p),
            PackageTargets::Targeted(m) => match find_target(m, target) {
                Some(i) => {
                    assert(target_map_view(m@)[i as int].1 == m@[i as int].1@);
                    Some(&m[i].1)
                },
                None => None,
            },
        }
    }

    /// The package for `target`, to change in place; see
    /// [`targets_get_spec`] for which one it is, and [`targets_set_spec`]
    /// for what the targets hold once it has been changed.
    pub fn get_mut(&mut self, target: &TargetTriple) -> (r: Option<&mut TargetedPackage>)
        ensures
            r is Some <==> targets_get_spec(old(self)@, target@) is Some,
            r matches Some(p) ==> targets_get_spec(old(self)@, target@) == Some(p@)
                && final(self)@ == targets_set_spec(old(self)@, target@, final(p)@),
            r is None ==> final(self)@ == old(self)@,
    {
        match self {
            PackageTargets::Wildcard(p) => Some(p),
            PackageTargets::Targeted(m) => match find_target(m, target) {
                Some(i) => {
                    let ghost m0 = m@;
                    assert(target_map_view(m0)[i as int] == (m0[i as int].0@, m0[i as int].1@));
                    let p = entry_package_mut(m, i);
                    proof {
                        lemma_target_map_update(m0, i as int, *final(p));
                    }
                    Some(p)
                },
                None => None,
            },
        }
    }

    /// Reads a target map; see [`targets_from_map_spec`].
    pub fn from_map(m: Vec<(TargetTriple, TargetedPackage)>) -> (r: Self)
        ensures
            r@ == targets_from_map_spec(target_map_view(m@)),
    {
        let star = TargetTriple::new("*");
        if m.len() == 1 && m[0].0.same_as(&star) {
            let mut m = m;
            let (_, p) = m.remove(0);
            PackageTargets::Wildcard(p)
        } else {
            PackageTargets::Targeted(m)
        }
    }

    /// Writes this package's targets as a map; see [`targets_to_map_spec`].
    pub fn into_map(self) -> (r: Vec<(TargetTriple, TargetedPackage)>)
        ensures
            target_map_view(r@) == targets_to_map_spec(self@),
    {
        match self {
            PackageTargets::Wildcard(p) => {
                let mut m = Vec::new();
                m.push((TargetTriple::new("*"), p));
                assert(target_map_view(m@) =~= targets_to_map_spec(self@));
                m
            },
            PackageTargets::Targeted(m) => m,
        }
    }
}


/// Writing a package's targets as a map and reading them back gives the
/// map that was read: reading and writing keep every entry.
pub proof fn law_target_map_round_trip(m: Seq<(Seq<char>, TargetedPackageV)>)
    ensures
        targets_to_map_spec(targets_from_map_spec(m)) == m,
{
    if m.len() == 1 && m[0].0 == "*"@ {
        assert(seq![("*"@, m[0].1)] =~= m);
    }
}

/// Reading back the written targets of a package gives the same targets,
/// unless they are a per-target map whose only target is named `*`.
pub proof fn law_targets_read_back(v: PackageTargetsV)
    requires
        !(v matches PackageTargetsV::Targeted(m) && m.len() == 1 && m[0].0 == "*"@),
    ensures
        targets_from_map_spec(targets_to_map_spec(v)) == v,
{
}

/// The abstract value of a package: its version and targets.
pub type PackageV = (Seq<char>, PackageTargetsV);

/// A package of a release.
#[derive(Debug, Clone)]
pub struct Package {
    pub version: String,
    pub targets: PackageTargets,
}

impl View for Package {
    type V = PackageV;

    open spec fn view(&self) -> PackageV {
        (self.version@, self.targets@)
    }
}

/// The package of a package's targets for an optional target: the
/// wildcard package always; otherwise the entry for the target, and none
/// without a target.
pub open spec fn package_target_spec(v: PackageTargetsV, t: Option<Seq<char>>) -> Option<TargetedPackageV> {
    match v {
        PackageTargetsV::Wildcard(p) => Some(p),
        PackageTargetsV::Targeted(m) => match t {
            Some(x) => match first_key(m, x) {
                Some(i) => Some(m[i].1),
                None => None,
            },
            None => None,
        },
    }
}

/// The abstract value of a manifest error.
pub enum ManifestErrorV {
    PackageNotFound(Seq<char>),
    TargetNotFound(Seq<char>),
    NoTargetSpecified,
    ProfileNotFound(Profile),
    MissingPackageForComponent(Seq<char>),
    BrokenRename(Seq<char>),
}

/// A lookup in, or a check of, a manifest that failed.
#[derive(Debug, Clone)]
pub enum ManifestError {
    /// No package of this name.
    PackageNotFound(String),
    /// The package is not offered for this target.
    TargetNotFound(TargetTriple),
    /// The package is per target and no target was given.
    NoTargetSpecified,
    /// The manifest has no such profile.
    ProfileNotFound(Profile),
    /// A component names a package (or target) that the manifest lacks.
    MissingPackageForComponent(String),
    /// A rename points to a package that the manifest lacks.
    BrokenRename(String),
}

impl View for ManifestError {
    type V = ManifestErrorV;

    open spec fn view(&self) -> ManifestErrorV {
        match self {
            ManifestError::PackageNotFound(n) => ManifestErrorV::PackageNotFound(n@),
            ManifestError::TargetNotFound(t) => ManifestErrorV::TargetNotFound(t@),
            ManifestError::NoTargetSpecified => ManifestErrorV::NoTargetSpecified,
            ManifestError::ProfileNotFound(p) => ManifestErrorV::ProfileNotFound(*p),
            ManifestError::MissingPackageForComponent(n) => ManifestErrorV::MissingPackageForComponent(n@),
            ManifestError::BrokenRename(n) => ManifestErrorV::BrokenRename(n@),
        }
    }
}

/// The text shown for a manifest error.
pub open spec fn manifest_error_message(e: ManifestErrorV) -> Seq<char> {
    match e {
        ManifestErrorV::PackageNotFound(n) => "package not found: '"@ + n + "'"@,
        ManifestErrorV::TargetNotFound(t) => "target '"@ + t
            + "' not found in channel.  Perhaps check https://doc.rust-lang.org/nightly/rustc/platform-support.html for available targets"@,
        ManifestErrorV::NoTargetSpecified => "no target specified"@,
        ManifestErrorV::ProfileNotFound(p) => "profile not found: '"@ + profile_name(p) + "'"@,
        ManifestErrorV::MissingPackageForComponent(n) => "server sent a broken manifest: missing package for component "@ + n,
        ManifestErrorV::BrokenRename(n) => "server sent a broken manifest: missing package for the target of a rename "@ + n,
    }
}

impl ManifestError {
    /// The text this error shows; see [`manifest_error_message`].
    pub fn message(&self) -> (r: String)
        ensures
            r@ == manifest_error_message(self@),
    {
        match self {
            ManifestError::PackageNotFound(n) => concat3("package not found: '", n.as_str(), "'"),
            ManifestError::TargetNotFound(t) => concat3(
                "target '",
                t.as_str(),
                "' not found in channel.  Perhaps check https://doc.rust-lang.org/nightly/rustc/platform-support.html for available targets",
            ),
            ManifestError::NoTargetSpecified => "no target specified".to_owned(),
            ManifestError::ProfileNotFound(p) => concat3("profile not found: '", p.as_str(), "'"),
            ManifestError::MissingPackageForComponent(n) => concat2(
                "server sent a broken manifest: missing package for component ",
                n.as_str(),
            ),
            ManifestError::BrokenRename(n) => concat2(
                "server sent a broken manifest: missing package for the target of a rename ",
                n.as_str(),
            ),
        }
    }
}

/// The outcome of looking up a package's target: the package, or the
/// error for a missing target (`TargetNotFound`) or a missing target
/// argument (`NoTargetSpecified`).
pub open spec fn get_target_spec(v: PackageTargetsV, t: Option<Seq<char>>) -> Result<TargetedPackageV, ManifestErrorV> {
    match package_target_spec(v, t) {
        Some(p) => Ok(p),
        None => match t {
            Some(x) => Err(ManifestErrorV::TargetNotFound(x)),
            None => Err(ManifestErrorV::NoTargetSpecified),
        },
    }
}

impl Package {
    /// The package for an optional target; see [`get_target_spec`].
    pub fn get_target(&self, target: Option<&TargetTriple>) -> (r: Result<&TargetedPackage, ManifestError>)
        ensures
            r matches Ok(p) ==> get_target_spec(self@.1, match target { Some(t) => Some(t@), None => None }) == Ok::<_, ManifestErrorV>(p@),
            r matches Err(e) ==> get_target_spec(self@.1, match target { Some(t) => Some(t@), None => None }) == Err::<TargetedPackageV, _>(e@),
    {
        match &self.targets {
            PackageTargets::Wildcard(p) => Ok(p),
            PackageTargets::Targeted(m) => {
                match target {
                    Some(t) => match find_target(m, t) {
                        Some(i) => {
                            assert(target_map_view(m@)[i as int].1 == m@[i as int].1@);
                            Ok(&m[i].1)
                        },
                        None => Err(ManifestError::TargetNotFound(t.copy())),
                    },
                    None => Err(ManifestError::NoTargetSpecified),
                }
            },
        }
    }
}

/// A rename of a package, as recorded in a manifest.
#[derive(Debug, Clone, PartialEq, Eq)]
pub struct Renamed {
    pub to: String,
}

/// The manifest format version.
#[derive(Debug, Clone, Copy, PartialEq, Eq, Structural)]
pub enum ManifestVersion {
    V2,
}

impl ManifestVersion {
    /// The version's text.
    pub fn as_str(&self) -> (r: &'static str)
        ensures
            r@ == "2"@,
    {
        "2"
    }

    /// Reads a version text; only `2` is known.
    pub fn from_str(s: &str) -> (r: Option<ManifestVersion>)
        ensures
            r is Some <==> s@ == "2"@,
    {
        if str_eq(s, "2") { Some(ManifestVersion::V2) } else { None }
    }
}

/// The abstract value of a manifest.
pub struct ManifestV {
    pub date: Seq<char>,
    pub packages: Seq<(Seq<char>, PackageV)>,
    pub renames: Seq<(Seq<char>, Seq<char>)>,
    pub reverse_renames: Seq<(Seq<char>, Seq<char>)>,
    pub profiles: Seq<(Profile, Seq<Seq<char>>)>,
}

/// A v2 distribution manifest: one release's packages, renames and
/// profiles. Maps are kept as lists of entries; a lookup finds the first
/// entry with the key.
#[derive(Debug, Clone)]
pub struct Manifest {
    pub manifest_version: ManifestVersion,
    pub date: String,
    pub packages: Vec<(String, Package)>,
    pub renames: Vec<(String, Renamed)>,
    pub reverse_renames: Vec<(String, String)>,
    pub profiles: Vec<(Profile, Vec<String>)>,
}

/// The abstract values of a list of strings.
pub open spec fn strings_view(v: Seq<String>) -> Seq<Seq<char>> {
    v.map_values(|s: String| s@)
}

impl View for Manifest {
    type V = ManifestV;

    open spec fn view(&self) -> ManifestV {
        ManifestV {
            date: self.date@,
            packages: self.packages@.map_values(|e: (String, Package)| (e.0@, e.1@)),
            renames: self.renames@.map_values(|e: (String, Renamed)| (e.0@, e.1.to@)),
            reverse_renames: self.reverse_renames@.map_values(|e: (String, String)| (e.0@, e.1@)),
            profiles: self.profiles@.map_values(|e: (Profile, Vec<String>)| (e.0, strings_view(e.1@))),
        }
    }
}

/// The first profile entry for `p`, if any.
pub open spec fn first_profile(m: Seq<(Profile, Seq<Seq<char>>)>, p: Profile) -> Option<int> {
    if exists|i: int| 0 <= i < m.len() && (#[trigger] m[i]).0 == p {
        Some(choose|i: int| 0 <= i < m.len() && (#[trigger] m[i]).0 == p && forall|j: int| 0 <= j < i ==> (#[trigger] m[j]).0 != p)
    } else {
        None
    }
}

/// The package named `name`, if any.
pub open spec fn package_get_spec(m: ManifestV, name: Seq<char>) -> Option<PackageV> {
    match first_key(m.packages, name) {
        Some(i) => Some(m.packages[i].1),
        None => None,
    }
}

/// The `rust` package's entry for target `t`.
pub open spec fn rust_target_spec(m: ManifestV, t: Seq<char>) -> Result<TargetedPackageV, ManifestErrorV> {
    match package_get_spec(m, "rust"@) {
        None => Err(ManifestErrorV::PackageNotFound("rust"@)),
        Some(p) => get_target_spec(p.1, Some(t)),
    }
}

/// Selects essential components that serve target `t`.
pub open spec fn legacy_pred(t: Seq<char>) -> spec_fn(ComponentV) -> bool {
    |c: ComponentV| !c.2 && (c.1 is None || c.1 == Some(t))
}

/// The position of the first component of package `s` serving target `t`.
pub open spec fn first_serving(comps: Seq<ComponentV>, s: Seq<char>, t: Seq<char>) -> Option<int> {
    if exists|j: int| 0 <= j < comps.len() && (#[trigger] comps[j]).0 == s && (comps[j].1 is None || comps[j].1 == Some(t)) {
        Some(choose|j: int| 0 <= j < comps.len() && (#[trigger] comps[j]).0 == s && (comps[j].1 is None || comps[j].1 == Some(t))
            && forall|k: int| 0 <= k < j ==> !((#[trigger] comps[k]).0 == s && (comps[k].1 is None || comps[k].1 == Some(t))))
    } else {
        None
    }
}

/// For a profile's package name, the component to install: the package
/// for the target of the first matching component of the `rust` package.
pub open spec fn profile_pick(comps: Seq<ComponentV>, t: Seq<char>) -> spec_fn(Seq<char>) -> Option<ComponentV> {
    |s: Seq<char>| match first_serving(comps, s, t) {
        Some(j) => Some((s, comps[j].1, false)),
        None => None,
    }
}

/// The components of the `rust` package for target `t` that are not
/// extensions and serve `t`.
pub open spec fn legacy_components_spec(m: ManifestV, t: Seq<char>) -> Result<Seq<ComponentV>, ManifestErrorV> {
    match rust_target_spec(m, t) {
        Ok(tp) => Ok(tp.1.filter(legacy_pred(t))),
        Err(e) => Err(e),
    }
}

/// The components of a profile for target `t`: without profiles, the
/// legacy components; otherwise each package of the profile that the
/// `rust` package offers for `t`, in the profile's order.
pub open spec fn profile_components_spec(m: ManifestV, p: Profile, t: Seq<char>) -> Result<Seq<ComponentV>, ManifestErrorV> {
    if m.profiles.len() == 0 {
        legacy_components_spec(m, t)
    } else {
        match first_profile(m.profiles, p) {
            None => Err(ManifestErrorV::ProfileNotFound(p)),
            Some(i) => match rust_target_spec(m, t) {
                Err(e) => Err(e),
                Ok(tp) => Ok(m.profiles[i].1.filter_map(profile_pick(tp.1, t))),
            },
        }
    }
}

/// The targeted packages of a package's targets.
pub open spec fn targeted_packages(v: PackageTargetsV) -> Seq<TargetedPackageV> {
    match v {
        PackageTargetsV::Wildcard(p) => seq![p],
        PackageTargetsV::Targeted(m) => m.map_values(|e: (Seq<char>, TargetedPackageV)| e.1),
    }
}

/// Whether component `c` has a package (for its target) in the manifest.
pub open spec fn component_resolvable(m: ManifestV, c: ComponentV) -> bool {
    match package_get_spec(m, c.0) {
        Some(p) => package_target_spec(p.1, c.1) is Some,
        None => false,
    }
}

/// Every component of every package has a package to download.
pub open spec fn components_valid(m: ManifestV) -> bool {
    forall|i: int, j: int, k: int|
        0 <= i < m.packages.len() && 0 <= j < targeted_packages(m.packages[i].1.1).len()
            && 0 <= k < targeted_packages(m.packages[i].1.1)[j].1.len()
            ==> component_resolvable(m, #[trigger] targeted_packages(m.packages[i].1.1)[j].1[k])
}

/// Every rename points to a package.
pub open spec fn renames_valid(m: ManifestV) -> bool {
    forall|i: int| 0 <= i < m.renames.len() ==> first_key(m.packages, (#[trigger] m.renames[i]).1) is Some
}

/// A manifest is valid when every component of every package has a package
/// to download, and every rename points to a package.
pub open spec fn manifest_valid(m: ManifestV) -> bool {
    &&& components_valid(m)
    &&& renames_valid(m)
}

/// The name a component is shown under: the package name it was renamed
/// from, if the manifest records one, else its package name.
pub open spec fn short_name_spec(m: ManifestV, c: ComponentV) -> Seq<char> {
    match first_key(m.reverse_renames, c.0) {
        Some(i) => m.reverse_renames[i].1,
        None => c.0,
    }
}

/// Adds the entry `(k, v)`, replacing the first entry with key `k` if any.
pub open spec fn insert_or_replace(m: Seq<(Seq<char>, Seq<char>)>, k: Seq<char>, v: Seq<char>) -> Seq<(Seq<char>, Seq<char>)> {
    match first_key(m, k) {
        Some(i) => m.update(i, (k, v)),
        None => m.push((k, v)),
    }
}

/// The reverse renames after recording each rename `from -> to` of
/// `renames`, in order, as `to -> from`.
pub open spec fn with_reverse_renames(start: Seq<(Seq<char>, Seq<char>)>, renames: Seq<(Seq<char>, Seq<char>)>) -> Seq<(Seq<char>, Seq<char>)>
    decreases renames.len(),
{
    if renames.len() == 0 {
        start
    } else {
        let prev = with_reverse_renames(start, renames.drop_last());
        insert_or_replace(prev, renames.last().1, renames.last().0)
    }
}


proof fn lemma_first_profile(m: Seq<(Profile, Seq<Seq<char>>)>, p: Profile, i: int)
    requires
        0 <= i < m.len(),
        m[i].0 == p,
        forall|j: int| 0 <= j < i ==> (#[trigger] m[j]).0 != p,
    ensures
        first_profile(m, p) == Some(i),
{
    let c = choose|c: int| 0 <= c < m.len() && (#[trigger] m[c]).0 == p && forall|j: int| 0 <= j < c ==> (#[trigger] m[j]).0 != p;
    if c < i {
        assert(m[c].0 != p);
    } else if c > i {
        assert(m[i].0 != p);
    }
}

proof fn lemma_first_serving(comps: Seq<ComponentV>, s: Seq<char>, t: Seq<char>, j: int)
    requires
        0 <= j < comps.len(),
        comps[j].0 == s && (comps[j].1 is None || comps[j].1 == Some(t)),
        forall|k: int| 0 <= k < j ==> !((#[trigger] comps[k]).0 == s && (comps[k].1 is None || comps[k].1 == Some(t))),
    ensures
        first_serving(comps, s, t) == Some(j),
{
    let c = choose|c: int| 0 <= c < comps.len() && (#[trigger] comps[c]).0 == s && (comps[c].1 is None || comps[c].1 == Some(t))
        && forall|k: int| 0 <= k < c ==> !((#[trigger] comps[k]).0 == s && (comps[k].1 is None || comps[k].1 == Some(t)));
    if c < j {
        assert(!(comps[c].0 == s && (comps[c].1 is None || comps[c].1 == Some(t))));
    } else if c > j {
        assert(!(comps[j].0 == s && (comps[j].1 is None || comps[j].1 == Some(t))));
    }
}

fn first_serving_exec(comps: &Vec<Component>, s: &String, t: &TargetTriple) -> (r: Option<usize>)
    ensures
        r is Some <==> first_serving(comps_view(comps@), s@, t@) is Some,
        r matches Some(j) ==> first_serving(comps_view(comps@), s@, t@) == Some(j as int) && j < comps@.len(),
{
    let n = comps.len();
    let mut j: usize = 0;
    while j < n
        invariant
            n == comps@.len(),
            j <= n,
            forall|k: int| 0 <= k < j ==> !((#[trigger] comps_view(comps@)[k]).0 == s@
                && (comps_view(comps@)[k].1 is None || comps_view(comps@)[k].1 == Some(t@))),
        decreases n - j,
    {
        let c = &comps[j];
        assert(comps_view(comps@)[j as int] == c@);
        let serves = match &c.target {
            None => true,
            Some(x) => x.same_as(t),
        };
        if str_eq(c.pkg.as_str(), s.as_str()) && serves {
            proof { lemma_first_serving(comps_view(comps@), s@, t@, j as int); }
            return Some(j);
        }
        j = j + 1;
    }
    proof {
        let v = comps_view(comps@);
        if exists|k: int| 0 <= k < v.len() && (#[trigger] v[k]).0 == s@ && (v[k].1 is None || v[k].1 == Some(t@)) {
            let k = choose|k: int| 0 <= k < v.len() && (#[trigger] v[k]).0 == s@ && (v[k].1 is None || v[k].1 == Some(t@));
            assert(!(v[k].0 == s@ && (v[k].1 is None || v[k].1 == Some(t@))));
        }
    }
    None
}

impl Manifest {
    /// The position of the package named `name`.
    pub fn find_package(&self, name: &str) -> (r: Option<usize>)
        ensures
            r is Some <==> first_key(self@.packages, name@) is Some,
            r matches Some(i) ==> first_key(self@.packages, name@) == Some(i as int) && i < self.packages@.len(),
    {
        let n = self.packages.len();
        let mut i: usize = 0;
        while i < n
            invariant
                n == self.packages@.len(),
                n == self@.packages.len(),
                i <= n,
                forall|j: int| 0 <= j < i ==> (#[trigger] self@.packages[j]).0 != name@,
            decreases n - i,
        {
            assert(self@.packages[i as int] == (self.packages@[i as int].0@, self.packages@[i as int].1@));
            if str_eq(self.packages[i].0.as_str(), name) {
                proof { lemma_first_key(self@.packages, name@, i as int); }
                return Some(i);
            }
            i = i + 1;
        }
        proof {
            let v = self@.packages;
            if exists|j: int| 0 <= j < v.len() && (#[trigger] v[j]).0 == name@ {
                let j = choose|j: int| 0 <= j < v.len() && (#[trigger] v[j]).0 == name@;
                assert(v[j].0 != name@);
            }
        }
        None
    }

    /// The package named `name`; fails with `PackageNotFound`.
    pub fn get_package(&self, name: &str) -> (r: Result<&Package, ManifestError>)
        ensures
            r matches Ok(p) ==> package_get_spec(self@, name@) == Some(p@),
            r is Err <==> package_get_spec(self@, name@) is None,
            r matches Err(e) ==> e@ == ManifestErrorV::PackageNotFound(name@),
    {
        match self.find_package(name) {
            Some(i) => {
                assert(self@.packages[i as int].1 == self.packages@[i as int].1@);
                Ok(&self.packages[i].1)
            },
            None => Err(ManifestError::PackageNotFound(name.to_owned())),
        }
    }

    /// The version of the `rust` package.
    pub fn get_rust_version(&self) -> (r: Result<&String, ManifestError>)
        ensures
            r matches Ok(v) ==> (package_get_spec(self@, "rust"@) matches Some(p) && p.0 == v@),
            r is Err <==> package_get_spec(self@, "rust"@) is None,
    {
        match self.get_package("rust") {
            Ok(p) => Ok(&p.version),
            Err(e) => Err(e),
        }
    }

    pub(crate) fn rust_target(&self, target: &TargetTriple) -> (r: Result<&TargetedPackage, ManifestError>)
        ensures
            r matches Ok(p) ==> rust_target_spec(self@, target@) == Ok::<_, ManifestErrorV>(p@),
            r matches Err(e) ==> rust_target_spec(self@, target@) == Err::<TargetedPackageV, _>(e@),
    {
        let p = match self.get_package("rust") {
            Ok(p) => p,
            Err(e) => {
                return Err(e);
            },
        };
        p.get_target(Some(target))
    }

    /// The essential components of the `rust` package that serve `target`;
    /// see [`legacy_components_spec`].
    pub fn get_legacy_components(&self, target: &TargetTriple) -> (r: Result<Vec<Component>, ManifestError>)
        ensures
            r matches Ok(v) ==> legacy_components_spec(self@, target@) == Ok::<_, ManifestErrorV>(comps_view(v@)),
            r matches Err(e) ==> legacy_components_spec(self@, target@) == Err::<Seq<ComponentV>, _>(e@),
    {
        let tp = match self.rust_target(target) {
            Ok(tp) => tp,
            Err(e) => {
                return Err(e);
            },
        };
        let comps = &tp.components;
        let mut res: Vec<Component> = Vec::new();
        let mut i: usize = 0;
        while i < comps.len()
            invariant
                i <= comps@.len(),
                comps_view(res@) == comps_view(comps@).take(i as int).filter(legacy_pred(target@)),
            decreases comps@.len() - i,
        {
            let c = &comps[i];
            let ghost pre = comps_view(comps@).take(i as int);
            let ghost nxt = comps_view(comps@).take(i + 1);
            proof {
                reveal(Seq::filter);
                assert(nxt.drop_last() =~= pre);
                assert(nxt.last() == c@);
            }
            let serves = match &c.target {
                None => true,
                Some(x) => x.same_as(target),
            };
            let ghost r0 = res@;
            if !c.is_extension && serves {
                res.push(c.copy());
                assert(comps_view(res@) =~= comps_view(r0).push(c@));
            }
            i = i + 1;
        }
        assert(comps_view(comps@).take(comps@.len() as int) =~= comps_view(comps@));
        Ok(res)
    }

    /// The position of the entry for `profile`.
    pub fn find_profile(&self, profile: Profile) -> (r: Option<usize>)
        ensures
            r is Some <==> first_profile(self@.profiles, profile) is Some,
            r matches Some(i) ==> first_profile(self@.profiles, profile) == Some(i as int) && i < self.profiles@.len(),
    {
        let n = self.profiles.len();
        let mut i: usize = 0;
        while i < n
            invariant
                n == self.profiles@.len(),
                n == self@.profiles.len(),
                i <= n,
                forall|j: int| 0 <= j < i ==> (#[trigger] self@.profiles[j]).0 != profile,
            decreases n - i,
        {
            assert(self@.profiles[i as int].0 == self.profiles@[i as int].0);
            if self.profiles[i].0 == profile {
                proof { lemma_first_profile(self@.profiles, profile, i as int); }
                return Some(i);
            }
            i = i + 1;
        }
        proof {
            let v = self@.profiles;
            if exists|j: int| 0 <= j < v.len() && (#[trigger] v[j]).0 == profile {
                let j = choose|j: int| 0 <= j < v.len() && (#[trigger] v[j]).0 == profile;
                assert(v[j].0 != profile);
            }
        }
        None
    }

    /// The components of a profile for `target`; see
    /// [`profile_components_spec`].
    #[verifier::rlimit(50)]
    pub fn get_profile_components(&self, profile: Profile, target: &TargetTriple) -> (r: Result<Vec<Component>, ManifestError>)
        ensures
            r matches Ok(v) ==> profile_components_spec(self@, profile, target@) == Ok::<_, ManifestErrorV>(comps_view(v@)),
            r matches Err(e) ==> profile_components_spec(self@, profile, target@) == Err::<Seq<ComponentV>, _>(e@),
    {
        if self.profiles.len() == 0 {
            return self.get_legacy_components(target);
        }
        let pi = match self.find_profile(profile) {
            Some(i) => i,
            None => {
                return Err(ManifestError::ProfileNotFound(profile));
            },
        };
        let tp = match self.rust_target(target) {
            Ok(tp) => tp,
            Err(e) => {
                return Err(e);
            },
        };
        let names = &self.profiles[pi].1;
        assert(self@.profiles[pi as int].1 == strings_view(names@));
        Ok(pick_profile_components(names, &tp.components, target))
    }
}

fn pick_profile_components(names: &Vec<String>, comps: &Vec<Component>, target: &TargetTriple) -> (r: Vec<Component>)
    ensures
        comps_view(r@) == strings_view(names@).filter_map(profile_pick(comps_view(comps@), target@)),
{
    let ghost f = profile_pick(comps_view(comps@), target@);
    let mut res: Vec<Component> = Vec::new();
    let mut i: usize = 0;
    while i < names.len()
        invariant
            i <= names@.len(),
            f == profile_pick(comps_view(comps@), target@),
            comps_view(res@) == strings_view(names@).take(i as int).filter_map(f),
        decreases names@.len() - i,
    {
        let s = &names[i];
        let ghost pre = strings_view(names@).take(i as int);
        let ghost nxt = strings_view(names@).take(i + 1);
        proof {
            assert(nxt.drop_last() =~= pre);
            assert(nxt.last() == s@);
        }
        let ghost r0 = res@;
        match first_serving_exec(comps, s, target) {
            Some(j) => {
                let c = Component::new(s.clone(), opt_triple_copy(&comps[j].target), false);
                assert(comps_view(comps@)[j as int] == comps@[j as int]@);
                res.push(c);
                assert(comps_view(res@) =~= comps_view(r0) + seq![c@]);
            },
            None => {
                assert(comps_view(res@) =~= comps_view(r0));
            },
        }
        i = i + 1;
    }
    assert(strings_view(names@).take(names@.len() as int) =~= strings_view(names@));
    res
}


fn find_str_key(m: &Vec<(String, String)>, k: &str) -> (r: Option<usize>)
    ensures
        r is Some <==> first_key(m@.map_values(|e: (String, String)| (e.0@, e.1@)), k@) is Some,
        r matches Some(i) ==> first_key(m@.map_values(|e: (String, String)| (e.0@, e.1@)), k@) == Some(i as int) && i < m@.len(),
{
    let ghost v = m@.map_values(|e: (String, String)| (e.0@, e.1@));
    let n = m.len();
    let mut i: usize = 0;
    while i < n
        invariant
            n == m@.len(),
            v == m@.map_values(|e: (String, String)| (e.0@, e.1@)),
            i <= n,
            forall|j: int| 0 <= j < i ==> (#[trigger] v[j]).0 != k@,
        decreases n - i,
    {
        assert(v[i as int] == (m@[i as int].0@, m@[i as int].1@));
        if str_eq(m[i].0.as_str(), k) {
            proof { lemma_first_key(v, k@, i as int); }
            return Some(i);
        }
        i = i + 1;
    }
    proof {
        if exists|j: int| 0 <= j < v.len() && (#[trigger] v[j]).0 == k@ {
            let j = choose|j: int| 0 <= j < v.len() && (#[trigger] v[j]).0 == k@;
            assert(v[j].0 != k@);
        }
    }
    None
}

fn find_rename(m: &Vec<(String, Renamed)>, k: &str) -> (r: Option<usize>)
    ensures
        r is Some <==> first_key(m@.map_values(|e: (String, Renamed)| (e.0@, e.1.to@)), k@) is Some,
        r matches Some(i) ==> first_key(m@.map_values(|e: (String, Renamed)| (e.0@, e.1.to@)), k@) == Some(i as int) && i < m@.len(),
{
    let ghost v = m@.map_values(|e: (String, Renamed)| (e.0@, e.1.to@));
    let n = m.len();
    let mut i: usize = 0;
    while i < n
        invariant
            n == m@.len(),
            v == m@.map_values(|e: (String, Renamed)| (e.0@, e.1.to@)),
            i <= n,
            forall|j: int| 0 <= j < i ==> (#[trigger] v[j]).0 != k@,
        decreases n - i,
    {
        assert(v[i as int] == (m@[i as int].0@, m@[i as int].1.to@));
        if str_eq(m[i].0.as_str(), k) {
            proof { lemma_first_key(v, k@, i as int); }
            return Some(i);
        }
        i = i + 1;
    }
    proof {
        if exists|j: int| 0 <= j < v.len() && (#[trigger] v[j]).0 == k@ {
            let j = choose|j: int| 0 <= j < v.len() && (#[trigger] v[j]).0 == k@;
            assert(v[j].0 != k@);
        }
    }
    None
}

/// The component renamed by the manifest: same target and flag, package
/// name replaced by the target of the first rename of its package.
pub open spec fn rename_spec(m: ManifestV, c: ComponentV) -> Option<ComponentV> {
    match first_key(m.renames, c.0) {
        Some(i) => Some((m.renames[i].1, c.1, c.2)),
        None => None,
    }
}

/// The name shown for a component: its short name, followed by `-TARGET`
/// when it has a target.
pub open spec fn component_name_spec(m: ManifestV, c: ComponentV) -> Seq<char> {
    with_target_suffix(short_name_spec(m, c), c.1)
}

/// The description of a component: its short name quoted, followed by
/// ` for target 'TARGET'` when it has a target.
pub open spec fn component_description_spec(m: ManifestV, c: ComponentV) -> Seq<char> {
    match c.1 {
        Some(t) => "'"@ + short_name_spec(m, c) + "' for target '"@ + t + "'"@,
        None => "'"@ + short_name_spec(m, c) + "'"@,
    }
}

impl Manifest {
    /// If the manifest renames the component's package, the component under
    /// its new name; see [`rename_spec`].
    pub fn rename_component(&self, component: &Component) -> (r: Option<Component>)
        ensures
            r is Some <==> rename_spec(self@, component@) is Some,
            r matches Some(c) ==> rename_spec(self@, component@) == Some(c@),
    {
        match find_rename(&self.renames, component.pkg.as_str()) {
            Some(i) => {
                let mut c = component.copy();
                c.pkg = self.renames[i].1.to.clone();
                Some(c)
            },
            None => None,
        }
    }

    /// The name a component is shown under; see [`short_name_spec`].
    pub fn short_name(&self, component: &Component) -> (r: String)
        ensures
            r@ == short_name_spec(self@, component@),
    {
        match find_str_key(&self.reverse_renames, component.pkg.as_str()) {
            Some(i) => self.reverse_renames[i].1.clone(),
            None => component.pkg.clone(),
        }
    }

    /// The name shown for a component; see [`component_name_spec`].
    pub fn component_name(&self, component: &Component) -> (r: String)
        ensures
            r@ == component_name_spec(self@, component@),
    {
        let pkg = self.short_name(component);
        with_target(&pkg, &component.target)
    }

    /// The description of a component; see [`component_description_spec`].
    pub fn component_description(&self, component: &Component) -> (r: String)
        ensures
            r@ == component_description_spec(self@, component@),
    {
        let pkg = self.short_name(component);
        match &component.target {
            Some(t) => {
                let mut r = concat3("'", pkg.as_str(), "' for target '");
                r.append(t.as_str());
                r.append("'");
                r
            },
            None => concat3("'", pkg.as_str(), "'"),
        }
    }

    fn component_resolvable_exec(&self, c: &Component) -> (r: bool)
        ensures
            r == component_resolvable(self@, c@),
    {
        match self.get_package(c.pkg.as_str()) {
            Ok(p) => match &c.target {
                Some(t) => p.get_target(Some(t)).is_ok(),
                None => p.get_target(None).is_ok(),
            },
            Err(_) => false,
        }
    }

    fn validate_targeted(&self, tp: &TargetedPackage) -> (r: Result<(), ManifestError>)
        ensures
            r is Ok <==> forall|k: int| 0 <= k < tp@.1.len() ==> component_resolvable(self@, #[trigger] tp@.1[k]),
            r matches Err(e) ==> e@ is MissingPackageForComponent,
    {
        let n = tp.components.len();
        let mut k: usize = 0;
        while k < n
            invariant
                n == tp.components@.len(),
                k <= n,
                forall|j: int| 0 <= j < k ==> component_resolvable(self@, #[trigger] tp@.1[j]),
            decreases n - k,
        {
            let c = &tp.components[k];
            assert(tp@.1[k as int] == c@);
            if !self.component_resolvable_exec(c) {
                return Err(ManifestError::MissingPackageForComponent(self.short_name(c)));
            }
            k = k + 1;
        }
        Ok(())
    }

    /// Checks that every component has a package to download and every
    /// rename points to a package; see [`manifest_valid`]. The components
    /// are checked first: a component without its package (or target) is
    /// reported as such, a rename without its package only when every
    /// component is fine.
    pub fn validate(&self) -> (r: Result<(), ManifestError>)
        ensures
            r is Ok <==> manifest_valid(self@),
            !components_valid(self@) ==> (r matches Err(e) && e@ is MissingPackageForComponent),
            components_valid(self@) && !renames_valid(self@) ==> (r matches Err(e) && e@ is BrokenRename),
    {
        let ghost m = self@;
        let n = self.packages.len();
        let mut i: usize = 0;
        while i < n
            invariant
                m == self@,
                n == self.packages@.len(),
                n == m.packages.len(),
                i <= n,
                forall|a: int, j: int, k: int|
                    0 <= a < i && 0 <= j < targeted_packages(m.packages[a].1.1).len()
                        && 0 <= k < targeted_packages(m.packages[a].1.1)[j].1.len()
                        ==> component_resolvable(m, #[trigger] targeted_packages(m.packages[a].1.1)[j].1[k]),
            decreases n - i,
        {
            let p = &self.packages[i].1;
            assert(m.packages[i as int].1 == p@);
            match &p.targets {
                PackageTargets::Wildcard(tp) => {
                    match self.validate_targeted(tp) {
                        Ok(()) => {},
                        Err(e) => {
                            proof {
                                let k = choose|k: int| 0 <= k < tp@.1.len() && !component_resolvable(m, #[trigger] tp@.1[k]);
                                assert(targeted_packages(m.packages[i as int].1.1)[0] == tp@);
                            }
                            return Err(e);
                        },
                    }
                    assert(targeted_packages(m.packages[i as int].1.1) =~= seq![tp@]);
                },
                PackageTargets::Targeted(tm) => {
                    let tn = tm.len();
                    let mut j: usize = 0;
                    while j < tn
                        invariant
                            m == self@,
                            n == m.packages.len(),
                            i < n,
                            m.packages[i as int].1 == p@,
                            p.targets == PackageTargets::Targeted(*tm),
                            tn == tm@.len(),
                            j <= tn,
                            forall|a: int, jj: int, k: int|
                                0 <= a < i && 0 <= jj < targeted_packages(m.packages[a].1.1).len()
                                    && 0 <= k < targeted_packages(m.packages[a].1.1)[jj].1.len()
                                    ==> component_resolvable(m, #[trigger] targeted_packages(m.packages[a].1.1)[jj].1[k]),
                            forall|jj: int, k: int|
                                0 <= jj < j && 0 <= k < targeted_packages(m.packages[i as int].1.1)[jj].1.len()
                                    ==> component_resolvable(m, #[trigger] targeted_packages(m.packages[i as int].1.1)[jj].1[k]),
                        decreases tn - j,
                    {
                        let tp = &tm[j].1;
                        assert(targeted_packages(m.packages[i as int].1.1)[j as int] == tp@);
                        match self.validate_targeted(tp) {
                            Ok(()) => {},
                            Err(e) => {
                                proof {
                                    let k = choose|k: int| 0 <= k < tp@.1.len() && !component_resolvable(m, #[trigger] tp@.1[k]);
                                }
                                return Err(e);
                            },
                        }
                        j = j + 1;
                    }
                },
            }
            i = i + 1;
        }
        let rn = self.renames.len();
        let mut r: usize = 0;
        while r < rn
            invariant
                m == self@,
                rn == self.renames@.len(),
                rn == m.renames.len(),
                r <= rn,
                forall|a: int, j: int, k: int|
                    0 <= a < m.packages.len() && 0 <= j < targeted_packages(m.packages[a].1.1).len()
                        && 0 <= k < targeted_packages(m.packages[a].1.1)[j].1.len()
                        ==> component_resolvable(m, #[trigger] targeted_packages(m.packages[a].1.1)[j].1[k]),
                forall|a: int| 0 <= a < r ==> first_key(m.packages, (#[trigger] m.renames[a]).1) is Some,
            decreases rn - r,
        {
            let to = &self.renames[r].1.to;
            assert(m.renames[r as int].1 == to@);
            if self.find_package(to.as_str()).is_none() {
                return Err(ManifestError::BrokenRename(to.clone()));
            }
            r = r + 1;
        }
        Ok(())
    }
}


/// The abstract value of a list of string pairs.
pub open spec fn pairs_view(m: Seq<(String, String)>) -> Seq<(Seq<char>, Seq<char>)> {
    m.map_values(|e: (String, String)| (e.0@, e.1@))
}

fn copy_pairs(v: &Vec<(String, String)>) -> (r: Vec<(String, String)>)
    ensures
        pairs_view(r@) == pairs_view(v@),
{
    let mut r: Vec<(String, String)> = Vec::new();
    let mut i: usize = 0;
    while i < v.len()
        invariant
            i <= v@.len(),
            pairs_view(r@) == pairs_view(v@.subrange(0, i as int)),
        decreases v@.len() - i,
    {
        let e = (v[i].0.clone(), v[i].1.clone());
        let ghost r0 = r@;
        r.push(e);
        proof {
            assert(v@.subrange(0, i + 1) =~= v@.subrange(0, i as int).push(v@[i as int]));
            assert(pairs_view(r@) =~= pairs_view(r0).push((e.0@, e.1@)));
            assert(pairs_view(v@.subrange(0, i + 1)) =~= pairs_view(v@.subrange(0, i as int)).push((v@[i as int].0@, v@[i as int].1@)));
        }
        i = i + 1;
    }
    assert(v@.subrange(0, v@.len() as int) =~= v@);
    r
}

fn insert_or_replace_exec(m: &mut Vec<(String, String)>, k: String, v: String)
    ensures
        pairs_view(final(m)@) == insert_or_replace(pairs_view(old(m)@), k@, v@),
{
    match find_str_key(m, k.as_str()) {
        Some(i) => {
            let ghost k0 = k@;
            let ghost v0 = v@;
            let ghost m0 = m@;
            m.set(i, (k, v));
            assert(pairs_view(m@) =~= pairs_view(m0).update(i as int, (k0, v0)));
        },
        None => {
            let ghost m0 = m@;
            let ghost e = (k@, v@);
            m.push((k, v));
            assert(pairs_view(m@) =~= pairs_view(m0).push(e));
        },
    }
}

/// The manifest with the reverse renames recorded, as after reading a
/// manifest file.
pub open spec fn with_reverse(m: ManifestV) -> ManifestV {
    ManifestV { reverse_renames: with_reverse_renames(m.reverse_renames, m.renames), ..m }
}

impl Manifest {
    /// Completes a manifest read from a file: records the reverse of each
    /// rename, then validates; see [`with_reverse`] and [`manifest_valid`].
    pub fn finish_parse(self) -> (r: Result<Manifest, ManifestError>)
        ensures
            r is Ok <==> manifest_valid(with_reverse(self@)),
            r matches Ok(m) ==> m@ == with_reverse(self@),
            !components_valid(with_reverse(self@)) ==> (r matches Err(e) && e@ is MissingPackageForComponent),
            components_valid(with_reverse(self@)) && !renames_valid(with_reverse(self@))
                ==> (r matches Err(e) && e@ is BrokenRename),
    {
        let mut m = self;
        let ghost m0 = m@;
        let ghost rn = m@.renames;
        let n = m.renames.len();
        let mut rev = copy_pairs(&m.reverse_renames);
        assert(pairs_view(rev@) == m0.reverse_renames);
        let mut i: usize = 0;
        while i < n
            invariant
                n == m.renames@.len(),
                rn == m@.renames,
                m@ == m0,
                i <= n,
                pairs_view(rev@) == with_reverse_renames(m0.reverse_renames, rn.take(i as int)),
            decreases n - i,
        {
            let from = m.renames[i].0.clone();
            let to = m.renames[i].1.to.clone();
            proof {
                assert(rn[i as int] == (from@, to@));
                assert(rn.take(i + 1).drop_last() =~= rn.take(i as int));
                assert(rn.take(i + 1).last() == (from@, to@));
            }
            insert_or_replace_exec(&mut rev, to, from);
            i = i + 1;
        }
        assert(rn.take(n as int) =~= rn);
        m.reverse_renames = rev;
        assert(m@.packages == m0.packages);
        assert(m@ == with_reverse(m0));
        match m.validate() {
            Ok(()) => Ok(m),
            Err(e) => Err(e),
        }
    }
}

/// The format version of an installation's configuration file.
#[derive(Debug, Clone, Copy, PartialEq, Eq, Structural)]
pub enum ConfigVersion {
    V1,
}

impl ConfigVersion {
    /// The version's text.
    pub fn as_str(&self) -> (r: &'static str)
        ensures
            r@ == "1"@,
    {
        "1"
    }

    /// Reads a version text; only `1` is known.
    pub fn from_str(s: &str) -> (r: Option<ConfigVersion>)
        ensures
            r is Some <==> s@ == "1"@,
    {
        if str_eq(s, "1") { Some(ConfigVersion::V1) } else { None }
    }
}

/// An installation's configuration: which components are installed.
#[derive(Debug, Clone)]
pub struct Config {
    pub config_version: ConfigVersion,
    pub components: Vec<Component>,
}

impl Config {
    /// An empty configuration.
    pub fn new() -> (r: Self)
        ensures
            r.components@.len() == 0,
    {
        Config { config_version: ConfigVersion::V1, components: Vec::new() }
    }
}


/// Two component lists are equal, element by element (by component
/// equality).
pub open spec fn comps_same(a: Seq<ComponentV>, b: Seq<ComponentV>) -> bool {
    a.len() == b.len() && forall|i: int| 0 <= i < a.len() ==> same_comp(#[trigger] a[i], b[i])
}

/// Two targeted packages are equal.
pub open spec fn tp_same(a: TargetedPackageV, b: TargetedPackageV) -> bool {
    a.0 == b.0 && comps_same(a.1, b.1)
}

/// Two maps have the same entries: as many, and each key of one is found
/// in the other with an equal value (`eqv`).
pub open spec fn map_same<V>(a: Seq<(Seq<char>, V)>, b: Seq<(Seq<char>, V)>, eqv: spec_fn(V, V) -> bool) -> bool {
    &&& a.len() == b.len()
    &&& forall|i: int| 0 <= i < a.len() ==> (first_key(b, (#[trigger] a[i]).0) matches Some(j) && eqv(a[i].1, b[j].1))
    &&& forall|j: int| 0 <= j < b.len() ==> (first_key(a, (#[trigger] b[j]).0) matches Some(i) && eqv(a[i].1, b[j].1))
}

/// Equality of targeted packages, as a function value.
pub open spec fn tp_same_fn() -> spec_fn(TargetedPackageV, TargetedPackageV) -> bool {
    |a: TargetedPackageV, b: TargetedPackageV| tp_same(a, b)
}

/// Two packages' targets are equal.
pub open spec fn targets_same(a: PackageTargetsV, b: PackageTargetsV) -> bool {
    match (a, b) {
        (PackageTargetsV::Wildcard(x), PackageTargetsV::Wildcard(y)) => tp_same(x, y),
        (PackageTargetsV::Targeted(x), PackageTargetsV::Targeted(y)) => map_same(x, y, tp_same_fn()),
        _ => false,
    }
}

/// Equality of packages, as a function value.
pub open spec fn package_same_fn() -> spec_fn(PackageV, PackageV) -> bool {
    |a: PackageV, b: PackageV| a.0 == b.0 && targets_same(a.1, b.1)
}

/// Plain equality of texts, as a function value.
pub open spec fn text_eq_fn() -> spec_fn(Seq<char>, Seq<char>) -> bool {
    |a: Seq<char>, b: Seq<char>| a == b
}

/// Two profile maps have the same entries.
pub open spec fn profiles_same(a: Seq<(Profile, Seq<Seq<char>>)>, b: Seq<(Profile, Seq<Seq<char>>)>) -> bool {
    &&& a.len() == b.len()
    &&& forall|i: int| 0 <= i < a.len() ==> (first_profile(b, (#[trigger] a[i]).0) matches Some(j) && a[i].1 == b[j].1)
    &&& forall|j: int| 0 <= j < b.len() ==> (first_profile(a, (#[trigger] b[j]).0) matches Some(i) && a[i].1 == b[j].1)
}

/// Two manifests are equal: same date, and the same packages, renames,
/// reverse renames and profiles as maps.
pub open spec fn manifest_same(a: ManifestV, b: ManifestV) -> bool {
    &&& a.date == b.date
    &&& map_same(a.packages, b.packages, package_same_fn())
    &&& map_same(a.renames, b.renames, text_eq_fn())
    &&& map_same(a.reverse_renames, b.reverse_renames, text_eq_fn())
    &&& profiles_same(a.profiles, b.profiles)
}

fn bins_eq(a: &Vec<HashedBinary>, b: &Vec<HashedBinary>) -> (r: bool)
    ensures
        r == (bins_view(a@) == bins_view(b@)),
{
    if a.len() != b.len() {
        assert(bins_view(a@).len() != bins_view(b@).len());
        return false;
    }
    let n = a.len();
    let mut i: usize = 0;
    while i < n
        invariant
            n == a@.len(),
            n == b@.len(),
            i <= n,
            forall|j: int| 0 <= j < i ==> bins_view(a@)[j] == bins_view(b@)[j],
        decreases n - i,
    {
        let x = &a[i];
        let y = &b[i];
        assert(bins_view(a@)[i as int] == x@ && bins_view(b@)[i as int] == y@);
        if !(str_eq(x.url.as_str(), y.url.as_str()) && str_eq(x.hash.as_str(), y.hash.as_str()) && x.compression == y.compression) {
            return false;
        }
        i = i + 1;
    }
    assert(bins_view(a@) =~= bins_view(b@));
    true
}

fn comps_eq(a: &Vec<Component>, b: &Vec<Component>) -> (r: bool)
    ensures
        r == comps_same(comps_view(a@), comps_view(b@)),
{
    if a.len() != b.len() {
        return false;
    }
    let n = a.len();
    let mut i: usize = 0;
    while i < n
        invariant
            n == a@.len(),
            n == b@.len(),
            i <= n,
            forall|j: int| 0 <= j < i ==> same_comp(#[trigger] comps_view(a@)[j], comps_view(b@)[j]),
        decreases n - i,
    {
        assert(comps_view(a@)[i as int] == a@[i as int]@ && comps_view(b@)[i as int] == b@[i as int]@);
        if !a[i].same_as(&b[i]) {
            return false;
        }
        i = i + 1;
    }
    true
}

fn tp_eq(a: &TargetedPackage, b: &TargetedPackage) -> (r: bool)
    ensures
        r == tp_same(a@, b@),
{
    bins_eq(&a.bins, &b.bins) && comps_eq(&a.components, &b.components)
}

/// Each entry of `a` has an equal entry in `b`.
pub open spec fn tmap_covers(a: Seq<(Seq<char>, TargetedPackageV)>, b: Seq<(Seq<char>, TargetedPackageV)>) -> bool {
    forall|k: int| 0 <= k < a.len() ==> (first_key(b, (#[trigger] a[k]).0) matches Some(j) && tp_same(a[k].1, b[j].1))
}

proof fn lemma_tp_same_sym(a: TargetedPackageV, b: TargetedPackageV)
    ensures
        tp_same(a, b) == tp_same(b, a),
{
    if tp_same(a, b) {
        assert forall|i: int| 0 <= i < b.1.len() implies same_comp(#[trigger] b.1[i], a.1[i]) by {
            assert(same_comp(a.1[i], b.1[i]));
        }
    }
    if tp_same(b, a) {
        assert forall|i: int| 0 <= i < a.1.len() implies same_comp(#[trigger] a.1[i], b.1[i]) by {
            assert(same_comp(b.1[i], a.1[i]));
        }
    }
}

fn tmap_covers_exec(a: &Vec<(TargetTriple, TargetedPackage)>, b: &Vec<(TargetTriple, TargetedPackage)>) -> (r: bool)
    ensures
        r == tmap_covers(target_map_view(a@), target_map_view(b@)),
{
    let ghost av = target_map_view(a@);
    let ghost bv = target_map_view(b@);
    let n = a.len();
    let mut i: usize = 0;
    while i < n
        invariant
            n == a@.len(),
            av == target_map_view(a@),
            bv == target_map_view(b@),
            i <= n,
            forall|k: int| 0 <= k < i ==> (first_key(bv, (#[trigger] av[k]).0) matches Some(j) && tp_same(av[k].1, bv[j].1)),
        decreases n - i,
    {
        assert(av[i as int] == (a@[i as int].0@, a@[i as int].1@));
        match find_target(b, &a[i].0) {
            Some(j) => {
                assert(bv[j as int] == (b@[j as int].0@, b@[j as int].1@));
                if !tp_eq(&a[i].1, &b[j].1) {
                    return false;
                }
            },
            None => {
                return false;
            },
        }
        i = i + 1;
    }
    true
}

fn tmap_eq(a: &Vec<(TargetTriple, TargetedPackage)>, b: &Vec<(TargetTriple, TargetedPackage)>) -> (r: bool)
    ensures
        r == map_same(target_map_view(a@), target_map_view(b@), tp_same_fn()),
{
    let ghost av = target_map_view(a@);
    let ghost bv = target_map_view(b@);
    if a.len() != b.len() {
        return false;
    }
    let c1 = tmap_covers_exec(a, b);
    let c2 = tmap_covers_exec(b, a);
    proof {
        assert forall|j: int| 0 <= j < bv.len() implies
            ((first_key(av, (#[trigger] bv[j]).0) matches Some(i) && tp_same(av[i].1, bv[j].1))
                == (first_key(av, bv[j].0) matches Some(i) && tp_same(bv[j].1, av[i].1))) by {
            if let Some(i) = first_key(av, bv[j].0) {
                lemma_tp_same_sym(av[i].1, bv[j].1);
            }
        }
    }
    c1 && c2
}

fn targets_eq(a: &PackageTargets, b: &PackageTargets) -> (r: bool)
    ensures
        r == targets_same(a@, b@),
{
    match (a, b) {
        (PackageTargets::Wildcard(x), PackageTargets::Wildcard(y)) => tp_eq(x, y),
        (PackageTargets::Targeted(x), PackageTargets::Targeted(y)) => tmap_eq(x, y),
        _ => false,
    }
}

fn package_eq(a: &Package, b: &Package) -> (r: bool)
    ensures
        r == (a@.0 == b@.0 && targets_same(a@.1, b@.1)),
{
    str_eq(a.version.as_str(), b.version.as_str()) && targets_eq(&a.targets, &b.targets)
}


/// Each package of `a` has an equal package in `b`.
pub open spec fn packages_cover(a: Seq<(Seq<char>, PackageV)>, b: Seq<(Seq<char>, PackageV)>) -> bool {
    forall|k: int| 0 <= k < a.len() ==> (first_key(b, (#[trigger] a[k]).0) matches Some(j)
        && a[k].1.0 == b[j].1.0 && targets_same(a[k].1.1, b[j].1.1))
}

proof fn lemma_targets_same_sym(a: PackageTargetsV, b: PackageTargetsV)
    ensures
        targets_same(a, b) == targets_same(b, a),
{
    match (a, b) {
        (PackageTargetsV::Wildcard(x), PackageTargetsV::Wildcard(y)) => {
            lemma_tp_same_sym(x, y);
        },
        (PackageTargetsV::Targeted(x), PackageTargetsV::Targeted(y)) => {
            assert forall|i: int| 0 <= i < x.len() implies
                ((first_key(y, (#[trigger] x[i]).0) matches Some(j) && tp_same(x[i].1, y[j].1))
                    == (first_key(y, x[i].0) matches Some(j) && tp_same(y[j].1, x[i].1))) by {
                if let Some(j) = first_key(y, x[i].0) {
                    lemma_tp_same_sym(x[i].1, y[j].1);
                }
            }
            assert forall|j: int| 0 <= j < y.len() implies
                ((first_key(x, (#[trigger] y[j]).0) matches Some(i) && tp_same(x[i].1, y[j].1))
                    == (first_key(x, y[j].0) matches Some(i) && tp_same(y[j].1, x[i].1))) by {
                if let Some(i) = first_key(x, y[j].0) {
                    lemma_tp_same_sym(x[i].1, y[j].1);
                }
            }
        },
        _ => {},
    }
}

fn packages_cover_exec(a: &Manifest, b: &Manifest) -> (r: bool)
    ensures
        r == packages_cover(a@.packages, b@.packages),
{
    let ghost av = a@.packages;
    let ghost bv = b@.packages;
    let n = a.packages.len();
    let mut i: usize = 0;
    while i < n
        invariant
            n == a.packages@.len(),
            n == av.len(),
            av == a@.packages,
            bv == b@.packages,
            i <= n,
            forall|k: int| 0 <= k < i ==> (first_key(bv, (#[trigger] av[k]).0) matches Some(j)
                && av[k].1.0 == bv[j].1.0 && targets_same(av[k].1.1, bv[j].1.1)),
        decreases n - i,
    {
        assert(av[i as int] == (a.packages@[i as int].0@, a.packages@[i as int].1@));
        match b.find_package(a.packages[i].0.as_str()) {
            Some(j) => {
                assert(bv[j as int] == (b.packages@[j as int].0@, b.packages@[j as int].1@));
                if !package_eq(&a.packages[i].1, &b.packages[j].1) {
                    return false;
                }
            },
            None => {
                return false;
            },
        }
        i = i + 1;
    }
    true
}

/// Each entry of `a` has an equal entry in `b`.
pub open spec fn pairs_cover(a: Seq<(Seq<char>, Seq<char>)>, b: Seq<(Seq<char>, Seq<char>)>) -> bool {
    forall|k: int| 0 <= k < a.len() ==> (first_key(b, (#[trigger] a[k]).0) matches Some(j) && a[k].1 == b[j].1)
}

fn pairs_cover_exec(a: &Vec<(String, String)>, b: &Vec<(String, String)>) -> (r: bool)
    ensures
        r == pairs_cover(pairs_view(a@), pairs_view(b@)),
{
    let ghost av = pairs_view(a@);
    let ghost bv = pairs_view(b@);
    let n = a.len();
    let mut i: usize = 0;
    while i < n
        invariant
            n == a@.len(),
            av == pairs_view(a@),
            bv == pairs_view(b@),
            i <= n,
            forall|k: int| 0 <= k < i ==> (first_key(bv, (#[trigger] av[k]).0) matches Some(j) && av[k].1 == bv[j].1),
        decreases n - i,
    {
        assert(av[i as int] == (a@[i as int].0@, a@[i as int].1@));
        match find_str_key(b, a[i].0.as_str()) {
            Some(j) => {
                assert(bv[j as int] == (b@[j as int].0@, b@[j as int].1@));
                if !str_eq(a[i].1.as_str(), b[j].1.as_str()) {
                    return false;
                }
            },
            None => {
                return false;
            },
        }
        i = i + 1;
    }
    true
}

fn renames_as_pairs(v: &Vec<(String, Renamed)>) -> (r: Vec<(String, String)>)
    ensures
        pairs_view(r@) == v@.map_values(|e: (String, Renamed)| (e.0@, e.1.to@)),
{
    let mut r: Vec<(String, String)> = Vec::new();
    let mut i: usize = 0;
    while i < v.len()
        invariant
            i <= v@.len(),
            pairs_view(r@) == v@.subrange(0, i as int).map_values(|e: (String, Renamed)| (e.0@, e.1.to@)),
        decreases v@.len() - i,
    {
        let e = (v[i].0.clone(), v[i].1.to.clone());
        let ghost r0 = r@;
        r.push(e);
        proof {
            assert(v@.subrange(0, i + 1) =~= v@.subrange(0, i as int).push(v@[i as int]));
            assert(pairs_view(r@) =~= pairs_view(r0).push((e.0@, e.1@)));
            assert(v@.subrange(0, i + 1).map_values(|e: (String, Renamed)| (e.0@, e.1.to@))
                =~= v@.subrange(0, i as int).map_values(|e: (String, Renamed)| (e.0@, e.1.to@)).push((v@[i as int].0@, v@[i as int].1.to@)));
        }
        i = i + 1;
    }
    assert(v@.subrange(0, v@.len() as int) =~= v@);
    r
}

/// Each profile entry of `a` has an equal entry in `b`.
pub open spec fn profiles_cover(a: Seq<(Profile, Seq<Seq<char>>)>, b: Seq<(Profile, Seq<Seq<char>>)>) -> bool {
    forall|k: int| 0 <= k < a.len() ==> (first_profile(b, (#[trigger] a[k]).0) matches Some(j) && a[k].1 == b[j].1)
}

fn strings_eq(a: &Vec<String>, b: &Vec<String>) -> (r: bool)
    ensures
        r == (strings_view(a@) == strings_view(b@)),
{
    if a.len() != b.len() {
        assert(strings_view(a@).len() != strings_view(b@).len());
        return false;
    }
    let n = a.len();
    let mut i: usize = 0;
    while i < n
        invariant
            n == a@.len(),
            n == b@.len(),
            i <= n,
            forall|j: int| 0 <= j < i ==> strings_view(a@)[j] == strings_view(b@)[j],
        decreases n - i,
    {
        assert(strings_view(a@)[i as int] == a@[i as int]@ && strings_view(b@)[i as int] == b@[i as int]@);
        if !str_eq(a[i].as_str(), b[i].as_str()) {
            return false;
        }
        i = i + 1;
    }
    assert(strings_view(a@) =~= strings_view(b@));
    true
}

fn profiles_cover_exec(a: &Manifest, b: &Manifest) -> (r: bool)
    ensures
        r == profiles_cover(a@.profiles, b@.profiles),
{
    let ghost av = a@.profiles;
    let ghost bv = b@.profiles;
    let n = a.profiles.len();
    let mut i: usize = 0;
    while i < n
        invariant
            n == a.profiles@.len(),
            n == av.len(),
            av == a@.profiles,
            bv == b@.profiles,
            i <= n,
            forall|k: int| 0 <= k < i ==> (first_profile(bv, (#[trigger] av[k]).0) matches Some(j) && av[k].1 == bv[j].1),
        decreases n - i,
    {
        assert(av[i as int] == (a.profiles@[i as int].0, strings_view(a.profiles@[i as int].1@)));
        match b.find_profile(a.profiles[i].0) {
            Some(j) => {
                assert(bv[j as int] == (b.profiles@[j as int].0, strings_view(b.profiles@[j as int].1@)));
                if !strings_eq(&a.profiles[i].1, &b.profiles[j].1) {
                    return false;
                }
            },
            None => {
                return false;
            },
        }
        i = i + 1;
    }
    true
}

/// Whether two manifests are equal; see [`manifest_same`].
pub fn manifests_same(a: &Manifest, b: &Manifest) -> (r: bool)
    ensures
        r == manifest_same(a@, b@),
{
    let ghost av = a@;
    let ghost bv = b@;
    if !str_eq(a.date.as_str(), b.date.as_str()) {
        return false;
    }
    if a.packages.len() != b.packages.len() || a.renames.len() != b.renames.len()
        || a.reverse_renames.len() != b.reverse_renames.len() || a.profiles.len() != b.profiles.len() {
        return false;
    }
    let p1 = packages_cover_exec(a, b);
    let p2 = packages_cover_exec(b, a);
    let ar = renames_as_pairs(&a.renames);
    let br = renames_as_pairs(&b.renames);
    let r1 = pairs_cover_exec(&ar, &br);
    let r2 = pairs_cover_exec(&br, &ar);
    let v1 = pairs_cover_exec(&a.reverse_renames, &b.reverse_renames);
    let v2 = pairs_cover_exec(&b.reverse_renames, &a.reverse_renames);
    let f1 = profiles_cover_exec(a, b);
    let f2 = profiles_cover_exec(b, a);
    proof {
        assert forall|j: int| 0 <= j < bv.packages.len() implies
            ((first_key(av.packages, (#[trigger] bv.packages[j]).0) matches Some(i)
                && av.packages[i].1.0 == bv.packages[j].1.0 && targets_same(av.packages[i].1.1, bv.packages[j].1.1))
            == (first_key(av.packages, bv.packages[j].0) matches Some(i)
                && bv.packages[j].1.0 == av.packages[i].1.0 && targets_same(bv.packages[j].1.1, av.packages[i].1.1))) by {
            if let Some(i) = first_key(av.packages, bv.packages[j].0) {
                lemma_targets_same_sym(av.packages[i].1.1, bv.packages[j].1.1);
            }
        }
        assert(pairs_view(a.reverse_renames@) == av.reverse_renames);
        assert(pairs_view(b.reverse_renames@) == bv.reverse_renames);
    }
    p1 && p2 && r1 && r2 && v1 && v2 && f1 && f2
}


/// A component serves target `t` when it is for `t` or for every target.
pub open spec fn serves(c: ComponentV, t: Seq<char>) -> bool {
    c.1 is None || c.1 == Some(t)
}

/// Some component of package `s` serving `t` has none of the same kind
/// before it, once any component of package `s` serves `t`.
proof fn lemma_earliest_serving_exists(comps: Seq<ComponentV>, s: Seq<char>, t: Seq<char>, j: int)
    requires
        0 <= j < comps.len(),
        comps[j].0 == s && serves(comps[j], t),
    ensures
        exists|c: int| 0 <= c < comps.len() && (#[trigger] comps[c]).0 == s && (comps[c].1 is None || comps[c].1 == Some(t))
            && forall|k: int| 0 <= k < c ==> !((#[trigger] comps[k]).0 == s && (comps[k].1 is None || comps[k].1 == Some(t))),
    decreases j,
{
    if exists|k: int| 0 <= k < j && (#[trigger] comps[k]).0 == s && serves(comps[k], t) {
        let k = choose|k: int| 0 <= k < j && (#[trigger] comps[k]).0 == s && serves(comps[k], t);
        lemma_earliest_serving_exists(comps, s, t, k);
    } else {
        assert forall|k: int| 0 <= k < j implies !((#[trigger] comps[k]).0 == s && (comps[k].1 is None || comps[k].1 == Some(t))) by {
            if comps[k].0 == s && (comps[k].1 is None || comps[k].1 == Some(t)) {
                assert(serves(comps[k], t));
            }
        }
    }
}

/// The components of a profile for target `t` are taken from the `rust`
/// package for `t` as it lists them: each is a non-extension component
/// with the package and the target of a component listed there that serves
/// `t`. Where the manifest has profiles, that listed component is the
/// first of its package that serves `t`, so a package that the `rust`
/// package lists for every target is returned for every target, not for
/// `t`.
pub proof fn law_profile_components_keep_listed_targets(m: ManifestV, p: Profile, t: Seq<char>, i: int)
    requires
        profile_components_spec(m, p, t) matches Ok(cs) && 0 <= i < cs.len(),
    ensures
        rust_target_spec(m, t) matches Ok(tp) && profile_components_spec(m, p, t) matches Ok(cs) && !cs[i].2
            && exists|j: int| 0 <= j < tp.1.len() && (#[trigger] tp.1[j]).0 == cs[i].0 && tp.1[j].1 == cs[i].1
                && serves(tp.1[j], t)
                && (m.profiles.len() > 0 ==> forall|k: int| 0 <= k < j ==> !((#[trigger] tp.1[k]).0 == cs[i].0 && serves(tp.1[k], t))),
{
    let cs = profile_components_spec(m, p, t)->Ok_0;
    if m.profiles.len() == 0 {
        let tp = rust_target_spec(m, t)->Ok_0;
        let pr = legacy_pred(t);
        assert(cs == tp.1.filter(pr));
        tp.1.lemma_filter_pred(pr, i);
        assert(tp.1.filter(pr).contains(cs[i]));
        tp.1.lemma_filter_contains_rev(pr, cs[i]);
        let j = choose|j: int| 0 <= j < tp.1.len() && tp.1[j] == cs[i];
        assert(tp.1[j].0 == cs[i].0 && tp.1[j].1 == cs[i].1 && serves(tp.1[j], t));
    } else {
        let pi = first_profile(m.profiles, p)->Some_0;
        let tp = rust_target_spec(m, t)->Ok_0;
        let names = m.profiles[pi].1;
        let f = profile_pick(tp.1, t);
        assert(cs == names.filter_map(f));
        assert(cs.contains(cs[i]));
        names.lemma_filter_map_contains(f, cs[i]);
        let n = choose|n: Seq<char>| #[trigger] names.contains(n) && f(n) == Some(cs[i]);
        assert(first_serving(tp.1, n, t) is Some);
        let w = choose|j: int| 0 <= j < tp.1.len() && (#[trigger] tp.1[j]).0 == n && (tp.1[j].1 is None || tp.1[j].1 == Some(t));
        lemma_earliest_serving_exists(tp.1, n, t, w);
        let j = first_serving(tp.1, n, t)->Some_0;
        assert(cs[i] == (n, tp.1[j].1, false));
        assert(serves(tp.1[j], t));
        assert forall|k: int| 0 <= k < j implies !((#[trigger] tp.1[k]).0 == cs[i].0 && serves(tp.1[k], t)) by {
            assert(!(tp.1[k].0 == n && (tp.1[k].1 is None || tp.1[k].1 == Some(t))));
        }
    }
}

} // verus!
