//! Planning an installation or update: which components to remove, which
//! to install, and which end up installed.

use vstd::prelude::*;
use crate::manifest::{
    same_comp, comp_in, comps_view, contained_within_spec, contains_component, copy_comps, get_target_spec,
    manifest_same, manifests_same, package_get_spec, profile_components_spec, rename_spec,
    rust_target_spec, with_target_suffix, Component, ComponentV, Config, HashedBinary, HashedBinaryV, Manifest,
    ManifestError, ManifestErrorV, ManifestV, manifest_error_message,
};
use crate::errors::{component_unavailable_msg, component_unavailable_msg_spec};
use crate::prefix::InstallPrefix;
use crate::text::{concat2, contains_seq, contains_str, replace_all, replace_str, str_eq, texts_contain, texts_view};
use crate::toolchain::{Profile, DEFAULT_DIST_SERVER};
use crate::triple::TargetTriple;

verus! {

/// The file that records the installed distribution manifest.
pub const DIST_MANIFEST: &'static str = "multirust-channel-manifest.toml";
/// The file that records the installed components.
pub const CONFIG_FILE: &'static str = "multirust-config.toml";

/// An installation prefix being maintained for a target triple.
#[derive(Debug)]
pub struct Manifestation {
    pub prefix: InstallPrefix,
    pub target_triple: TargetTriple,
}

impl Manifestation {
    /// The installation at `prefix` for `triple`. (Reading the installed
    /// component list is done by the caller.)
    pub fn open(prefix: InstallPrefix, triple: TargetTriple) -> (r: Self)
        ensures
            r.prefix@ == prefix@,
            r.target_triple@ == triple@,
    {
        Manifestation { prefix, target_triple: triple }
    }

    /// Whether the installation came from a v1 manifest and must have all
    /// its installed components (by the installer's own list) uninstalled
    /// before an update: it has components but no configuration.
    pub fn looks_like_v1(&self, config: &Option<Config>, installed_nonempty: bool) -> (r: bool)
        ensures
            r == (config is None && installed_nonempty),
    {
        config.is_none() && installed_nonempty
    }

    /// Which installed component removing `component` takes out, given the
    /// names of the installed components: the one named as the manifest
    /// names the component with its target, else the one named by its
    /// package alone (older installers used either); none when neither is
    /// installed, and then there is nothing to remove.
    pub fn uninstall_component(&self, component: &Component, installed: &Vec<String>) -> (r: Option<String>)
        ensures
            texts_view(installed@).contains(with_target_suffix(component@.0, component@.1)) ==>
                (r matches Some(n) && n@ == with_target_suffix(component@.0, component@.1)),
            !texts_view(installed@).contains(with_target_suffix(component@.0, component@.1))
                && texts_view(installed@).contains(component@.0) ==> (r matches Some(n) && n@ == component@.0),
            !texts_view(installed@).contains(with_target_suffix(component@.0, component@.1))
                && !texts_view(installed@).contains(component@.0) ==> r is None,
    {
        let name = component.name_in_manifest();
        if texts_contain(installed, name.as_str()) {
            return Some(name);
        }
        let short = component.short_name_in_manifest();
        if texts_contain(installed, short.as_str()) {
            Some(short.clone())
        } else {
            None
        }
    }
}

/// Whether an update changed the installation.
#[derive(Debug, Clone, Copy, PartialEq, Eq, Structural)]
pub enum UpdateStatus {
    Changed,
    Unchanged,
}

/// Requested changes to the set of installed components.
#[derive(Debug)]
pub struct Changes {
    pub explicit_add_components: Vec<Component>,
    pub remove_components: Vec<Component>,
}

/// Whether some component is both to be added and removed.
pub open spec fn add_remove_conflict(adds: Seq<ComponentV>, removes: Seq<ComponentV>) -> bool {
    exists|i: int| 0 <= i < adds.len() && comp_in(#[trigger] adds[i], removes)
}

/// The components of an optional configuration (none when there is none).
pub open spec fn config_comps(config: Option<Config>) -> Seq<ComponentV> {
    match config {
        Some(c) => comps_view(c.components@),
        None => Seq::<ComponentV>::empty(),
    }
}

/// Every component to remove is installed according to `config` (which
/// must exist).
pub open spec fn removals_installed(removes: Seq<ComponentV>, config: Option<Config>) -> bool {
    forall|i: int| 0 <= i < removes.len() ==> (config is Some && comp_in(#[trigger] removes[i], config_comps(config)))
}

/// Refused changes.
#[derive(Debug, Clone, Copy, PartialEq, Eq, Structural)]
pub enum ChangesError {
    /// A component is both to be added and removed.
    AddAndRemove,
}

impl ChangesError {
    /// The text this error shows.
    pub fn message(&self) -> (r: String)
        ensures
            r@ == "can't both add and remove components"@,
    {
        "can't both add and remove components".to_owned()
    }
}

impl Changes {
    /// The components explicitly requested.
    pub fn iter_add_components(&self) -> (r: &Vec<Component>)
        ensures
            r == &self.explicit_add_components,
    {
        &self.explicit_add_components
    }

    /// Refuses a component both added and removed. (Removing a component
    /// that is not installed is a caller's error, excluded by `requires`.)
    pub fn check_invariants(&self, config: &Option<Config>) -> (r: Result<(), ChangesError>)
        requires
            add_remove_conflict(comps_view(self.explicit_add_components@), comps_view(self.remove_components@))
                || removals_installed(comps_view(self.remove_components@), *config),
        ensures
            r is Err <==> add_remove_conflict(comps_view(self.explicit_add_components@), comps_view(self.remove_components@)),
    {
        let ghost adds = comps_view(self.explicit_add_components@);
        let ghost removes = comps_view(self.remove_components@);
        let n = self.explicit_add_components.len();
        let mut i: usize = 0;
        while i < n
            invariant
                n == adds.len(),
                adds == comps_view(self.explicit_add_components@),
                removes == comps_view(self.remove_components@),
                i <= n,
                forall|j: int| 0 <= j < i ==> !comp_in(#[trigger] adds[j], removes),
            decreases n - i,
        {
            assert(adds[i as int] == self.explicit_add_components@[i as int]@);
            if contains_component(&self.remove_components, &self.explicit_add_components[i]) {
                return Err(ChangesError::AddAndRemove);
            }
            i = i + 1;
        }
        Ok(())
    }
}

/// One step of building the final component list from an installed
/// component `e` (state: final list, missing components). A component to
/// be removed is dropped. A component that the new manifest renames is
/// replaced by its new name. Otherwise it is kept when the `rust` package
/// still offers it; when only its package is offered (a component wrongly
/// made target-specific), it becomes the package for every target;
/// failing both, it is missing. Nothing already in the list is added again.
pub open spec fn final_step(
    m: ManifestV,
    rtp: Seq<ComponentV>,
    removes: Seq<ComponentV>,
    st: (Seq<ComponentV>, Seq<ComponentV>),
    e: ComponentV,
) -> (Seq<ComponentV>, Seq<ComponentV>) {
    let fin = st.0;
    let miss = st.1;
    if comp_in(e, removes) {
        st
    } else {
        match rename_spec(m, e) {
            Some(rn) => if comp_in(rn, fin) { st } else { (fin.push(rn), miss) },
            None => {
                if comp_in(e, fin) {
                    st
                } else if comp_in(e, rtp) {
                    (fin.push(e), miss)
                } else if contained_within_spec(e, rtp) {
                    let w = (e.0, None::<Seq<char>>, false);
                    if comp_in(w, fin) { st } else { (fin.push(w), miss) }
                } else {
                    (fin, miss.push(e))
                }
            },
        }
    }
}

/// The final list and missing components after processing the installed
/// components `start` in order; see [`final_step`].
pub open spec fn final_fold(
    m: ManifestV,
    rtp: Seq<ComponentV>,
    removes: Seq<ComponentV>,
    init: (Seq<ComponentV>, Seq<ComponentV>),
    start: Seq<ComponentV>,
) -> (Seq<ComponentV>, Seq<ComponentV>)
    decreases start.len(),
{
    if start.len() == 0 {
        init
    } else {
        final_step(m, rtp, removes, final_fold(m, rtp, removes, init, start.drop_last()), start.last())
    }
}

/// The planned update.
#[derive(Debug)]
pub struct Update {
    pub components_to_uninstall: Vec<Component>,
    pub components_to_install: Vec<Component>,
    pub final_component_list: Vec<Component>,
    pub missing_components: Vec<Component>,
}

/// The abstract value of an update: to uninstall, to install, final
/// list, missing.
pub type UpdateV = (Seq<ComponentV>, Seq<ComponentV>, Seq<ComponentV>, Seq<ComponentV>);

impl View for Update {
    type V = UpdateV;

    open spec fn view(&self) -> UpdateV {
        (
            comps_view(self.components_to_uninstall@),
            comps_view(self.components_to_install@),
            comps_view(self.final_component_list@),
            comps_view(self.missing_components@),
        )
    }
}

/// Selects components not in `s`.
pub open spec fn not_in(s: Seq<ComponentV>) -> spec_fn(ComponentV) -> bool {
    |c: ComponentV| !comp_in(c, s)
}

fn push_copies(dst: &mut Vec<Component>, src: &Vec<Component>)
    ensures
        comps_view(final(dst)@) == comps_view(old(dst)@) + comps_view(src@),
{
    let ghost d0 = comps_view(dst@);
    let mut i: usize = 0;
    while i < src.len()
        invariant
            i <= src@.len(),
            comps_view(dst@) == d0 + comps_view(src@).take(i as int),
        decreases src@.len() - i,
    {
        let c = src[i].copy();
        let ghost k0 = dst@;
        dst.push(c);
        proof {
            assert(comps_view(dst@) =~= comps_view(k0).push(c@));
            assert(comps_view(src@).take(i + 1) =~= comps_view(src@).take(i as int).push(src@[i as int]@));
        }
        i = i + 1;
    }
    assert(comps_view(src@).take(src@.len() as int) =~= comps_view(src@));
}

fn retain_not_in(v: &Vec<Component>, s: &Vec<Component>) -> (r: Vec<Component>)
    ensures
        comps_view(r@) == comps_view(v@).filter(not_in(comps_view(s@))),
{
    let ghost p = not_in(comps_view(s@));
    let mut r: Vec<Component> = Vec::new();
    let mut i: usize = 0;
    while i < v.len()
        invariant
            i <= v@.len(),
            p == not_in(comps_view(s@)),
            comps_view(r@) == comps_view(v@).take(i as int).filter(p),
        decreases v@.len() - i,
    {
        let ghost pre = comps_view(v@).take(i as int);
        let ghost nxt = comps_view(v@).take(i + 1);
        proof {
            reveal(Seq::filter);
            assert(nxt.drop_last() =~= pre);
            assert(nxt.last() == v@[i as int]@);
        }
        let ghost r0 = r@;
        if !contains_component(s, &v[i]) {
            let c = v[i].copy();
            r.push(c);
            assert(comps_view(r@) =~= comps_view(r0).push(c@));
        }
        i = i + 1;
    }
    assert(comps_view(v@).take(v@.len() as int) =~= comps_view(v@));
    r
}

impl Update {
    /// An empty plan.
    pub fn new() -> (r: Self)
        ensures
            r@.0.len() == 0 && r@.1.len() == 0 && r@.2.len() == 0 && r@.3.len() == 0,
    {
        Update {
            components_to_uninstall: Vec::new(),
            components_to_install: Vec::new(),
            final_component_list: Vec::new(),
            missing_components: Vec::new(),
        }
    }

    /// Builds the list of components installed at the end: the explicitly
    /// requested ones, then the installed ones as [`final_step`] decides.
    pub fn build_final_component_list(
        &mut self,
        starting_list: &Vec<Component>,
        rust_target_components: &Vec<Component>,
        new_manifest: &Manifest,
        changes: &Changes,
    )
        ensures
            final(self)@.0 == old(self)@.0,
            final(self)@.1 == old(self)@.1,
            (final(self)@.2, final(self)@.3) == final_fold(
                new_manifest@,
                comps_view(rust_target_components@),
                comps_view(changes.remove_components@),
                (old(self)@.2 + comps_view(changes.explicit_add_components@), old(self)@.3),
                comps_view(starting_list@),
            ),
    {
        push_copies(&mut self.final_component_list, &changes.explicit_add_components);
        let ghost m = new_manifest@;
        let ghost rtp = comps_view(rust_target_components@);
        let ghost removes = comps_view(changes.remove_components@);
        let ghost init = (comps_view(self.final_component_list@), comps_view(self.missing_components@));
        let ghost start = comps_view(starting_list@);
        let mut i: usize = 0;
        while i < starting_list.len()
            invariant
                i <= starting_list@.len(),
                m == new_manifest@,
                rtp == comps_view(rust_target_components@),
                removes == comps_view(changes.remove_components@),
                start == comps_view(starting_list@),
                self@.0 == old(self)@.0,
                self@.1 == old(self)@.1,
                (self@.2, self@.3) == final_fold(m, rtp, removes, init, start.take(i as int)),
            decreases starting_list@.len() - i,
        {
            let e = &starting_list[i];
            proof {
                assert(start.take(i + 1).drop_last() =~= start.take(i as int));
                assert(start.take(i + 1).last() == e@);
            }
            let ghost f0 = self.final_component_list@;
            let ghost m0 = self.missing_components@;
            if !contains_component(&changes.remove_components, e) {
                match new_manifest.rename_component(e) {
                    Some(rn) => {
                        if !contains_component(&self.final_component_list, &rn) {
                            self.final_component_list.push(rn);
                            assert(comps_view(self.final_component_list@) =~= comps_view(f0).push(rn@));
                        }
                    },
                    None => {
                        if !contains_component(&self.final_component_list, e) {
                            if contains_component(rust_target_components, e) {
                                self.final_component_list.push(e.copy());
                                assert(comps_view(self.final_component_list@) =~= comps_view(f0).push(e@));
                            } else if e.contained_within(rust_target_components) {
                                let w = e.wildcard();
                                if !contains_component(&self.final_component_list, &w) {
                                    self.final_component_list.push(w);
                                    assert(comps_view(self.final_component_list@) =~= comps_view(f0).push(w@));
                                }
                            } else {
                                self.missing_components.push(e.copy());
                                assert(comps_view(self.missing_components@) =~= comps_view(m0).push(e@));
                            }
                        }
                    },
                }
            }
            i = i + 1;
        }
        assert(start.take(starting_list@.len() as int) =~= start);
    }

    /// Whether the plan changes nothing.
    pub fn nothing_changes(&self) -> (r: bool)
        ensures
            r == (self@.0.len() == 0 && self@.1.len() == 0),
    {
        self.components_to_uninstall.len() == 0 && self.components_to_install.len() == 0
    }

    /// Drops the given components from those to install and from the final
    /// list.
    pub fn drop_components_to_install(&mut self, to_drop: &Vec<Component>)
        ensures
            final(self)@.0 == old(self)@.0,
            final(self)@.1 == old(self)@.1.filter(not_in(comps_view(to_drop@))),
            final(self)@.2 == old(self)@.2.filter(not_in(comps_view(to_drop@))),
            final(self)@.3 == old(self)@.3,
    {
        let a = retain_not_in(&self.components_to_install, to_drop);
        let b = retain_not_in(&self.final_component_list, to_drop);
        self.components_to_install = a;
        self.final_component_list = b;
    }
}


/// Why planning an update failed.
#[derive(Debug)]
pub enum UpdateError {
    /// The new manifest lacks what the plan needs.
    Manifest(ManifestError),
    /// A component is both to be added and removed.
    AddAndRemove,
    /// Components to install are not offered by the new manifest of the
    /// toolchain named.
    Unavailable { components: Vec<Component>, toolchain: String },
}

/// The abstract value of an [`UpdateError`].
pub enum UpdateErrorV {
    Manifest(ManifestErrorV),
    AddAndRemove,
    Unavailable(Seq<ComponentV>),
}

/// The text of an update error; unavailable components are described
/// against the new manifest `m`.
pub open spec fn update_error_message(e: UpdateErrorV, m: ManifestV, toolchain: Seq<char>) -> Seq<char> {
    match e {
        UpdateErrorV::Manifest(me) => manifest_error_message(me),
        UpdateErrorV::AddAndRemove => "can't both add and remove components"@,
        UpdateErrorV::Unavailable(cs) => component_unavailable_msg_spec(cs, m, toolchain),
    }
}

impl UpdateError {
    /// The text this error shows, describing unavailable components
    /// against `new_manifest`; see [`update_error_message`].
    pub fn message(&self, new_manifest: &Manifest) -> (r: String)
        requires
            self matches UpdateError::Unavailable { components, .. } ==> components@.len() > 0,
        ensures
            self matches UpdateError::Unavailable { toolchain, .. }
                ==> r@ == update_error_message(self@, new_manifest@, toolchain@),
            !(self is Unavailable) ==> r@ == update_error_message(self@, new_manifest@, Seq::<char>::empty()),
    {
        match self {
            UpdateError::Manifest(e) => e.message(),
            UpdateError::AddAndRemove => "can't both add and remove components".to_owned(),
            UpdateError::Unavailable { components, toolchain } =>
                component_unavailable_msg(components, new_manifest, toolchain.as_str()),
        }
    }
}

impl View for UpdateError {
    type V = UpdateErrorV;

    open spec fn view(&self) -> UpdateErrorV {
        match self {
            UpdateError::Manifest(e) => UpdateErrorV::Manifest(e@),
            UpdateError::AddAndRemove => UpdateErrorV::AddAndRemove,
            UpdateError::Unavailable { components, .. } => UpdateErrorV::Unavailable(comps_view(components@)),
        }
    }
}

/// The components installed before the update: those of the configuration;
/// for an installation that has components but no configuration (an old
/// style installation), the default profile of the new manifest.
pub open spec fn starting_spec(m: ManifestV, t: Seq<char>, config: Option<Config>, installed_nonempty: bool) -> Result<Seq<ComponentV>, ManifestErrorV> {
    if config is None && installed_nonempty {
        profile_components_spec(m, Profile::Default, t)
    } else {
        Ok(config_comps(config))
    }
}

/// To uninstall and to install, given the starting and the final list: a
/// modification of the same release changes only the difference; any
/// other update reinstalls everything.
pub open spec fn plan_lists(start: Seq<ComponentV>, fin: Seq<ComponentV>, modifying: bool) -> (Seq<ComponentV>, Seq<ComponentV>) {
    if modifying {
        (start.filter(not_in(fin)), fin.filter(not_in(start)))
    } else {
        (start, fin)
    }
}

/// Whether the installed manifest is the new one (the update only modifies
/// the installed components).
pub open spec fn modifying_spec(old_manifest: Option<Manifest>, m: ManifestV) -> bool {
    old_manifest matches Some(o) && manifest_same(o@, m)
}

/// The planned update, or why there is none: the `rust` package for the
/// target must exist, no component may be both added and removed, and the
/// starting list must be known.
pub open spec fn build_update_spec(
    m: ManifestV,
    t: Seq<char>,
    adds: Seq<ComponentV>,
    removes: Seq<ComponentV>,
    config: Option<Config>,
    installed_nonempty: bool,
    modifying: bool,
) -> Result<UpdateV, UpdateErrorV> {
    match rust_target_spec(m, t) {
        Err(e) => Err(UpdateErrorV::Manifest(e)),
        Ok(rtp) => if add_remove_conflict(adds, removes) {
            Err(UpdateErrorV::AddAndRemove)
        } else {
            match starting_spec(m, t, config, installed_nonempty) {
                Err(e) => Err(UpdateErrorV::Manifest(e)),
                Ok(start) => {
                    let fl = final_fold(m, rtp.1, removes, (adds, Seq::<ComponentV>::empty()), start);
                    let lists = plan_lists(start, fl.0, modifying);
                    Ok((lists.0, lists.1, fl.0, fl.1))
                },
            }
        },
    }
}

/// Whether the new manifest offers something to download for `c`.
pub open spec fn offered(m: ManifestV, c: ComponentV) -> bool {
    match package_get_spec(m, c.0) {
        Some(p) => match get_target_spec(p.1, c.1) {
            Ok(tp) => tp.0.len() > 0,
            Err(_) => false,
        },
        None => false,
    }
}

/// Selects components that `m` does not offer.
pub open spec fn unavailable_in(m: ManifestV) -> spec_fn(ComponentV) -> bool {
    |c: ComponentV| !offered(m, c)
}

/// The components of a plan that cannot be had: those to install that the
/// manifest does not offer, then the missing ones.
pub open spec fn unavailable_spec(m: ManifestV, u: UpdateV) -> Seq<ComponentV> {
    u.1.filter(unavailable_in(m)) + u.3
}

/// What to download for one component: an error when its package or
/// target is absent, nothing when nothing is offered, else the first
/// (preferred) binary.
#[verifier::opaque]
pub open spec fn url_step(m: ManifestV, c: ComponentV) -> Result<Option<HashedBinaryV>, ManifestErrorV> {
    match package_get_spec(m, c.0) {
        None => Err(ManifestErrorV::PackageNotFound(c.0)),
        Some(p) => match get_target_spec(p.1, c.1) {
            Err(e) => Err(e),
            Ok(tp) => if tp.0.len() == 0 { Ok(None) } else { Ok(Some(tp.0[0])) },
        },
    }
}

/// The downloads for a list of components, in order; the first error wins.
pub open spec fn urls_spec(m: ManifestV, comps: Seq<ComponentV>) -> Result<Seq<(ComponentV, HashedBinaryV)>, ManifestErrorV>
    decreases comps.len(),
{
    if comps.len() == 0 {
        Ok(Seq::empty())
    } else {
        match urls_spec(m, comps.drop_last()) {
            Err(e) => Err(e),
            Ok(prev) => match url_step(m, comps.last()) {
                Err(e) => Err(e),
                Ok(None) => Ok(prev),
                Ok(Some(b)) => Ok(prev.push((comps.last(), b))),
            },
        }
    }
}

/// Once a prefix of the list fails, the whole list fails the same way.
proof fn lemma_urls_err_extends(m: ManifestV, s: Seq<ComponentV>, k: int)
    requires
        0 <= k <= s.len(),
        urls_spec(m, s.take(k)) is Err,
    ensures
        urls_spec(m, s) == urls_spec(m, s.take(k)),
    decreases s.len() - k,
{
    if k < s.len() {
        assert(s.take(k + 1).drop_last() =~= s.take(k));
        lemma_urls_err_extends(m, s, k + 1);
    } else {
        assert(s.take(k) =~= s);
    }
}

/// The abstract values of a download list.
pub open spec fn downloads_view(v: Seq<(Component, HashedBinary)>) -> Seq<(ComponentV, HashedBinaryV)> {
    v.map_values(|e: (Component, HashedBinary)| (e.0@, e.1@))
}

fn url_for(new_manifest: &Manifest, c: &Component) -> (r: Result<Option<HashedBinary>, ManifestError>)
    ensures
        r matches Ok(Some(b)) ==> url_step(new_manifest@, c@) == Ok::<_, ManifestErrorV>(Some(b@)),
        r matches Ok(None) ==> url_step(new_manifest@, c@) == Ok::<Option<HashedBinaryV>, ManifestErrorV>(None),
        r matches Err(e) ==> url_step(new_manifest@, c@) == Err::<Option<HashedBinaryV>, _>(e@),
{
    reveal(url_step);
    let pkg = match new_manifest.get_package(c.short_name_in_manifest().as_str()) {
        Ok(pkg) => pkg,
        Err(e) => {
            return Err(e);
        },
    };
    let tp = match pkg.get_target(c.target.as_ref()) {
        Ok(tp) => tp,
        Err(e) => {
            return Err(e);
        },
    };
    if tp.bins.len() > 0 {
        assert(tp@.0[0] == tp.bins@[0]@);
        Ok(Some(tp.bins[0].copy()))
    } else {
        Ok(None)
    }
}

fn copy_starting(config: &Option<Config>) -> (r: Vec<Component>)
    ensures
        comps_view(r@) == config_comps(*config),
{
    match config {
        Some(c) => copy_comps(&c.components),
        None => Vec::new(),
    }
}

impl Update {
    /// Plans the update of an installation for `target_triple` to
    /// `new_manifest`; see [`build_update_spec`]. `installed_nonempty` says
    /// whether the installation holds any component, `old_manifest` is the
    /// installed manifest, if any. Removing a component that is not
    /// installed is a caller's error, excluded by `requires`.
    pub fn build_update(
        target_triple: &TargetTriple,
        new_manifest: &Manifest,
        changes: &Changes,
        config: &Option<Config>,
        installed_nonempty: bool,
        old_manifest: &Option<Manifest>,
    ) -> (r: Result<Update, UpdateError>)
        requires
            rust_target_spec(new_manifest@, target_triple@) is Err
                || add_remove_conflict(comps_view(changes.explicit_add_components@), comps_view(changes.remove_components@))
                || removals_installed(comps_view(changes.remove_components@), *config),
        ensures
            r matches Ok(u) ==> build_update_spec(new_manifest@, target_triple@,
                comps_view(changes.explicit_add_components@), comps_view(changes.remove_components@),
                *config, installed_nonempty, modifying_spec(*old_manifest, new_manifest@)) == Ok::<_, UpdateErrorV>(u@),
            r matches Err(e) ==> build_update_spec(new_manifest@, target_triple@,
                comps_view(changes.explicit_add_components@), comps_view(changes.remove_components@),
                *config, installed_nonempty, modifying_spec(*old_manifest, new_manifest@)) == Err::<UpdateV, _>(e@),
    {
        let rtp = match new_manifest.rust_target(target_triple) {
            Ok(p) => p,
            Err(e) => {
                return Err(UpdateError::Manifest(e));
            },
        };
        match changes.check_invariants(config) {
            Err(_) => {
                return Err(UpdateError::AddAndRemove);
            },
            Ok(()) => {},
        }
        let starting = if config.is_none() && installed_nonempty {
            match new_manifest.get_profile_components(Profile::Default, target_triple) {
                Ok(p) => p,
                Err(e) => {
                    return Err(UpdateError::Manifest(e));
                },
            }
        } else {
            copy_starting(config)
        };
        let mut result = Update::new();
        proof {
            assert(result@.2 + comps_view(changes.explicit_add_components@) =~= comps_view(changes.explicit_add_components@));
            assert(result@.3 =~= Seq::<ComponentV>::empty());
        }
        result.build_final_component_list(&starting, &rtp.components, new_manifest, changes);
        let modifying = match old_manifest {
            Some(o) => manifests_same(o, new_manifest),
            None => false,
        };
        if modifying {
            result.components_to_uninstall = retain_not_in(&starting, &result.final_component_list);
            result.components_to_install = retain_not_in(&result.final_component_list, &starting);
        } else {
            result.components_to_install = copy_comps(&result.final_component_list);
            result.components_to_uninstall = starting;
        }
        Ok(result)
    }

    /// The components that cannot be had; see [`unavailable_spec`]. It is
    /// an error when there are any.
    pub fn unavailable_components(&self, new_manifest: &Manifest) -> (r: Result<(), Vec<Component>>)
        ensures
            r is Ok <==> unavailable_spec(new_manifest@, self@).len() == 0,
            r matches Err(v) ==> comps_view(v@) == unavailable_spec(new_manifest@, self@),
    {
        let ghost m = new_manifest@;
        let ghost p = unavailable_in(m);
        let ghost todo = comps_view(self.components_to_install@);
        let mut out: Vec<Component> = Vec::new();
        let mut i: usize = 0;
        while i < self.components_to_install.len()
            invariant
                i <= self.components_to_install@.len(),
                m == new_manifest@,
                p == unavailable_in(m),
                todo == comps_view(self.components_to_install@),
                comps_view(out@) == todo.take(i as int).filter(p),
            decreases self.components_to_install@.len() - i,
        {
            let c = &self.components_to_install[i];
            proof {
                reveal(Seq::filter);
                assert(todo.take(i + 1).drop_last() =~= todo.take(i as int));
                assert(todo.take(i + 1).last() == c@);
            }
            let is_offered = match new_manifest.get_package(c.short_name_in_manifest().as_str()) {
                Ok(pkg) => match pkg.get_target(c.target.as_ref()) {
                    Ok(tp) => tp.available(),
                    Err(_) => false,
                },
                Err(_) => false,
            };
            assert(is_offered == offered(m, c@));
            let ghost o0 = out@;
            if !is_offered {
                out.push(c.copy());
                assert(comps_view(out@) =~= comps_view(o0).push(c@));
            }
            i = i + 1;
        }
        assert(todo.take(self.components_to_install@.len() as int) =~= todo);
        push_copies(&mut out, &self.missing_components);
        if out.len() == 0 {
            Ok(())
        } else {
            Err(out)
        }
    }

    /// The download for each component to install that has one, in order;
    /// see [`urls_spec`].
    pub fn components_urls_and_hashes(&self, new_manifest: &Manifest) -> (r: Result<Vec<(Component, HashedBinary)>, ManifestError>)
        ensures
            r matches Ok(v) ==> urls_spec(new_manifest@, self@.1) == Ok::<_, ManifestErrorV>(downloads_view(v@)),
            r matches Err(e) ==> urls_spec(new_manifest@, self@.1) == Err::<Seq<(ComponentV, HashedBinaryV)>, _>(e@),
    {
        let ghost m = new_manifest@;
        let ghost todo = comps_view(self.components_to_install@);
        let mut out: Vec<(Component, HashedBinary)> = Vec::new();
        let mut i: usize = 0;
        assert(todo.take(0) =~= Seq::<ComponentV>::empty());
        assert(downloads_view(out@) =~= Seq::<(ComponentV, HashedBinaryV)>::empty());
        while i < self.components_to_install.len()
            invariant
                i <= self.components_to_install@.len(),
                m == new_manifest@,
                todo == comps_view(self.components_to_install@),
                urls_spec(m, todo.take(i as int)) == Ok::<_, ManifestErrorV>(downloads_view(out@)),
            decreases self.components_to_install@.len() - i,
        {
            let c = &self.components_to_install[i];
            proof {
                assert(todo.take(i + 1).drop_last() =~= todo.take(i as int));
                assert(todo.take(i + 1).last() == c@);
            }
            match url_for(new_manifest, c) {
                Err(e) => {
                    proof {
                        lemma_urls_err_extends(m, todo, i + 1);
                    }
                    return Err(e);
                },
                Ok(None) => {},
                Ok(Some(b)) => {
                    let ghost o0 = out@;
                    out.push((c.copy(), b));
                    assert(downloads_view(out@) =~= downloads_view(o0).push((c@, b@)));
                },
            }
            i = i + 1;
        }
        assert(todo.take(self.components_to_install@.len() as int) =~= todo);
        Ok(out)
    }
}


/// What an update does, once planned.
#[derive(Debug)]
pub enum UpdatePlan {
    /// The installation is up to date.
    Unchanged,
    /// Uninstall `uninstall`, download and install `downloads`, then record
    /// `final_components` as installed. `skipped` lists the unavailable
    /// components left out of a forced update.
    Changed {
        uninstall: Vec<Component>,
        downloads: Vec<(Component, HashedBinary)>,
        skipped: Vec<Component>,
        final_components: Vec<Component>,
    },
}

/// The abstract value of an [`UpdatePlan`]: to uninstall, downloads,
/// skipped, final list.
pub enum UpdatePlanV {
    Unchanged,
    Changed(Seq<ComponentV>, Seq<(ComponentV, HashedBinaryV)>, Seq<ComponentV>, Seq<ComponentV>),
}

impl View for UpdatePlan {
    type V = UpdatePlanV;

    open spec fn view(&self) -> UpdatePlanV {
        match self {
            UpdatePlan::Unchanged => UpdatePlanV::Unchanged,
            UpdatePlan::Changed { uninstall, downloads, skipped, final_components } => UpdatePlanV::Changed(
                comps_view(uninstall@),
                downloads_view(downloads@),
                comps_view(skipped@),
                comps_view(final_components@),
            ),
        }
    }
}

/// A plan without the components `d` among those to install and in the
/// final list.
pub open spec fn drop_spec(u: UpdateV, d: Seq<ComponentV>) -> UpdateV {
    (u.0, u.1.filter(not_in(d)), u.2.filter(not_in(d)), u.3)
}

/// The outcome of planning an update: errors of [`build_update_spec`]; no
/// change when nothing is to be uninstalled or installed; an error naming
/// the unavailable components unless the update is forced, in which case
/// they are dropped from the plan; then the downloads of what is left.
pub open spec fn plan_spec(
    m: ManifestV,
    t: Seq<char>,
    adds: Seq<ComponentV>,
    removes: Seq<ComponentV>,
    config: Option<Config>,
    installed_nonempty: bool,
    modifying: bool,
    force: bool,
) -> Result<UpdatePlanV, UpdateErrorV> {
    match build_update_spec(m, t, adds, removes, config, installed_nonempty, modifying) {
        Err(e) => Err(e),
        Ok(u) => if u.0.len() == 0 && u.1.len() == 0 {
            Ok(UpdatePlanV::Unchanged)
        } else {
            let un = unavailable_spec(m, u);
            if un.len() > 0 && !force {
                Err(UpdateErrorV::Unavailable(un))
            } else {
                let u2 = if un.len() > 0 { drop_spec(u, un) } else { u };
                match urls_spec(m, u2.1) {
                    Err(e) => Err(UpdateErrorV::Manifest(e)),
                    Ok(d) => Ok(UpdatePlanV::Changed(u2.0, d, un, u2.2)),
                }
            }
        },
    }
}

impl Manifestation {
    /// Decides what updating this installation to `new_manifest` with
    /// `changes` takes; see [`plan_spec`]. An error about unavailable
    /// components names the toolchain `toolchain_str`. The caller performs the plan:
    /// uninstalls, downloads, installs and records the final list.
    pub fn plan_update(
        &self,
        new_manifest: &Manifest,
        changes: &Changes,
        config: &Option<Config>,
        installed_nonempty: bool,
        old_manifest: &Option<Manifest>,
        force_update: bool,
        toolchain_str: &str,
    ) -> (r: Result<UpdatePlan, UpdateError>)
        requires
            rust_target_spec(new_manifest@, self.target_triple@) is Err
                || add_remove_conflict(comps_view(changes.explicit_add_components@), comps_view(changes.remove_components@))
                || removals_installed(comps_view(changes.remove_components@), *config),
        ensures
            r matches Ok(p) ==> plan_spec(new_manifest@, self.target_triple@,
                comps_view(changes.explicit_add_components@), comps_view(changes.remove_components@),
                *config, installed_nonempty, modifying_spec(*old_manifest, new_manifest@), force_update)
                == Ok::<_, UpdateErrorV>(p@),
            r matches Err(e) ==> plan_spec(new_manifest@, self.target_triple@,
                comps_view(changes.explicit_add_components@), comps_view(changes.remove_components@),
                *config, installed_nonempty, modifying_spec(*old_manifest, new_manifest@), force_update)
                == Err::<UpdatePlanV, _>(e@),
            r matches Err(UpdateError::Unavailable { toolchain, .. }) ==> toolchain@ == toolchain_str@,
    {
        let mut update = match Update::build_update(
            &self.target_triple,
            new_manifest,
            changes,
            config,
            installed_nonempty,
            old_manifest,
        ) {
            Ok(u) => u,
            Err(e) => {
                return Err(e);
            },
        };
        if update.nothing_changes() {
            return Ok(UpdatePlan::Unchanged);
        }
        let ghost u0 = update@;
        let skipped = match update.unavailable_components(new_manifest) {
            Ok(()) => {
                let none: Vec<Component> = Vec::new();
                assert(comps_view(none@) =~= unavailable_spec(new_manifest@, u0));
                none
            },
            Err(v) => {
                if !force_update {
                    return Err(UpdateError::Unavailable { components: v, toolchain: toolchain_str.to_owned() });
                }
                update.drop_components_to_install(&v);
                v
            },
        };
        match update.components_urls_and_hashes(new_manifest) {
            Err(e) => Err(UpdateError::Manifest(e)),
            Ok(d) => Ok(
                UpdatePlan::Changed {
                    uninstall: update.components_to_uninstall,
                    downloads: d,
                    skipped,
                    final_components: update.final_component_list,
                },
            ),
        }
    }
}

/// The address to download from: on a mirror, the official server's
/// address is replaced by the mirror's.
pub open spec fn download_url_spec(url: Seq<char>, dist_server: Seq<char>) -> Seq<char> {
    if dist_server == DEFAULT_DIST_SERVER@ {
        url
    } else {
        replace_all(url, DEFAULT_DIST_SERVER@, dist_server)
    }
}

/// The address to download `url` from, given the distribution server in
/// use; see [`download_url_spec`].
pub fn download_url(url: &str, dist_server: &str) -> (r: String)
    ensures
        r@ == download_url_spec(url@, dist_server@),
{
    if str_eq(dist_server, DEFAULT_DIST_SERVER) {
        url.to_owned()
    } else {
        proof {
            reveal_strlit("https://static.rust-lang.org");
        }
        replace_str(url, DEFAULT_DIST_SERVER, dist_server)
    }
}

/// Why an old-style (v1) installation cannot proceed.
#[derive(Debug)]
pub enum V1Error {
    /// The installation already has a v2 configuration.
    ObsoleteManifest,
    /// The v1 manifest lists no package for the target.
    NoPackageForTarget(TargetTriple),
}

/// The text that the package of a target ends with in a v1 manifest.
pub open spec fn v1_suffix(t: Seq<char>) -> Seq<char> {
    t + ".tar.gz"@
}

impl Manifestation {
    /// The address of the package to install from a v1 manifest (a list of
    /// addresses): the first that mentions `TRIPLE.tar.gz`, with the
    /// official server replaced by `dist_server`. Fails when the
    /// installation has a v2 configuration, or when no address fits.
    pub fn v1_package_url(&self, has_config: bool, lines: &Vec<String>, dist_server: &str) -> (r: Result<String, V1Error>)
        ensures
            has_config ==> r matches Err(V1Error::ObsoleteManifest),
            !has_config ==> (r is Err <==> forall|j: int| 0 <= j < lines@.len()
                ==> !contains_seq(#[trigger] lines@[j]@, v1_suffix(self.target_triple@))),
            r matches Err(V1Error::NoPackageForTarget(t)) ==> t@ == self.target_triple@,
            r matches Ok(u) ==> exists|i: int| 0 <= i < lines@.len()
                && contains_seq(#[trigger] lines@[i]@, v1_suffix(self.target_triple@))
                && (forall|j: int| 0 <= j < i ==> !contains_seq(#[trigger] lines@[j]@, v1_suffix(self.target_triple@)))
                && u@ == replace_all(lines@[i]@, DEFAULT_DIST_SERVER@, dist_server@),
    {
        if has_config {
            return Err(V1Error::ObsoleteManifest);
        }
        let suffix = concat2(self.target_triple.as_str(), ".tar.gz");
        let mut i: usize = 0;
        while i < lines.len()
            invariant
                !has_config,
                i <= lines@.len(),
                suffix@ == v1_suffix(self.target_triple@),
                forall|j: int| 0 <= j < i ==> !contains_seq(#[trigger] lines@[j]@, v1_suffix(self.target_triple@)),
            decreases lines@.len() - i,
        {
            if contains_str(lines[i].as_str(), suffix.as_str()) {
                proof {
                    reveal_strlit("https://static.rust-lang.org");
                }
                let u = replace_str(lines[i].as_str(), DEFAULT_DIST_SERVER, dist_server);
                return Ok(u);
            }
            i = i + 1;
        }
        Err(V1Error::NoPackageForTarget(self.target_triple.copy()))
    }
}


/// Membership in a list filtered by [`not_in`].
proof fn lemma_comp_in_not_in(c: ComponentV, s: Seq<ComponentV>, f: Seq<ComponentV>)
    ensures
        comp_in(c, s.filter(not_in(f))) <==> (comp_in(c, s) && !comp_in(c, f)),
{
    let p = not_in(f);
    let fs = s.filter(p);
    if comp_in(c, fs) {
        let k = choose|k: int| 0 <= k < fs.len() && same_comp(#[trigger] fs[k], c);
        s.lemma_filter_pred(p, k);
        assert(fs.contains(fs[k]));
        s.lemma_filter_contains_rev(p, fs[k]);
        let i = choose|i: int| 0 <= i < s.len() && s[i] == fs[k];
        assert(same_comp(s[i], c));
        if comp_in(c, f) {
            let j = choose|j: int| 0 <= j < f.len() && same_comp(#[trigger] f[j], c);
            assert(same_comp(f[j], fs[k]));
        }
    }
    if comp_in(c, s) && !comp_in(c, f) {
        let i = choose|i: int| 0 <= i < s.len() && same_comp(#[trigger] s[i], c);
        if comp_in(s[i], f) {
            let j = choose|j: int| 0 <= j < f.len() && same_comp(#[trigger] f[j], s[i]);
            assert(same_comp(f[j], c));
        }
        s.lemma_filter_contains(p, i);
        let k = choose|k: int| 0 <= k < fs.len() && fs[k] == s[i];
        assert(same_comp(fs[k], c));
    }
}

/// One step of [`final_fold`] only appends to the final list.
proof fn lemma_fold_extends(
    m: ManifestV,
    rtp: Seq<ComponentV>,
    removes: Seq<ComponentV>,
    init: (Seq<ComponentV>, Seq<ComponentV>),
    start: Seq<ComponentV>,
)
    ensures
        final_fold(m, rtp, removes, init, start).0.len() >= init.0.len(),
        final_fold(m, rtp, removes, init, start).0.subrange(0, init.0.len() as int) == init.0,
    decreases start.len(),
{
    if start.len() > 0 {
        lemma_fold_extends(m, rtp, removes, init, start.drop_last());
        let st = final_fold(m, rtp, removes, init, start.drop_last());
        let st2 = final_step(m, rtp, removes, st, start.last());
        assert(st2.0.len() >= st.0.len() && st2.0.subrange(0, st.0.len() as int) =~= st.0);
        assert(st2.0.subrange(0, init.0.len() as int) =~= st2.0.subrange(0, st.0.len() as int).subrange(0, init.0.len() as int));
    } else {
        assert(init.0.subrange(0, init.0.len() as int) =~= init.0);
    }
}

/// Every explicitly requested component is in the final list of a plan:
/// the list starts with the requested components, in the order requested.
pub proof fn law_requested_components_come_first(
    m: ManifestV,
    t: Seq<char>,
    adds: Seq<ComponentV>,
    removes: Seq<ComponentV>,
    config: Option<Config>,
    installed_nonempty: bool,
    modifying: bool,
)
    requires
        build_update_spec(m, t, adds, removes, config, installed_nonempty, modifying) is Ok,
    ensures
        build_update_spec(m, t, adds, removes, config, installed_nonempty, modifying) matches Ok(u)
            && u.2.len() >= adds.len() && u.2.subrange(0, adds.len() as int) == adds,
{
    let rtp = rust_target_spec(m, t)->Ok_0;
    let start = starting_spec(m, t, config, installed_nonempty)->Ok_0;
    lemma_fold_extends(m, rtp.1, removes, (adds, Seq::<ComponentV>::empty()), start);
}

/// Carrying out a plan — removing the components to uninstall from those
/// installed, then adding those to install — leaves installed exactly the
/// components of the final list.
pub proof fn law_plan_reaches_final_list(
    m: ManifestV,
    t: Seq<char>,
    adds: Seq<ComponentV>,
    removes: Seq<ComponentV>,
    config: Option<Config>,
    installed_nonempty: bool,
    modifying: bool,
    c: ComponentV,
)
    requires
        build_update_spec(m, t, adds, removes, config, installed_nonempty, modifying) is Ok,
    ensures
        build_update_spec(m, t, adds, removes, config, installed_nonempty, modifying) matches Ok(u)
            && starting_spec(m, t, config, installed_nonempty) matches Ok(start)
            && (comp_in(c, u.2) <==> ((comp_in(c, start) && !comp_in(c, u.0)) || comp_in(c, u.1))),
{
    let start = starting_spec(m, t, config, installed_nonempty)->Ok_0;
    let u = build_update_spec(m, t, adds, removes, config, installed_nonempty, modifying)->Ok_0;
    if modifying {
        lemma_comp_in_not_in(c, start, u.2);
        lemma_comp_in_not_in(c, u.2, start);
    }
}

/// Every download of a list is for a component of the list.
proof fn lemma_urls_from(m: ManifestV, s: Seq<ComponentV>, k: int)
    requires
        urls_spec(m, s) is Ok,
        0 <= k < urls_spec(m, s)->Ok_0.len(),
    ensures
        exists|i: int| 0 <= i < s.len() && #[trigger] s[i] == urls_spec(m, s)->Ok_0[k].0,
    decreases s.len(),
{
    let d = urls_spec(m, s)->Ok_0;
    let prev = urls_spec(m, s.drop_last())->Ok_0;
    if k < prev.len() {
        lemma_urls_from(m, s.drop_last(), k);
        let i = choose|i: int| 0 <= i < s.drop_last().len() && #[trigger] s.drop_last()[i] == prev[k].0;
        assert(s[i] == d[k].0);
    } else {
        assert(s[s.len() - 1] == d[k].0);
    }
}

/// A forced update installs nothing that it reported unavailable: a
/// skipped component is neither downloaded nor in the final list.
pub proof fn law_forced_update_leaves_out_unavailable(
    m: ManifestV,
    t: Seq<char>,
    adds: Seq<ComponentV>,
    removes: Seq<ComponentV>,
    config: Option<Config>,
    installed_nonempty: bool,
    modifying: bool,
    force: bool,
    c: ComponentV,
)
    ensures
        plan_spec(m, t, adds, removes, config, installed_nonempty, modifying, force) matches Ok(
            UpdatePlanV::Changed(un, d, sk, fin),
        ) ==> (comp_in(c, sk) ==> !comp_in(c, fin) && forall|k: int| 0 <= k < d.len() ==> !same_comp(#[trigger] d[k].0, c)),
{
    if let Ok(UpdatePlanV::Changed(un, d, sk, fin)) = plan_spec(m, t, adds, removes, config, installed_nonempty, modifying, force) {
        if comp_in(c, sk) {
            let u = build_update_spec(m, t, adds, removes, config, installed_nonempty, modifying)->Ok_0;
            let u2 = drop_spec(u, sk);
            lemma_comp_in_not_in(c, u.2, sk);
            assert forall|k: int| 0 <= k < d.len() implies !same_comp(#[trigger] d[k].0, c) by {
                lemma_urls_from(m, u2.1, k);
                let i = choose|i: int| 0 <= i < u2.1.len() && #[trigger] u2.1[i] == d[k].0;
                u.1.lemma_filter_pred(not_in(sk), i);
                if same_comp(d[k].0, c) {
                    let j = choose|j: int| 0 <= j < sk.len() && same_comp(#[trigger] sk[j], c);
                    assert(same_comp(sk[j], u2.1[i]));
                }
            }
        }
    }
}

/// The new manifest keeps component `e` of a final list as it is: it does
/// not rename it, it is not to be removed, and it is an explicit addition,
/// a component of the `rust` package for the target, or a package for
/// every target whose package the `rust` package offers.
pub open spec fn kept_as_is(m: ManifestV, t: Seq<char>, adds: Seq<ComponentV>, removes: Seq<ComponentV>, e: ComponentV) -> bool {
    let rtp = rust_target_spec(m, t)->Ok_0.1;
    &&& rename_spec(m, e) is None
    &&& !comp_in(e, removes)
    &&& (comp_in(e, adds) || comp_in(e, rtp) || (e.1 is None && contained_within_spec(e, rtp)))
}

proof fn lemma_comp_in_push(x: ComponentV, s: Seq<ComponentV>, y: ComponentV)
    ensures
        comp_in(x, s) ==> comp_in(x, s.push(y)),
        same_comp(y, x) ==> comp_in(x, s.push(y)),
{
    if comp_in(x, s) {
        let i = choose|i: int| 0 <= i < s.len() && same_comp(#[trigger] s[i], x);
        assert(s.push(y)[i] == s[i]);
    }
    if same_comp(y, x) {
        assert(s.push(y)[s.len() as int] == y);
    }
}

/// Folding a final list whose components the manifest keeps as they are,
/// starting from the explicit additions (all in that list), gives back the
/// same components.
proof fn lemma_refold(
    m: ManifestV,
    t: Seq<char>,
    adds: Seq<ComponentV>,
    removes: Seq<ComponentV>,
    fin: Seq<ComponentV>,
    k: int,
)
    requires
        rust_target_spec(m, t) is Ok,
        0 <= k <= fin.len(),
        forall|i: int| 0 <= i < fin.len() ==> kept_as_is(m, t, adds, removes, #[trigger] fin[i]),
        forall|i: int| 0 <= i < adds.len() ==> comp_in(#[trigger] adds[i], fin),
    ensures
        ({
            let f = final_fold(m, rust_target_spec(m, t)->Ok_0.1, removes, (adds, Seq::<ComponentV>::empty()), fin.take(k)).0;
            &&& forall|j: int| 0 <= j < f.len() ==> comp_in(#[trigger] f[j], fin)
            &&& forall|i: int| 0 <= i < k ==> comp_in(#[trigger] fin[i], f)
            &&& forall|i: int| 0 <= i < adds.len() ==> comp_in(#[trigger] adds[i], f)
        }),
    decreases k,
{
    let rtp = rust_target_spec(m, t)->Ok_0.1;
    let init = (adds, Seq::<ComponentV>::empty());
    if k == 0 {
        assert(fin.take(0) =~= Seq::<ComponentV>::empty());
        assert forall|i: int| 0 <= i < adds.len() implies comp_in(#[trigger] adds[i], adds) by {
            assert(same_comp(adds[i], adds[i]));
        }
    } else {
        lemma_refold(m, t, adds, removes, fin, k - 1);
        assert(fin.take(k).drop_last() =~= fin.take(k - 1));
        assert(fin.take(k).last() == fin[k - 1]);
        let st = final_fold(m, rtp, removes, init, fin.take(k - 1));
        let e = fin[k - 1];
        let st2 = final_step(m, rtp, removes, st, e);
        assert(st2 == final_fold(m, rtp, removes, init, fin.take(k)));
        assert(kept_as_is(m, t, adds, removes, e));
        assert(comp_in(e, fin)) by {
            assert(same_comp(fin[k - 1], e));
        }
        if comp_in(e, adds) {
            let a = choose|a: int| 0 <= a < adds.len() && same_comp(#[trigger] adds[a], e);
            assert(comp_in(adds[a], st.0));
            let j = choose|j: int| 0 <= j < st.0.len() && same_comp(#[trigger] st.0[j], adds[a]);
            assert(same_comp(st.0[j], e));
        }
        if comp_in(e, st.0) {
            assert(st2 == st);
        } else if comp_in(e, rtp) {
            assert(st2.0 == st.0.push(e));
            lemma_comp_in_push(e, st.0, e);
            assert forall|x: ComponentV| comp_in(x, st.0) implies comp_in(x, st2.0) by {
                lemma_comp_in_push(x, st.0, e);
            }
            assert forall|j: int| 0 <= j < st2.0.len() implies comp_in(#[trigger] st2.0[j], fin) by {
                if j < st.0.len() {
                    assert(st2.0[j] == st.0[j]);
                }
            }
        } else {
            let w = (e.0, None::<Seq<char>>, false);
            assert(same_comp(w, e));
            if comp_in(w, st.0) {
                assert(st2 == st);
                let j = choose|j: int| 0 <= j < st.0.len() && same_comp(#[trigger] st.0[j], w);
                assert(same_comp(st.0[j], e));
            } else {
                assert(st2.0 == st.0.push(w));
                lemma_comp_in_push(e, st.0, w);
                assert forall|x: ComponentV| comp_in(x, st.0) implies comp_in(x, st2.0) by {
                    lemma_comp_in_push(x, st.0, w);
                }
                assert forall|j: int| 0 <= j < st2.0.len() implies comp_in(#[trigger] st2.0[j], fin) by {
                    if j < st.0.len() {
                        assert(st2.0[j] == st.0[j]);
                    } else {
                        assert(st2.0[j] == w);
                        let i = choose|i: int| 0 <= i < fin.len() && same_comp(#[trigger] fin[i], e);
                        assert(same_comp(fin[i], w));
                    }
                }
            }
        }
    }
}

/// A list filtered by a condition that none of it meets is empty.
proof fn lemma_filter_none(s: Seq<ComponentV>, p: spec_fn(ComponentV) -> bool)
    requires
        forall|i: int| 0 <= i < s.len() ==> !p(#[trigger] s[i]),
    ensures
        s.filter(p).len() == 0,
    decreases s.len(),
{
    reveal(Seq::filter);
    if s.len() > 0 {
        assert forall|i: int| 0 <= i < s.drop_last().len() implies !p(#[trigger] s.drop_last()[i]) by {
            assert(s.drop_last()[i] == s[i]);
        }
        lemma_filter_none(s.drop_last(), p);
        assert(!p(s[s.len() - 1]));
    }
}

/// Updating twice in a row changes nothing the second time: once a plan
/// that skipped nothing has been carried out (so the installed components
/// are its final list), planning the same update again against the same
/// manifest, now installed, finds nothing to change. This holds when the
/// manifest keeps each component of the final list as it is (see
/// [`kept_as_is`]); a renamed name that the manifest renames again, or
/// that is to be removed, would move on the second time.
pub proof fn law_update_again_changes_nothing(
    m: ManifestV,
    t: Seq<char>,
    adds: Seq<ComponentV>,
    removes: Seq<ComponentV>,
    config: Option<Config>,
    installed_nonempty: bool,
    modifying: bool,
    force: bool,
    installed: Config,
)
    requires
        plan_spec(m, t, adds, removes, config, installed_nonempty, modifying, force) matches Ok(
            UpdatePlanV::Changed(_, _, sk, fin),
        ) && sk.len() == 0 && comps_view(installed.components@) == fin
            && forall|i: int| 0 <= i < fin.len() ==> kept_as_is(m, t, adds, removes, #[trigger] fin[i]),
    ensures
        plan_spec(m, t, adds, removes, Some(installed), true, true, force) == Ok::<UpdatePlanV, UpdateErrorV>(UpdatePlanV::Unchanged),
{
    let fin = comps_view(installed.components@);
    let rtp = rust_target_spec(m, t)->Ok_0.1;
    let start = starting_spec(m, t, config, installed_nonempty)->Ok_0;
    let u = build_update_spec(m, t, adds, removes, config, installed_nonempty, modifying)->Ok_0;
    assert(u.2 == fin);
    lemma_fold_extends(m, rtp, removes, (adds, Seq::<ComponentV>::empty()), start);
    assert forall|i: int| 0 <= i < adds.len() implies comp_in(#[trigger] adds[i], fin) by {
        assert(fin.subrange(0, adds.len() as int)[i] == adds[i]);
        assert(same_comp(fin[i], adds[i]));
    }
    lemma_refold(m, t, adds, removes, fin, fin.len() as int);
    assert(fin.take(fin.len() as int) =~= fin);
    assert(starting_spec(m, t, Some(installed), true) == Ok::<_, ManifestErrorV>(fin));
    let f2 = final_fold(m, rtp, removes, (adds, Seq::<ComponentV>::empty()), fin).0;
    assert forall|i: int| 0 <= i < fin.len() implies !not_in(f2)(#[trigger] fin[i]) by {}
    assert forall|j: int| 0 <= j < f2.len() implies !not_in(fin)(#[trigger] f2[j]) by {}
    lemma_filter_none(fin, not_in(f2));
    lemma_filter_none(f2, not_in(fin));
}


/// No component (package and target) occurs twice in `s`.
pub open spec fn no_repeats(s: Seq<ComponentV>) -> bool {
    forall|i: int, j: int| 0 <= i < j < s.len() ==> !same_comp(#[trigger] s[i], #[trigger] s[j])
}

/// Appending a component not yet in a list without repeats keeps it
/// without repeats.
proof fn lemma_push_fresh(s: Seq<ComponentV>, x: ComponentV)
    requires
        no_repeats(s),
        !comp_in(x, s),
    ensures
        no_repeats(s.push(x)),
{
    let s2 = s.push(x);
    assert forall|i: int, j: int| 0 <= i < j < s2.len() implies !same_comp(#[trigger] s2[i], #[trigger] s2[j]) by {
        assert(s2[i] == s[i]);
        if j == s.len() {
            assert(s2[j] == x);
            if same_comp(s[i], x) {
                assert(comp_in(x, s));
            }
        } else {
            assert(s2[j] == s[j]);
        }
    }
}

/// One step of [`final_fold`] keeps the final list without repeats.
proof fn lemma_step_no_repeats(
    m: ManifestV,
    rtp: Seq<ComponentV>,
    removes: Seq<ComponentV>,
    st: (Seq<ComponentV>, Seq<ComponentV>),
    e: ComponentV,
)
    requires
        no_repeats(st.0),
    ensures
        no_repeats(final_step(m, rtp, removes, st, e).0),
{
    if !comp_in(e, removes) {
        match rename_spec(m, e) {
            Some(rn) => {
                if !comp_in(rn, st.0) {
                    lemma_push_fresh(st.0, rn);
                }
            },
            None => {
                if !comp_in(e, st.0) {
                    if comp_in(e, rtp) {
                        lemma_push_fresh(st.0, e);
                    } else if contained_within_spec(e, rtp) {
                        let w = (e.0, None::<Seq<char>>, false);
                        if !comp_in(w, st.0) {
                            lemma_push_fresh(st.0, w);
                        }
                    }
                }
            },
        }
    }
}

proof fn lemma_fold_no_repeats(
    m: ManifestV,
    rtp: Seq<ComponentV>,
    removes: Seq<ComponentV>,
    init: (Seq<ComponentV>, Seq<ComponentV>),
    start: Seq<ComponentV>,
)
    requires
        no_repeats(init.0),
    ensures
        no_repeats(final_fold(m, rtp, removes, init, start).0),
    decreases start.len(),
{
    if start.len() > 0 {
        lemma_fold_no_repeats(m, rtp, removes, init, start.drop_last());
        lemma_step_no_repeats(m, rtp, removes, final_fold(m, rtp, removes, init, start.drop_last()), start.last());
    }
}

/// Filtering a list without repeats leaves a list without repeats.
proof fn lemma_filter_no_repeats(s: Seq<ComponentV>, p: spec_fn(ComponentV) -> bool)
    requires
        no_repeats(s),
    ensures
        no_repeats(s.filter(p)),
    decreases s.len(),
{
    reveal(Seq::filter);
    if s.len() > 0 {
        let rest = s.drop_last();
        let x = s.last();
        assert forall|i: int, j: int| 0 <= i < j < rest.len() implies !same_comp(#[trigger] rest[i], #[trigger] rest[j]) by {
            assert(rest[i] == s[i] && rest[j] == s[j]);
        }
        lemma_filter_no_repeats(rest, p);
        let fr = rest.filter(p);
        if p(x) {
            if comp_in(x, fr) {
                let k = choose|k: int| 0 <= k < fr.len() && same_comp(#[trigger] fr[k], x);
                assert(fr.contains(fr[k]));
                rest.lemma_filter_contains_rev(p, fr[k]);
                let i = choose|i: int| 0 <= i < rest.len() && rest[i] == fr[k];
                assert(s[i] == rest[i]);
                assert(s[s.len() - 1] == x);
                assert(same_comp(s[i], s[s.len() - 1]));
                assert(false);
            }
            lemma_push_fresh(fr, x);
        }
    }
}

/// A plan never lists a component twice: when the explicitly requested
/// components hold no component twice, neither does the final list nor the
/// list of components to install. An installed component that is already
/// in the list (requested, or reached by a rename) is not added again.
pub proof fn law_plan_lists_no_component_twice(
    m: ManifestV,
    t: Seq<char>,
    adds: Seq<ComponentV>,
    removes: Seq<ComponentV>,
    config: Option<Config>,
    installed_nonempty: bool,
    modifying: bool,
)
    requires
        build_update_spec(m, t, adds, removes, config, installed_nonempty, modifying) is Ok,
        no_repeats(adds),
    ensures
        build_update_spec(m, t, adds, removes, config, installed_nonempty, modifying) matches Ok(u)
            && no_repeats(u.2) && no_repeats(u.1),
{
    let rtp = rust_target_spec(m, t)->Ok_0;
    let start = starting_spec(m, t, config, installed_nonempty)->Ok_0;
    lemma_fold_no_repeats(m, rtp.1, removes, (adds, Seq::<ComponentV>::empty()), start);
    let fin = final_fold(m, rtp.1, removes, (adds, Seq::<ComponentV>::empty()), start).0;
    if modifying {
        lemma_filter_no_repeats(fin, not_in(start));
    }
}

} // verus!
