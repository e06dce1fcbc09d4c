//! What a toolchain's release offers and what of it is installed: the
//! status of each component of the `rust` package for the toolchain's
//! target, in component order.

use vstd::prelude::*;
use vstd::seq_lib::to_multiset_insert;
use crate::dist::{comp_lt, lemma_comp_lt_irreflexive, lemma_comp_lt_transitive, component_lt};
use crate::manifest::{
    with_target_suffix, component_name_spec, comps_view, contained_within_spec, package_get_spec, targets_get_spec,
    Component, ComponentV, Config, Manifest, ManifestV, TargetedPackageV,
};
use crate::triple::TargetTriple;
use crate::text::str_eq;

verus! {

/// A component of a release with its name, whether it is installed and
/// whether it can be downloaded.
#[derive(Debug)]
pub struct ComponentStatus {
    pub component: Component,
    pub name: String,
    pub installed: bool,
    pub available: bool,
}

/// The abstract value of a component's status.
pub type ComponentStatusV = (ComponentV, Seq<char>, bool, bool);

impl View for ComponentStatus {
    type V = ComponentStatusV;

    open spec fn view(&self) -> ComponentStatusV {
        (self.component@, self.name@, self.installed, self.available)
    }
}

/// The target text of a component: its target, or the empty text.
pub open spec fn target_text(c: ComponentV) -> Seq<char> {
    match c.1 {
        Some(t) => t,
        None => Seq::empty(),
    }
}

/// The package of a component for its target, if the manifest has it.
pub open spec fn component_package(m: ManifestV, c: ComponentV) -> Option<TargetedPackageV> {
    match package_get_spec(m, c.0) {
        Some(p) => targets_get_spec(p.1, target_text(c)),
        None => None,
    }
}

/// The `rust` package of the manifest for target `t`, if present.
pub open spec fn rust_for(m: ManifestV, t: Seq<char>) -> Option<TargetedPackageV> {
    match package_get_spec(m, "rust"@) {
        Some(p) => targets_get_spec(p.1, t),
        None => None,
    }
}

/// Whether the manifest can be queried for target `t`: it has the `rust`
/// package for `t`, and the package of each of its components for that
/// component's target.
pub open spec fn query_ok(m: ManifestV, t: Seq<char>) -> bool {
    rust_for(m, t) matches Some(rp)
        && forall|i: int| 0 <= i < rp.1.len() ==> (#[trigger] component_package(m, rp.1[i])) is Some
}

/// The status of component `c` given the installed components.
pub open spec fn status_spec(m: ManifestV, installed: Seq<ComponentV>, c: ComponentV) -> ComponentStatusV {
    (c, component_name_spec(m, c), contained_within_spec(c, installed), component_package(m, c)->Some_0.0.len() > 0)
}

/// Sorted by component, equal components keeping their order.
pub open spec fn statuses_sorted(s: Seq<ComponentStatusV>) -> bool {
    forall|i: int, j: int| 0 <= i < j < s.len() ==> !comp_lt(#[trigger] s[j].0, #[trigger] s[i].0)
}

/// The abstract values of a list of statuses.
pub open spec fn statuses_view(v: Seq<ComponentStatus>) -> Seq<ComponentStatusV> {
    v.map_values(|s: ComponentStatus| s@)
}

fn insert_status(v: &mut Vec<ComponentStatus>, e: ComponentStatus)
    requires
        statuses_sorted(statuses_view(old(v)@)),
    ensures
        statuses_sorted(statuses_view(final(v)@)),
        statuses_view(final(v)@).to_multiset() == statuses_view(old(v)@).to_multiset().insert(e@),
{
    let ghost s = statuses_view(v@);
    let mut k: usize = 0;
    while k < v.len()
        invariant
            s == statuses_view(v@),
            k <= s.len(),
            forall|i: int| 0 <= i < k ==> !comp_lt(e@.0, #[trigger] s[i].0),
        ensures
            k <= s.len(),
            forall|i: int| 0 <= i < k ==> !comp_lt(e@.0, #[trigger] s[i].0),
            k < s.len() ==> comp_lt(e@.0, s[k as int].0),
        decreases s.len() - k,
    {
        if component_lt(&e.component, &v[k].component) {
            break;
        }
        k = k + 1;
    }
    let ghost ev = e@;
    proof {
        assert forall|j: int| k <= j < s.len() implies !comp_lt(#[trigger] s[j].0, ev.0) by {
            if comp_lt(s[j].0, ev.0) {
                lemma_comp_lt_transitive(s[j].0, ev.0, s[k as int].0);
                if j == k {
                    lemma_comp_lt_irreflexive(s[j].0);
                }
            }
        }
    }
    v.insert(k, e);
    proof {
        let t = statuses_view(v@);
        assert(t =~= s.insert(k as int, ev));
        assert forall|i: int, j: int| 0 <= i < j < t.len() implies !comp_lt(#[trigger] t[j].0, #[trigger] t[i].0) by {
            if j < k {
                assert(t[i] == s[i] && t[j] == s[j]);
            } else if j == k {
                assert(t[i] == s[i]);
            } else if i < k {
                assert(t[i] == s[i] && t[j] == s[j - 1]);
                if comp_lt(s[j - 1].0, s[i].0) {
                    assert(!comp_lt(s[j - 1].0, s[i].0));
                }
            } else if i == k {
                assert(t[j] == s[j - 1]);
            } else {
                assert(t[i] == s[i - 1] && t[j] == s[j - 1]);
            }
        }
        to_multiset_insert(s, k as int, ev);
    }
}

impl Manifest {
    /// The status of every component of the `rust` package for `target`,
    /// given the installation's configuration: sorted by component, each
    /// with its name, whether it is installed (see
    /// [`contained_within_spec`]) and whether its package has something to
    /// download. The manifest must hold the `rust` package for the target
    /// and the package of each of its components.
    pub fn query_components(&self, target: &TargetTriple, config: &Config) -> (r: Vec<ComponentStatus>)
        requires
            query_ok(self@, target@),
        ensures
            statuses_sorted(statuses_view(r@)),
            statuses_view(r@).to_multiset() == rust_for(self@, target@)->Some_0.1.map_values(
                |c: ComponentV| status_spec(self@, comps_view(config.components@), c),
            ).to_multiset(),
    {
        let rust_pkg = match self.get_package("rust") {
            Ok(p) => p,
            Err(_) => {
                assert(false);
                return Vec::new();
            },
        };
        let targ_pkg = match rust_pkg.targets.get(target) {
            Some(tp) => tp,
            None => {
                assert(false);
                return Vec::new();
            },
        };
        let ghost m = self@;
        let ghost installed = comps_view(config.components@);
        let ghost cs = comps_view(targ_pkg.components@);
        let ghost want = cs.map_values(|c: ComponentV| status_spec(m, installed, c));
        assert(cs == rust_for(m, target@)->Some_0.1);
        let mut res: Vec<ComponentStatus> = Vec::new();
        let mut i: usize = 0;
        assert(want.take(0) =~= Seq::<ComponentStatusV>::empty());
        assert(statuses_view(res@) =~= Seq::<ComponentStatusV>::empty());
        while i < targ_pkg.components.len()
            invariant
                m == self@,
                installed == comps_view(config.components@),
                cs == comps_view(targ_pkg.components@),
                want == cs.map_values(|c: ComponentV| status_spec(m, installed, c)),
                cs == rust_for(m, target@)->Some_0.1,
                query_ok(m, target@),
                i <= cs.len(),
                statuses_sorted(statuses_view(res@)),
                statuses_view(res@).to_multiset() == want.take(i as int).to_multiset(),
            decreases cs.len() - i,
        {
            let component = &targ_pkg.components[i];
            assert(cs[i as int] == component@);
            assert(component_package(m, component@) is Some);
            let installed_here = component.contained_within(&config.components);
            let t = TargetTriple::new(component.target().as_str());
            let available = match self.get_package(component.short_name_in_manifest().as_str()) {
                Ok(p) => match p.targets.get(&t) {
                    Some(tp) => tp.available(),
                    None => {
                        assert(false);
                        false
                    },
                },
                Err(_) => {
                    assert(false);
                    false
                },
            };
            let st = ComponentStatus {
                component: component.copy(),
                name: self.component_name(component),
                installed: installed_here,
                available,
            };
            assert(st@ == want[i as int]);
            let ghost r0 = statuses_view(res@);
            insert_status(&mut res, st);
            proof {
                assert(want.take(i + 1) =~= want.take(i as int).push(want[i as int]));
                vstd::seq_lib::to_multiset_build(want.take(i as int), want[i as int]);
            }
            i = i + 1;
        }
        assert(want.take(cs.len() as int) =~= want);
        res
    }
}

/// Whether `name` names component `c`: as the manifest's package name with
/// its target, or as the name the component is shown under.
pub open spec fn names_component(m: ManifestV, c: ComponentV, name: Seq<char>) -> bool {
    name == with_target_suffix(c.0, c.1) || name == component_name_spec(m, c)
}

impl Component {
    /// The component that `name` stands for: the first of the statuses'
    /// components that it names (see [`names_component`]); when none, a
    /// new extension component of package `name` for `fallback_target`.
    pub fn try_new(name: &str, manifest: &Manifest, statuses: &Vec<ComponentStatus>, fallback_target: Option<&TargetTriple>) -> (r: Component)
        ensures
            (exists|i: int| 0 <= i < statuses@.len() && names_component(manifest@, (#[trigger] statuses@[i]).component@, name@)) ==>
                exists|i: int| 0 <= i < statuses@.len() && names_component(manifest@, (#[trigger] statuses@[i]).component@, name@)
                    && (forall|j: int| 0 <= j < i ==> !names_component(manifest@, (#[trigger] statuses@[j]).component@, name@))
                    && r@ == statuses@[i].component@,
            !(exists|i: int| 0 <= i < statuses@.len() && names_component(manifest@, (#[trigger] statuses@[i]).component@, name@)) ==>
                r@ == (name@, match fallback_target { Some(t) => Some(t@), None => None::<Seq<char>> }, true),
    {
        let n = statuses.len();
        let mut i: usize = 0;
        while i < n
            invariant
                n == statuses@.len(),
                i <= n,
                forall|j: int| 0 <= j < i ==> !names_component(manifest@, (#[trigger] statuses@[j]).component@, name@),
            decreases n - i,
        {
            let c = &statuses[i].component;
            let in_manifest = c.name_in_manifest();
            let shown = manifest.component_name(c);
            if str_eq(name, in_manifest.as_str()) || str_eq(name, shown.as_str()) {
                return c.copy();
            }
            i = i + 1;
        }
        let target = match fallback_target {
            Some(t) => Some(t.copy()),
            None => None,
        };
        Component::new(name.to_owned(), target, true)
    }
}

} // verus!
