//! Messages of the errors that the installer reports to its users.

use vstd::prelude::*;
use crate::manifest::{
    component_description_spec, short_name_spec, Component, ComponentV, Manifest, ManifestV,
    comps_view,
};
use crate::text::{concat2, concat3, has_prefix, join_strings, join_with, starts_with, texts_view};

verus! {

/// The hint for a suggested name: `; did you mean 'NAME'?`, or nothing.
pub open spec fn suggest_message_spec(suggestion: Option<Seq<char>>) -> Seq<char> {
    match suggestion {
        Some(s) => "; did you mean '"@ + s + "'?"@,
        None => Seq::empty(),
    }
}

/// The hint for a suggested name; see [`suggest_message_spec`].
pub fn suggest_message(suggestion: &Option<String>) -> (r: String)
    ensures
        r@ == suggest_message_spec(match suggestion { Some(s) => Some(s@), None => None }),
{
    match suggestion {
        Some(s) => concat3("; did you mean '", s.as_str(), "'?"),
        None => String::new(),
    }
}

/// The remark added for nightly channels.
pub const NIGHTLY_REMARK: &'static str = "Sometimes not all components are available in any given nightly. ";

/// The remark for a channel name: [`NIGHTLY_REMARK`] for nightly channels.
pub open spec fn nightly_remark(toolchain: Seq<char>) -> Seq<char> {
    if has_prefix(toolchain, "nightly"@) { NIGHTLY_REMARK@ } else { Seq::empty() }
}

/// Whether all components serve the target of the first, or every target.
pub open spec fn same_target(cs: Seq<ComponentV>) -> bool {
    forall|i: int| 0 <= i < cs.len() ==> (#[trigger] cs[i]).1 == cs[0].1 || cs[i].1 is None
}

/// The short names of the components, each in quotes.
pub open spec fn quoted_short_names(m: ManifestV, cs: Seq<ComponentV>) -> Seq<Seq<char>> {
    cs.map_values(|c: ComponentV| "'"@ + short_name_spec(m, c) + "'"@)
}

/// The descriptions of the components.
pub open spec fn descriptions(m: ManifestV, cs: Seq<ComponentV>) -> Seq<Seq<char>> {
    cs.map_values(|c: ComponentV| component_description_spec(m, c))
}

/// The message for components that an installation or update asked for
/// and that cannot be downloaded: one component is described on a line of
/// its own; several are listed by quoted short name when they serve one
/// target, by description otherwise.
pub open spec fn component_unavailable_msg_spec(cs: Seq<ComponentV>, m: ManifestV, toolchain: Seq<char>) -> Seq<char> {
    if cs.len() == 1 {
        "component "@ + component_description_spec(m, cs[0]) + " is unavailable for download for channel '"@
            + toolchain + "'\n"@ + nightly_remark(toolchain)
    } else {
        "some components are unavailable for download for channel '"@ + toolchain + "': "@
            + join_with(if same_target(cs) { quoted_short_names(m, cs) } else { descriptions(m, cs) }, ", "@)
            + nightly_remark(toolchain)
    }
}

fn all_same_target(cs: &Vec<Component>) -> (r: bool)
    requires
        cs@.len() > 0,
    ensures
        r == same_target(comps_view(cs@)),
{
    let ghost v = comps_view(cs@);
    let mut i: usize = 0;
    while i < cs.len()
        invariant
            v == comps_view(cs@),
            v.len() > 0,
            i <= v.len(),
            forall|k: int| 0 <= k < i ==> (#[trigger] v[k]).1 == v[0].1 || v[k].1 is None,
        decreases v.len() - i,
    {
        let same = match (&cs[i].target, &cs[0].target) {
            (Some(a), Some(b)) => a.same_as(b),
            (None, None) => true,
            _ => false,
        };
        if !(same || cs[i].target.is_none()) {
            assert(!(v[i as int].1 == v[0].1 || v[i as int].1 is None));
            return false;
        }
        i = i + 1;
    }
    true
}

/// The message for unavailable components; see
/// [`component_unavailable_msg_spec`]. There must be at least one.
pub fn component_unavailable_msg(cs: &Vec<Component>, manifest: &Manifest, toolchain: &str) -> (r: String)
    requires
        cs@.len() > 0,
    ensures
        r@ == component_unavailable_msg_spec(comps_view(cs@), manifest@, toolchain@),
{
    let remark = if starts_with(toolchain, "nightly") { NIGHTLY_REMARK } else { "" };
    let mut r;
    if cs.len() == 1 {
        let d = manifest.component_description(&cs[0]);
        r = concat2("component ", d.as_str());
        r.append(" is unavailable for download for channel '");
        r.append(toolchain);
        r.append("'\n");
        assert(r@ =~= "component "@ + component_description_spec(manifest@, comps_view(cs@)[0])
            + " is unavailable for download for channel '"@ + toolchain@ + "'\n"@);
    } else {
        let same = all_same_target(cs);
        let mut parts: Vec<String> = Vec::new();
        let ghost v = comps_view(cs@);
        let mut i: usize = 0;
        while i < cs.len()
            invariant
                v == comps_view(cs@),
                i <= v.len(),
                same == same_target(v),
                parts@.len() == i,
                forall|k: int| 0 <= k < i ==> (#[trigger] texts_view(parts@)[k]) == (if same {
                    quoted_short_names(manifest@, v)[k]
                } else {
                    descriptions(manifest@, v)[k]
                }),
            decreases v.len() - i,
        {
            let part = if same {
                let n = manifest.short_name(&cs[i]);
                concat3("'", n.as_str(), "'")
            } else {
                manifest.component_description(&cs[i])
            };
            let ghost p0 = parts@;
            parts.push(part);
            assert(texts_view(parts@) =~= texts_view(p0).push(part@));
            i = i + 1;
        }
        proof {
            if same {
                assert(texts_view(parts@) =~= quoted_short_names(manifest@, v));
            } else {
                assert(texts_view(parts@) =~= descriptions(manifest@, v));
            }
        }
        let joined = join_strings(&parts, ", ");
        r = concat3("some components are unavailable for download for channel '", toolchain, "': ");
        r.append(joined.as_str());
        assert(r@ =~= "some components are unavailable for download for channel '"@ + toolchain@ + "': "@
            + join_with(if same_target(v) { quoted_short_names(manifest@, v) } else { descriptions(manifest@, v) }, ", "@));
    }
    let ghost r0 = r@;
    proof {
        reveal_strlit("");
    }
    r.append(remark);
    assert(remark@ == nightly_remark(toolchain@));
    assert(r@ =~= r0 + nightly_remark(toolchain@));
    r
}

} // verus!
