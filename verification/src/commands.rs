//! Decisions the command line front ends make before running a command:
//! whether the command needs the metadata of the data directory to be of
//! the current version, whether proxies nest too deeply, and the warning
//! shown when the proxies are not set up.

use vstd::prelude::*;
use crate::env_var::{counter_value, parse_i32};
use crate::text::{concat3, seq_lt, str_eq, str_lt, texts_view, lemma_seq_lt_irreflexive, lemma_seq_lt_transitive};
use vstd::seq_lib::to_multiset_insert;

verus! {

/// Whether a command needs up-to-date metadata, by its first two
/// arguments: upgrading or deleting the data, installing the front end
/// itself, and running with no arguments at all (which installs it) do
/// not; everything else does.
pub open spec fn command_requires_metadata_spec(arg1: Option<Seq<char>>, arg2: Option<Seq<char>>) -> bool {
    match arg1 {
        Some(a) => if a == "upgrade-data"@ || a == "delete-data"@ {
            false
        } else {
            match arg2 {
                Some(b) => !(a == "self"@ && b == "install"@),
                None => true,
            }
        },
        None => arg2 is Some,
    }
}

/// Whether the command given by its first two arguments needs up-to-date
/// metadata; see [`command_requires_metadata_spec`].
pub fn command_requires_metadata(arg1: Option<&str>, arg2: Option<&str>) -> (r: bool)
    ensures
        r == command_requires_metadata_spec(
            match arg1 { Some(a) => Some(a@), None => None },
            match arg2 { Some(b) => Some(b@), None => None },
        ),
{
    match arg1 {
        Some(a) => {
            if str_eq(a, "upgrade-data") || str_eq(a, "delete-data") {
                return false;
            }
            match arg2 {
                Some(b) => !(str_eq(a, "self") && str_eq(b, "install")),
                None => true,
            }
        },
        None => arg2.is_some(),
    }
}

/// Whether a subcommand, by its name, needs up-to-date metadata: all but
/// upgrading or deleting the data, installing, uninstalling, and no
/// subcommand at all.
pub open spec fn subcommand_requires_metadata_spec(name: Option<Seq<char>>) -> bool {
    match name {
        Some(n) => !(n == "upgrade-data"@ || n == "delete-data"@ || n == "install"@ || n == "uninstall"@),
        None => false,
    }
}

/// Whether the subcommand `name` needs up-to-date metadata; see
/// [`subcommand_requires_metadata_spec`].
pub fn subcommand_requires_metadata(name: Option<&str>) -> (r: bool)
    ensures
        r == subcommand_requires_metadata_spec(match name { Some(n) => Some(n@), None => None }),
{
    match name {
        Some(n) => !(str_eq(n, "upgrade-data") || str_eq(n, "delete-data") || str_eq(n, "install") || str_eq(n, "uninstall")),
        None => false,
    }
}

/// How deeply the front end may run itself through its proxies.
pub const RECURSION_LIMIT: i32 = 5;

/// Whether the nesting counter (its old value as read, see
/// [`counter_value`]) is beyond `limit`, in which case the front end
/// refuses to run.
pub fn recursion_limit_exceeded(old: Option<&str>, limit: i32) -> (r: bool)
    ensures
        r == (counter_value(match old { Some(s) => Some(s@), None => None }) > limit),
{
    let v: i32 = match old {
        Some(s) => match parse_i32(s) {
            Some(v) => v,
            None => 0,
        },
        None => 0,
    };
    v > limit
}

/// The warning when `rustc` is not run through the front end's proxy.
pub const NOT_INSTALLED_WARNING: &'static str = "multirust is not installed for the current user: `rustc` invocations will not be proxied.\n\nFor more information, run  `multirust install --help`\n";
/// The start of the warning when the front end is installed but its
/// proxies are not found first, before its `bin` directory.
pub const NOT_SET_UP_WARNING_HEAD: &'static str = "multirust is installed but is not set up correctly: `rustc` invocations will not be proxied.\n\nEnsure '";
/// The end of that warning.
pub const NOT_SET_UP_WARNING_TAIL: &'static str = "' is on your PATH, and has priority.\n";

/// The warning shown when the proxies do not work: that the front end is
/// not installed, or else that its `bin` directory must come first on the
/// search path.
pub open spec fn proxy_warning_spec(installed: bool, bin_dir: Seq<char>) -> Seq<char> {
    if installed {
        NOT_SET_UP_WARNING_HEAD@ + bin_dir + NOT_SET_UP_WARNING_TAIL@
    } else {
        NOT_INSTALLED_WARNING@
    }
}

/// The warning shown when the proxies do not work; see
/// [`proxy_warning_spec`].
pub fn proxy_warning(installed: bool, bin_dir: &str) -> (r: String)
    ensures
        r@ == proxy_warning_spec(installed, bin_dir@),
{
    if installed {
        concat3(NOT_SET_UP_WARNING_HEAD, bin_dir, NOT_SET_UP_WARNING_TAIL)
    } else {
        NOT_INSTALLED_WARNING.to_owned()
    }
}

/// The answer to a yes/no question from the line the user typed: `y` or
/// `Y` is yes, `n` or `N` is no, an empty line takes the default, and
/// anything else is no.
pub open spec fn confirm_answer_spec(input: Seq<char>, default: bool) -> bool {
    if input == "y"@ || input == "Y"@ {
        true
    } else if input == "n"@ || input == "N"@ {
        false
    } else if input.len() == 0 {
        default
    } else {
        false
    }
}

/// Reads the answer to a yes/no question; see [`confirm_answer_spec`].
pub fn confirm_answer(input: &str, default: bool) -> (r: bool)
    ensures
        r == confirm_answer_spec(input@, default),
{
    if str_eq(input, "y") || str_eq(input, "Y") {
        true
    } else if str_eq(input, "n") || str_eq(input, "N") {
        false
    } else if input.unicode_len() == 0 {
        default
    } else {
        false
    }
}

/// Texts in order: none comes before an earlier one.
pub open spec fn texts_sorted(s: Seq<Seq<char>>) -> bool {
    forall|i: int, j: int| 0 <= i < j < s.len() ==> !seq_lt(#[trigger] s[j], #[trigger] s[i])
}

fn insert_text(v: &mut Vec<String>, e: String)
    requires
        texts_sorted(texts_view(old(v)@)),
    ensures
        texts_sorted(texts_view(final(v)@)),
        texts_view(final(v)@).to_multiset() == texts_view(old(v)@).to_multiset().insert(e@),
{
    let ghost s = texts_view(v@);
    let mut k: usize = 0;
    while k < v.len()
        invariant
            s == texts_view(v@),
            k <= s.len(),
            forall|i: int| 0 <= i < k ==> !seq_lt(e@, #[trigger] s[i]),
        ensures
            k <= s.len(),
            forall|i: int| 0 <= i < k ==> !seq_lt(e@, #[trigger] s[i]),
            k < s.len() ==> seq_lt(e@, s[k as int]),
        decreases s.len() - k,
    {
        assert(s[k as int] == v@[k as int]@);
        if str_lt(e.as_str(), v[k].as_str()) {
            break;
        }
        k = k + 1;
    }
    let ghost ev = e@;
    proof {
        assert forall|j: int| k <= j < s.len() implies !seq_lt(#[trigger] s[j], ev) by {
            if seq_lt(s[j], ev) {
                lemma_seq_lt_transitive(s[j], ev, s[k as int]);
                if j == k {
                    lemma_seq_lt_irreflexive(s[j]);
                }
            }
        }
    }
    v.insert(k, e);
    proof {
        let t = texts_view(v@);
        assert(t =~= s.insert(k as int, ev));
        assert forall|i: int, j: int| 0 <= i < j < t.len() implies !seq_lt(#[trigger] t[j], #[trigger] t[i]) by {
            if j < k {
                assert(t[i] == s[i] && t[j] == s[j]);
            } else if j == k {
                assert(t[i] == s[i]);
            } else if i < k {
                assert(t[i] == s[i] && t[j] == s[j - 1]);
            } else if i == k {
                assert(t[j] == s[j - 1]);
            } else {
                assert(t[i] == s[i - 1] && t[j] == s[j - 1]);
            }
        }
        to_multiset_insert(s, k as int, ev);
    }
}

/// The texts in order, as sorting them gives them: in order (see
/// [`texts_sorted`]) and the same texts, as often each.
pub fn sort_texts(v: Vec<String>) -> (r: Vec<String>)
    ensures
        texts_sorted(texts_view(r@)),
        texts_view(r@).to_multiset() == texts_view(v@).to_multiset(),
{
    let ghost s = texts_view(v@);
    let mut r: Vec<String> = Vec::new();
    let mut i: usize = 0;
    assert(texts_view(r@) =~= s.take(0));
    while i < v.len()
        invariant
            s == texts_view(v@),
            i <= v@.len(),
            texts_sorted(texts_view(r@)),
            texts_view(r@).to_multiset() == s.take(i as int).to_multiset(),
        decreases v@.len() - i,
    {
        let e = v[i].clone();
        insert_text(&mut r, e);
        proof {
            assert(s.take(i + 1) =~= s.take(i as int).push(s[i as int]));
            s.take(i as int).to_multiset_ensures();
            s.take(i + 1).to_multiset_ensures();
        }
        i = i + 1;
    }
    assert(s.take(v@.len() as int) =~= s);
    r
}

/// The lines listing installed toolchains or overrides: the names in
/// order, or the message `empty` when there is none.
pub fn list_lines(names: Vec<String>, empty: &str) -> (r: Vec<String>)
    ensures
        names@.len() == 0 ==> texts_view(r@) == seq![empty@],
        names@.len() > 0 ==> texts_sorted(texts_view(r@))
            && texts_view(r@).to_multiset() == texts_view(names@).to_multiset(),
{
    if names.len() == 0 {
        let mut r: Vec<String> = Vec::new();
        r.push(empty.to_owned());
        assert(texts_view(r@) =~= seq![empty@]);
        r
    } else {
        sort_texts(names)
    }
}

/// What `list_lines` shows when no toolchain is installed.
pub const NO_TOOLCHAINS: &'static str = "no installed toolchains";
/// What `list_lines` shows when there is no override.
pub const NO_OVERRIDES: &'static str = "no overrides";

} // verus!
