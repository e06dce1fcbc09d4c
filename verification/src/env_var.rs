//! The search paths handed to the programs that the installer runs.

use vstd::prelude::*;
use crate::text::{texts_contain, texts_view, substring, char_is, decimal, u64_to_decimal};
use crate::download::{parse_u64, parse_u64_spec};

verus! {

/// The deepest a chain of proxies may nest.
pub const RUST_RECURSION_COUNT_MAX: u32 = 20;

/// The directories `pre` put in front of `tail`, each only when `tail`
/// does not hold it yet; the last of `pre` is considered first, so the
/// new directories keep their order.
pub open spec fn prepend_unique(tail: Seq<Seq<char>>, pre: Seq<Seq<char>>) -> Seq<Seq<char>>
    decreases pre.len(),
{
    if pre.len() == 0 {
        tail
    } else {
        let t = prepend_unique(tail, pre.drop_first());
        if t.contains(pre[0]) { t } else { seq![pre[0]] + t }
    }
}

/// The new value of a search path, as a list of directories: with an old
/// value, the directories to prepend that it lacks go in front of it;
/// without one, the directories to prepend make it up; then the directory
/// to append goes at the end unless it is there already.
pub open spec fn insert_path_spec(old: Option<Seq<Seq<char>>>, prepend: Seq<Seq<char>>, append: Option<Seq<char>>) -> Seq<Seq<char>> {
    let parts = match old {
        Some(t) => prepend_unique(t, prepend),
        None => prepend,
    };
    match append {
        Some(p) => if parts.contains(p) { parts } else { parts.push(p) },
        None => parts,
    }
}

/// The directories of a search path after adding `prepend` and `append`;
/// see [`insert_path_spec`]. `old` is the old value split into
/// directories, if the variable was set.
pub fn insert_path(old: Option<Vec<String>>, prepend: Vec<String>, append: Option<String>) -> (r: Vec<String>)
    ensures
        texts_view(r@) == insert_path_spec(
            match old { Some(t) => Some(texts_view(t@)), None => None },
            texts_view(prepend@),
            match append { Some(p) => Some(p@), None => None },
        ),
{
    let ghost pre = texts_view(prepend@);
    let mut parts = match old {
        Some(tail) => {
            let ghost t0 = texts_view(tail@);
            let mut tail = tail;
            let mut j: usize = prepend.len();
            assert(pre.skip(pre.len() as int) =~= Seq::<Seq<char>>::empty());
            while j > 0
                invariant
                    pre == texts_view(prepend@),
                    j <= pre.len(),
                    texts_view(tail@) == prepend_unique(t0, pre.skip(j as int)),
                decreases j,
            {
                j = j - 1;
                assert(pre.skip(j as int).drop_first() =~= pre.skip(j + 1));
                assert(pre.skip(j as int)[0] == prepend@[j as int]@);
                if !texts_contain(&tail, prepend[j].as_str()) {
                    let ghost k0 = texts_view(tail@);
                    tail.insert(0, prepend[j].clone());
                    assert(texts_view(tail@) =~= seq![prepend@[j as int]@] + k0);
                }
            }
            assert(pre.skip(0) =~= pre);
            tail
        },
        None => prepend,
    };
    match append {
        Some(p) => {
            if !texts_contain(&parts, p.as_str()) {
                let ghost k0 = texts_view(parts@);
                parts.push(p);
                assert(texts_view(parts@) =~= k0.push(p@));
            }
        },
        None => {},
    }
    parts
}

/// How Rust reads a signed 32-bit number (`i32::from_str`): a `-` followed
/// by what an unsigned number allows but a second sign, or an unsigned
/// number with an optional `+`; the value must fit in 32 bits.
pub open spec fn parse_i32_spec(s: Seq<char>) -> Option<i32> {
    if s.len() > 0 && s[0] == '-' {
        let d = s.skip(1);
        if d.len() > 0 && d[0] == '+' {
            None
        } else {
            match parse_u64_spec(d) {
                Some(v) => if v <= 0x8000_0000 { Some((0 - v) as i32) } else { None },
                None => None,
            }
        }
    } else {
        match parse_u64_spec(s) {
            Some(v) => if v <= i32::MAX { Some(v as i32) } else { None },
            None => None,
        }
    }
}

/// Reads a signed 32-bit number; see [`parse_i32_spec`].
pub fn parse_i32(s: &str) -> (r: Option<i32>)
    ensures
        r == parse_i32_spec(s@),
{
    let n = s.unicode_len();
    if char_is(s, 0, '-') {
        let rest = substring(s, 1, n);
        assert(rest@ =~= s@.skip(1));
        if char_is(rest.as_str(), 0, '+') {
            return None;
        }
        match parse_u64(rest.as_str()) {
            Some(v) => if v <= 0x8000_0000 {
                let k: i64 = 0 - (v as i64);
                Some(k as i32)
            } else {
                None
            },
            None => None,
        }
    } else {
        match parse_u64(s) {
            Some(v) => if v <= 0x7fff_ffff { Some(v as i32) } else { None },
            None => None,
        }
    }
}

/// The count that a nesting counter held: the old value read as a signed
/// 32-bit number, or 0 when unset or unreadable.
pub open spec fn counter_value(old: Option<Seq<char>>) -> int {
    match old {
        Some(s) => match parse_i32_spec(s) {
            Some(v) => v as int,
            None => 0,
        },
        None => 0,
    }
}

/// The decimal text of an integer, with `-` in front of a negative one.
pub open spec fn signed_decimal(v: int) -> Seq<char> {
    if v < 0 { seq!['-'] + decimal((0 - v) as nat) } else { decimal(v as nat) }
}

/// The next value of a nesting counter such as the proxy recursion count:
/// one more than the old value (see [`counter_value`]), as text. The old
/// value must not be the largest 32-bit number, whose increment overflows.
pub fn inc(old: Option<&str>) -> (r: String)
    requires
        counter_value(match old { Some(s) => Some(s@), None => None }) < i32::MAX,
    ensures
        r@ == signed_decimal(counter_value(match old { Some(s) => Some(s@), None => None }) + 1),
{
    let v: i32 = match old {
        Some(s) => match parse_i32(s) {
            Some(v) => v,
            None => 0,
        },
        None => 0,
    };
    let w: i32 = v + 1;
    if w < 0 {
        let m: i64 = 0 - (w as i64);
        let mut r = String::new();
        r.append("-");
        let d = u64_to_decimal(m as u64);
        r.append(d.as_str());
        proof {
            reveal_strlit("-");
            assert(r@ =~= seq!['-'] + decimal((0 - w) as nat));
        }
        r
    } else {
        u64_to_decimal(w as u64)
    }
}

proof fn lemma_prepend_keeps(t: Seq<Seq<char>>, pre: Seq<Seq<char>>)
    ensures
        forall|i: int| 0 <= i < pre.len() ==> prepend_unique(t, pre).contains(#[trigger] pre[i]),
        forall|x: Seq<char>| t.contains(x) ==> prepend_unique(t, pre).contains(x),
    decreases pre.len(),
{
    if pre.len() > 0 {
        let rest = pre.drop_first();
        lemma_prepend_keeps(t, rest);
        let t2 = prepend_unique(t, rest);
        let r = prepend_unique(t, pre);
        assert forall|x: Seq<char>| t2.contains(x) implies r.contains(x) by {
            if !t2.contains(pre[0]) {
                let k = choose|k: int| 0 <= k < t2.len() && t2[k] == x;
                assert(r[k + 1] == x);
            }
        }
        assert forall|i: int| 0 <= i < pre.len() implies r.contains(#[trigger] pre[i]) by {
            if i > 0 {
                assert(pre[i] == rest[i - 1]);
            } else if !t2.contains(pre[0]) {
                assert(r[0] == pre[0]);
            }
        }
    }
}

proof fn lemma_prepend_nothing_new(t: Seq<Seq<char>>, pre: Seq<Seq<char>>)
    requires
        forall|i: int| 0 <= i < pre.len() ==> t.contains(#[trigger] pre[i]),
    ensures
        prepend_unique(t, pre) == t,
    decreases pre.len(),
{
    if pre.len() > 0 {
        let rest = pre.drop_first();
        assert forall|i: int| 0 <= i < rest.len() implies t.contains(#[trigger] rest[i]) by {
            assert(rest[i] == pre[i + 1]);
        }
        lemma_prepend_nothing_new(t, rest);
        assert(t.contains(pre[0]));
    }
}

/// Adding the same directories to a search path twice changes it once:
/// the second time, every directory to prepend or append is there
/// already, so the path stays as it is.
pub proof fn law_insert_path_idempotent(old: Option<Seq<Seq<char>>>, prepend: Seq<Seq<char>>, append: Option<Seq<char>>)
    ensures
        insert_path_spec(Some(insert_path_spec(old, prepend, append)), prepend, append)
            == insert_path_spec(old, prepend, append),
{
    let parts = match old {
        Some(t) => prepend_unique(t, prepend),
        None => prepend,
    };
    if let Some(t) = old {
        lemma_prepend_keeps(t, prepend);
    } else {
        assert forall|i: int| 0 <= i < prepend.len() implies parts.contains(#[trigger] prepend[i]) by {
            assert(parts[i] == prepend[i]);
        }
    }
    let r = insert_path_spec(old, prepend, append);
    assert forall|i: int| 0 <= i < prepend.len() implies r.contains(#[trigger] prepend[i]) by {
        assert(parts.contains(prepend[i]));
        if let Some(p) = append {
            if !parts.contains(p) {
                let k = choose|k: int| 0 <= k < parts.len() && parts[k] == prepend[i];
                assert(r[k] == prepend[i]);
            }
        }
    }
    lemma_prepend_nothing_new(r, prepend);
    if let Some(p) = append {
        if !parts.contains(p) {
            assert(r[r.len() - 1] == p);
        }
        assert(r.contains(p));
    }
}

} // verus!
