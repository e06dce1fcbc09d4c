//! The order in which the entries of a package archive are written out.
//! Entries are handed to a pool of writers; an entry may only be written
//! once its directory exists. Entries whose directory is still being made
//! wait in that directory's queue and are released when it is done; an
//! entry whose directory the archive never mentioned gets that directory
//! made first. Paths are relative to the directory unpacked into, which
//! exists from the start (the empty path).

use vstd::prelude::*;
use crate::manifest::{first_key, lemma_first_key, lemma_first_key_props};
use crate::text::{str_eq, substring};

verus! {

/// What an entry is: a directory, or a file (known to the caller by a
/// number).
#[derive(Debug, Clone, Copy, PartialEq, Eq, Structural)]
pub enum EntryKind {
    Dir,
    File(u64),
}

/// An entry to write: its relative path, kind and permissions.
#[derive(Debug)]
pub struct UnpackItem {
    pub path: String,
    pub kind: EntryKind,
    pub mode: u32,
}

/// The abstract value of an entry.
pub type ItemV = (Seq<char>, EntryKind, u32);

impl View for UnpackItem {
    type V = ItemV;

    open spec fn view(&self) -> ItemV {
        (self.path@, self.kind, self.mode)
    }
}

/// Whether a directory exists, or is being made with entries waiting for
/// it.
#[derive(Debug)]
pub enum DirStatus {
    Exists,
    Pending(Vec<UnpackItem>),
}

/// The abstract value of a directory's status.
pub enum DirStatusV {
    Exists,
    Pending(Seq<ItemV>),
}

/// The abstract values of a list of entries.
pub open spec fn items_view(v: Seq<UnpackItem>) -> Seq<ItemV> {
    v.map_values(|i: UnpackItem| i@)
}

impl View for DirStatus {
    type V = DirStatusV;

    open spec fn view(&self) -> DirStatusV {
        match self {
            DirStatus::Exists => DirStatusV::Exists,
            DirStatus::Pending(v) => DirStatusV::Pending(items_view(v@)),
        }
    }
}

/// What became of an entry handed in.
#[derive(Debug)]
pub enum Placement {
    /// Write this entry now (the entry itself, or a directory it needs).
    Submit(UnpackItem),
    /// The entry waits for its directory.
    Queued,
}

/// The abstract value of a placement.
pub enum PlacementV {
    Submit(ItemV),
    Queued,
}

impl View for Placement {
    type V = PlacementV;

    open spec fn view(&self) -> PlacementV {
        match self {
            Placement::Submit(i) => PlacementV::Submit(i@),
            Placement::Queued => PlacementV::Queued,
        }
    }
}

/// The position of the last `/` in `p`, if any.
pub open spec fn last_slash(p: Seq<char>) -> Option<int>
    decreases p.len(),
{
    if p.len() == 0 {
        None
    } else if p.last() == '/' {
        Some(p.len() - 1)
    } else {
        last_slash(p.drop_last())
    }
}

proof fn lemma_last_slash_range(p: Seq<char>)
    ensures
        last_slash(p) matches Some(i) ==> 0 <= i < p.len(),
    decreases p.len(),
{
    if p.len() > 0 && p.last() != '/' {
        lemma_last_slash_range(p.drop_last());
    }
}

/// The directory holding `p`: the part before its last `/`, or the
/// directory unpacked into (the empty path) when it has none.
pub open spec fn parent_path(p: Seq<char>) -> Seq<char> {
    match last_slash(p) {
        Some(i) => p.subrange(0, i),
        None => Seq::empty(),
    }
}

/// The directory holding a non-empty path is shorter than it.
pub proof fn lemma_parent_shorter(p: Seq<char>)
    requires
        p.len() > 0,
    ensures
        parent_path(p).len() < p.len(),
{
    lemma_last_slash_range(p);
}

proof fn lemma_parent_shorter_if(p: Seq<char>)
    ensures
        p.len() > 0 ==> parent_path(p).len() < p.len(),
{
    if p.len() > 0 {
        lemma_parent_shorter(p);
    }
}

/// The directory holding `p`; see [`parent_path`].
pub fn parent_of(p: &str) -> (r: String)
    ensures
        r@ == parent_path(p@),
        p@.len() > 0 ==> r@.len() < p@.len(),
{
    let n = p.unicode_len();
    let mut k: usize = n;
    assert(p@.take(n as int) =~= p@);
    while k > 0 && p.get_char(k - 1) != '/'
        invariant
            n == p@.len(),
            k <= n,
            last_slash(p@) == last_slash(p@.take(k as int)),
        decreases k,
    {
        assert(p@.take(k as int).drop_last() =~= p@.take(k - 1));
        k = k - 1;
    }
    proof {
        lemma_parent_shorter_if(p@);
    }
    if k == 0 {
        assert(p@.take(0) =~= Seq::<char>::empty());
        String::new()
    } else {
        substring(p, 0, k - 1)
    }
}

/// The status of directory `k`, if known.
pub open spec fn status_of(dirs: Seq<(Seq<char>, DirStatusV)>, k: Seq<char>) -> Option<DirStatusV> {
    match first_key(dirs, k) {
        Some(i) => Some(dirs[i].1),
        None => None,
    }
}

/// `dirs` with the status of `k` set to `v` (replacing the first entry for
/// `k`, or added at the end).
pub open spec fn set_status(dirs: Seq<(Seq<char>, DirStatusV)>, k: Seq<char>, v: DirStatusV) -> Seq<(Seq<char>, DirStatusV)> {
    match first_key(dirs, k) {
        Some(i) => dirs.update(i, (k, v)),
        None => dirs.push((k, v)),
    }
}

/// Handing in entry `item`: when its directory exists, it is written now;
/// when its directory is being made, it waits in that directory's queue;
/// when its directory is unknown, it waits in a new queue for that
/// directory, which is handed in in turn (permissions `0o755`).
pub open spec fn place_spec(dirs: Seq<(Seq<char>, DirStatusV)>, item: ItemV) -> (Seq<(Seq<char>, DirStatusV)>, PlacementV)
    decreases item.0.len(),
{
    if item.0.len() == 0 {
        (dirs, PlacementV::Submit(item))
    } else {
        let parent = parent_path(item.0);
        proof {
            lemma_parent_shorter(item.0);
        }
        match first_key(dirs, parent) {
            None => place_spec(dirs.push((parent, DirStatusV::Pending(seq![item]))), (parent, EntryKind::Dir, 0o755u32)),
            Some(i) => match dirs[i].1 {
                DirStatusV::Exists => (dirs, PlacementV::Submit(item)),
                DirStatusV::Pending(l) => (dirs.update(i, (parent, DirStatusV::Pending(l.push(item)))), PlacementV::Queued),
            },
        }
    }
}

/// The directories met while unpacking, with their status.
#[derive(Debug)]
pub struct DirTracker {
    dirs: Vec<(String, DirStatus)>,
}

impl View for DirTracker {
    type V = Seq<(Seq<char>, DirStatusV)>;

    closed spec fn view(&self) -> Seq<(Seq<char>, DirStatusV)> {
        self.dirs@.map_values(|e: (String, DirStatus)| (e.0@, e.1@))
    }
}

/// The tracker is sound: the directory unpacked into exists.
pub open spec fn tracker_wf(dirs: Seq<(Seq<char>, DirStatusV)>) -> bool {
    status_of(dirs, Seq::empty()) matches Some(DirStatusV::Exists)
}

impl DirTracker {
    /// A tracker that knows only the directory unpacked into, which exists.
    pub fn new() -> (r: Self)
        ensures
            r@ == seq![(Seq::<char>::empty(), DirStatusV::Exists)],
            tracker_wf(r@),
    {
        let mut dirs: Vec<(String, DirStatus)> = Vec::new();
        dirs.push((String::new(), DirStatus::Exists));
        let r = DirTracker { dirs };
        proof {
            assert(r@ =~= seq![(Seq::<char>::empty(), DirStatusV::Exists)]);
            lemma_first_key(r@, Seq::<char>::empty(), 0);
        }
        r
    }

    fn find(&self, k: &str) -> (r: Option<usize>)
        ensures
            r is Some <==> first_key(self@, k@) is Some,
            r matches Some(i) ==> first_key(self@, k@) == Some(i as int) && i < self@.len(),
    {
        let ghost v = self@;
        let mut i: usize = 0;
        while i < self.dirs.len()
            invariant
                v == self@,
                v.len() == self.dirs@.len(),
                i <= v.len(),
                forall|j: int| 0 <= j < i ==> (#[trigger] v[j]).0 != k@,
            decreases v.len() - i,
        {
            assert(v[i as int].0 == self.dirs@[i as int].0@);
            if str_eq(self.dirs[i].0.as_str(), k) {
                proof {
                    lemma_first_key(v, k@, i as int);
                }
                return Some(i);
            }
            i = i + 1;
        }
        None
    }

    /// The status of directory `k`; see [`status_of`].
    pub fn is_known(&self, k: &str) -> (r: bool)
        ensures
            r == (status_of(self@, k@) is Some),
    {
        self.find(k).is_some()
    }

    /// Records that the archive has a directory entry at `path`: it is
    /// being made, with nothing waiting for it yet (whatever was known of
    /// it before).
    pub fn add_dir_entry(&mut self, path: &str)
        requires
            path@.len() > 0,
            tracker_wf(old(self)@),
        ensures
            final(self)@ == set_status(old(self)@, path@, DirStatusV::Pending(Seq::empty())),
            tracker_wf(final(self)@),
    {
        self.set(path, DirStatus::Pending(Vec::new()));
        proof {
            assert(items_view(Seq::<UnpackItem>::empty()) =~= Seq::<ItemV>::empty());
        }
    }

    fn set(&mut self, path: &str, st: DirStatus)
        requires
            path@.len() > 0,
            tracker_wf(old(self)@),
        ensures
            final(self)@ == set_status(old(self)@, path@, st@),
            tracker_wf(final(self)@),
    {
        let ghost v0 = self@;
        let ghost sv = st@;
        match self.find(path) {
            Some(i) => {
                self.dirs.set(i, (path.to_owned(), st));
                assert(self@ =~= v0.update(i as int, (path@, sv)));
            },
            None => {
                self.dirs.push((path.to_owned(), st));
                assert(self@ =~= v0.push((path@, sv)));
            },
        }
        proof {
            lemma_set_status_keeps_root(v0, path@, sv);
        }
    }
}

impl DirTracker {
    /// Hands in an entry; see [`place_spec`]. Returns the entry to write
    /// now, if any.
    pub fn place(&mut self, entry: UnpackItem) -> (r: Placement)
        requires
            tracker_wf(old(self)@),
            entry.path@.len() > 0,
        ensures
            (final(self)@, r@) == place_spec(old(self)@, entry@),
            tracker_wf(final(self)@),
    {
        let ghost goal = place_spec(self@, entry@);
        let mut item = entry;
        loop
            invariant
                tracker_wf(self@),
                item.path@.len() > 0,
                place_spec(self@, item@) == goal,
                goal == place_spec(old(self)@, entry@),
            decreases item.path@.len(),
        {
            let parent = parent_of(item.path.as_str());
            let ghost v0 = self@;
            let ghost iv = item@;
            proof {
                lemma_first_key_props(v0, Seq::<char>::empty());
                lemma_first_key_props(v0, parent@);
            }
            match self.find(parent.as_str()) {
                None => {
                    assert(parent@ != Seq::<char>::empty());
                    assert(parent@.len() > 0) by {
                        if parent@.len() == 0 {
                            assert(parent@ =~= Seq::<char>::empty());
                        }
                    }
                    let mut q: Vec<UnpackItem> = Vec::new();
                    q.push(item);
                    let ghost qv = items_view(q@);
                    assert(qv =~= seq![iv]);
                    self.dirs.push((parent.clone(), DirStatus::Pending(q)));
                    assert(self@ =~= v0.push((parent@, DirStatusV::Pending(seq![iv]))));
                    proof {
                        lemma_first_key_push(v0, Seq::<char>::empty(), (parent@, DirStatusV::Pending(seq![iv])));
                    }
                    item = UnpackItem { path: parent, kind: EntryKind::Dir, mode: 0o755u32 };
                },
                Some(i) => {
                    let (k, st) = self.dirs.remove(i);
                    match st {
                        DirStatus::Exists => {
                            self.dirs.insert(i, (k, DirStatus::Exists));
                            assert(self@ =~= v0);
                            return Placement::Submit(item);
                        },
                        DirStatus::Pending(mut l) => {
                            let ghost lv = items_view(l@);
                            l.push(item);
                            assert(items_view(l@) =~= lv.push(iv));
                            self.dirs.insert(i, (k, DirStatus::Pending(l)));
                            assert(self@ =~= v0.update(i as int, (parent@, DirStatusV::Pending(lv.push(iv)))));
                            proof {
                                if parent@ == Seq::<char>::empty() {
                                    assert(false);
                                }
                                lemma_first_key_kept(v0, Seq::<char>::empty(), i as int, (parent@, DirStatusV::Pending(lv.push(iv))));
                            }
                            return Placement::Queued;
                        },
                    }
                },
            }
        }
    }

    /// Records that the directory `path` has been made: it exists, and the
    /// entries that waited for it are returned, in the order they came, to
    /// be written.
    pub fn completed(&mut self, path: &str) -> (r: Vec<UnpackItem>)
        requires
            tracker_wf(old(self)@),
            status_of(old(self)@, path@) matches Some(DirStatusV::Pending(_)),
        ensures
            final(self)@ == set_status(old(self)@, path@, DirStatusV::Exists),
            status_of(old(self)@, path@) matches Some(DirStatusV::Pending(l)) && items_view(r@) == l,
            tracker_wf(final(self)@),
    {
        let ghost v0 = self@;
        proof {
            lemma_first_key_props(v0, path@);
            lemma_first_key_props(v0, Seq::<char>::empty());
        }
        let i = match self.find(path) {
            Some(i) => i,
            None => {
                assert(false);
                return Vec::new();
            },
        };
        let (k, st) = self.dirs.remove(i);
        match st {
            DirStatus::Pending(l) => {
                self.dirs.insert(i, (k, DirStatus::Exists));
                assert(self@ =~= v0.update(i as int, (path@, DirStatusV::Exists)));
                proof {
                    if path@.len() == 0 {
                        assert(path@ =~= Seq::<char>::empty());
                        assert(false);
                    }
                    lemma_set_status_keeps_root(v0, path@, DirStatusV::Exists);
                }
                l
            },
            DirStatus::Exists => {
                assert(false);
                Vec::new()
            },
        }
    }
}

/// An entry is handed back to be written only once its directory exists,
/// and handing entries in keeps the directory unpacked into existing.
pub proof fn law_submitted_only_into_existing_dirs(dirs: Seq<(Seq<char>, DirStatusV)>, item: ItemV)
    requires
        tracker_wf(dirs),
        item.0.len() > 0,
    ensures
        place_spec(dirs, item).1 matches PlacementV::Submit(x)
            ==> x.0.len() > 0 && status_of(place_spec(dirs, item).0, parent_path(x.0)) == Some(DirStatusV::Exists),
        tracker_wf(place_spec(dirs, item).0),
    decreases item.0.len(),
{
    let parent = parent_path(item.0);
    lemma_parent_shorter(item.0);
    lemma_first_key_props(dirs, parent);
    lemma_first_key_props(dirs, Seq::<char>::empty());
    match first_key(dirs, parent) {
        None => {
            assert(parent != Seq::<char>::empty());
            if parent.len() == 0 {
                assert(parent =~= Seq::<char>::empty());
            }
            let d2 = dirs.push((parent, DirStatusV::Pending(seq![item])));
            lemma_first_key_push(dirs, Seq::<char>::empty(), (parent, DirStatusV::Pending(seq![item])));
            law_submitted_only_into_existing_dirs(d2, (parent, EntryKind::Dir, 0o755u32));
        },
        Some(i) => {
            match dirs[i].1 {
                DirStatusV::Exists => {},
                DirStatusV::Pending(l) => {
                    assert(parent != Seq::<char>::empty());
                    lemma_first_key_kept(dirs, Seq::<char>::empty(), i, (parent, DirStatusV::Pending(l.push(item))));
                },
            }
        },
    }
}

/// An entry handed in is never lost: it is handed back at once, or it
/// waits last in the queue of its directory.
pub proof fn law_entry_written_or_queued(dirs: Seq<(Seq<char>, DirStatusV)>, item: ItemV)
    requires
        tracker_wf(dirs),
        item.0.len() > 0,
    ensures
        place_spec(dirs, item).1 == PlacementV::Submit(item)
            || (status_of(place_spec(dirs, item).0, parent_path(item.0)) matches Some(DirStatusV::Pending(l))
                && l.len() > 0 && l.last() == item),
{
    let parent = parent_path(item.0);
    lemma_parent_shorter(item.0);
    lemma_first_key_props(dirs, parent);
    lemma_first_key_props(dirs, Seq::<char>::empty());
    match first_key(dirs, parent) {
        None => {
            if parent.len() == 0 {
                assert(parent =~= Seq::<char>::empty());
            }
            let d2 = dirs.push((parent, DirStatusV::Pending(seq![item])));
            lemma_first_key_push_new(dirs, parent, DirStatusV::Pending(seq![item]));
            lemma_place_keeps_other(d2, (parent, EntryKind::Dir, 0o755u32), parent);
        },
        Some(i) => {
            match dirs[i].1 {
                DirStatusV::Exists => {},
                DirStatusV::Pending(l) => {
                    let d2 = dirs.update(i, (parent, DirStatusV::Pending(l.push(item))));
                    assert forall|t: int| 0 <= t < i implies (#[trigger] d2[t]).0 != parent by {
                        assert(d2[t] == dirs[t]);
                    }
                    lemma_first_key(d2, parent, i);
                },
            }
        },
    }
}

/// Adding an entry for a key that has none makes it the first.
proof fn lemma_first_key_push_new(m: Seq<(Seq<char>, DirStatusV)>, k: Seq<char>, v: DirStatusV)
    requires
        first_key(m, k) is None,
    ensures
        first_key(m.push((k, v)), k) == Some(m.len() as int),
{
    lemma_first_key_props(m, k);
    let m2 = m.push((k, v));
    assert forall|t: int| 0 <= t < m.len() implies (#[trigger] m2[t]).0 != k by {
        assert(m2[t] == m[t]);
    }
    lemma_first_key(m2, k, m.len() as int);
}

/// Handing in a directory leaves alone the status of a directory that it
/// lies inside of, when that directory is being made.
proof fn lemma_place_keeps_other(dirs: Seq<(Seq<char>, DirStatusV)>, item: ItemV, k: Seq<char>)
    requires
        item.0 == k,
        k.len() > 0,
        status_of(dirs, k) matches Some(DirStatusV::Pending(_)),
    ensures
        status_of(place_spec(dirs, item).0, k) == status_of(dirs, k),
    decreases item.0.len(),
{
    let parent = parent_path(item.0);
    lemma_parent_shorter(item.0);
    lemma_first_key_props(dirs, parent);
    lemma_first_key_props(dirs, k);
    assert(parent != k);
    match first_key(dirs, parent) {
        None => {
            let d2 = dirs.push((parent, DirStatusV::Pending(seq![item])));
            lemma_first_key_push(dirs, k, (parent, DirStatusV::Pending(seq![item])));
            lemma_place_chain(d2, (parent, EntryKind::Dir, 0o755u32), k);
        },
        Some(i) => {
            match dirs[i].1 {
                DirStatusV::Exists => {},
                DirStatusV::Pending(l) => {
                    assert(dirs[i].0 == parent);
                    lemma_first_key_kept(dirs, k, i, (parent, DirStatusV::Pending(l.push(item))));
                },
            }
        },
    }
}

/// Handing in a directory strictly shorter than `k` leaves the status of
/// `k` alone, when `k` is being made.
proof fn lemma_place_chain(dirs: Seq<(Seq<char>, DirStatusV)>, item: ItemV, k: Seq<char>)
    requires
        item.0.len() < k.len(),
        status_of(dirs, k) matches Some(DirStatusV::Pending(_)),
    ensures
        status_of(place_spec(dirs, item).0, k) == status_of(dirs, k),
    decreases item.0.len(),
{
    if item.0.len() > 0 {
        let parent = parent_path(item.0);
        lemma_parent_shorter(item.0);
        lemma_first_key_props(dirs, parent);
        lemma_first_key_props(dirs, k);
        assert(parent != k);
        match first_key(dirs, parent) {
            None => {
                let d2 = dirs.push((parent, DirStatusV::Pending(seq![item])));
                lemma_first_key_push(dirs, k, (parent, DirStatusV::Pending(seq![item])));
                lemma_place_chain(d2, (parent, EntryKind::Dir, 0o755u32), k);
            },
            Some(i) => {
                match dirs[i].1 {
                    DirStatusV::Exists => {},
                    DirStatusV::Pending(l) => {
                        assert(dirs[i].0 == parent);
                        lemma_first_key_kept(dirs, k, i, (parent, DirStatusV::Pending(l.push(item))));
                    },
                }
            },
        }
    }
}

/// How writing an entry went, as far as deciding goes.
#[derive(Debug, Clone, Copy, PartialEq, Eq, Structural)]
pub enum WriteOutcome {
    Done,
    AlreadyExists,
    Failed,
}

/// Whether a write counts as successful: it is, or it is a directory that
/// was there already.
pub fn write_succeeded(kind: EntryKind, outcome: WriteOutcome) -> (r: bool)
    ensures
        r == (outcome == WriteOutcome::Done || (outcome == WriteOutcome::AlreadyExists && kind == EntryKind::Dir)),
{
    match outcome {
        WriteOutcome::Done => true,
        WriteOutcome::AlreadyExists => matches!(kind, EntryKind::Dir),
        WriteOutcome::Failed => false,
    }
}

/// Setting the status of a directory other than the one unpacked into
/// keeps that one existing.
pub proof fn lemma_set_status_keeps_root(dirs: Seq<(Seq<char>, DirStatusV)>, k: Seq<char>, v: DirStatusV)
    requires
        tracker_wf(dirs),
        k.len() > 0,
    ensures
        tracker_wf(set_status(dirs, k, v)),
{
    let root = Seq::<char>::empty();
    lemma_first_key_props(dirs, root);
    lemma_first_key_props(dirs, k);
    match first_key(dirs, k) {
        Some(i) => {
            assert(dirs[i].0 == k);
            assert(k != root);
            lemma_first_key_kept(dirs, root, i, (k, v));
        },
        None => {
            lemma_first_key_push(dirs, root, (k, v));
        },
    }
}

/// Updating an entry after the first entry for `k`, or with another key,
/// keeps the first entry for `k`.
proof fn lemma_first_key_kept(m: Seq<(Seq<char>, DirStatusV)>, k: Seq<char>, i: int, e: (Seq<char>, DirStatusV))
    requires
        0 <= i < m.len(),
        first_key(m, k) is Some,
        first_key(m, k)->Some_0 != i,
        e.0 != k || first_key(m, k)->Some_0 < i,
    ensures
        first_key(m.update(i, e), k) == first_key(m, k),
{
    lemma_first_key_props(m, k);
    let j = first_key(m, k)->Some_0;
    let m2 = m.update(i, e);
    assert forall|t: int| 0 <= t < j implies (#[trigger] m2[t]).0 != k by {
        if t != i {
            assert(m2[t] == m[t]);
        }
    }
    assert(m2[j] == m[j]);
    lemma_first_key(m2, k, j);
}

/// Adding an entry at the end keeps the first entry for `k`.
proof fn lemma_first_key_push(m: Seq<(Seq<char>, DirStatusV)>, k: Seq<char>, e: (Seq<char>, DirStatusV))
    requires
        first_key(m, k) is Some,
    ensures
        first_key(m.push(e), k) == first_key(m, k),
{
    lemma_first_key_props(m, k);
    let j = first_key(m, k)->Some_0;
    let m2 = m.push(e);
    assert forall|t: int| 0 <= t < j implies (#[trigger] m2[t]).0 != k by {
        assert(m2[t] == m[t]);
    }
    assert(m2[j] == m[j]);
    lemma_first_key(m2, k, j);
}

} // verus!
