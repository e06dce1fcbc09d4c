//! A transactional record of the file system changes made while installing
//! or removing components. Each change is recorded once it is made; a
//! transaction that is not committed is undone by the roll-back steps, in
//! the reverse order of the changes. The file system work itself is done by
//! the caller, step by step, as the decisions here direct.

use vstd::prelude::*;
use crate::prefix::{join_path, path_join, InstallPrefix};

verus! {

/// A change made to an installation, with the path relative to its prefix
/// and, for what was removed or modified, where the old copy was kept.
#[derive(Debug)]
pub enum ChangedItem {
    AddedFile(String),
    AddedDir(String),
    RemovedFile(String, String),
    RemovedDir(String, String),
    ModifiedFile(String, Option<String>),
}

/// The abstract value of a [`ChangedItem`].
pub enum ChangedItemV {
    AddedFile(Seq<char>),
    AddedDir(Seq<char>),
    RemovedFile(Seq<char>, Seq<char>),
    RemovedDir(Seq<char>, Seq<char>),
    ModifiedFile(Seq<char>, Option<Seq<char>>),
}

impl View for ChangedItem {
    type V = ChangedItemV;

    open spec fn view(&self) -> ChangedItemV {
        match self {
            ChangedItem::AddedFile(p) => ChangedItemV::AddedFile(p@),
            ChangedItem::AddedDir(p) => ChangedItemV::AddedDir(p@),
            ChangedItem::RemovedFile(p, t) => ChangedItemV::RemovedFile(p@, t@),
            ChangedItem::RemovedDir(p, t) => ChangedItemV::RemovedDir(p@, t@),
            ChangedItem::ModifiedFile(p, t) => ChangedItemV::ModifiedFile(p@, match t {
                Some(x) => Some(x@),
                None => None,
            }),
        }
    }
}

/// A file system step that undoes a change.
#[derive(Debug)]
pub enum RollbackOp {
    /// Remove the file at this path.
    RemoveFile(String),
    /// Remove the directory at this path, with its contents.
    RemoveDir(String),
    /// Move the first path to the second.
    Rename(String, String),
    /// Remove the file at this path if there is one.
    RemoveFileIfPresent(String),
}

/// The abstract value of a [`RollbackOp`].
pub enum RollbackOpV {
    RemoveFile(Seq<char>),
    RemoveDir(Seq<char>),
    Rename(Seq<char>, Seq<char>),
    RemoveFileIfPresent(Seq<char>),
}

impl View for RollbackOp {
    type V = RollbackOpV;

    open spec fn view(&self) -> RollbackOpV {
        match self {
            RollbackOp::RemoveFile(p) => RollbackOpV::RemoveFile(p@),
            RollbackOp::RemoveDir(p) => RollbackOpV::RemoveDir(p@),
            RollbackOp::Rename(a, b) => RollbackOpV::Rename(a@, b@),
            RollbackOp::RemoveFileIfPresent(p) => RollbackOpV::RemoveFileIfPresent(p@),
        }
    }
}

/// The name under which a removed directory is kept inside its backup
/// directory.
pub open spec fn backup_entry() -> Seq<char> {
    "bk"@
}

/// How a change is undone, for the installation at `prefix`: an added file
/// or directory is removed; a removed or modified file is moved back from
/// its copy; a removed directory is moved back from inside its backup
/// directory; a file modified that did not exist before is removed if
/// present.
pub open spec fn roll_back_spec(prefix: Seq<char>, item: ChangedItemV) -> RollbackOpV {
    match item {
        ChangedItemV::AddedFile(p) => RollbackOpV::RemoveFile(path_join(prefix, p)),
        ChangedItemV::AddedDir(p) => RollbackOpV::RemoveDir(path_join(prefix, p)),
        ChangedItemV::RemovedFile(p, t) => RollbackOpV::Rename(t, path_join(prefix, p)),
        ChangedItemV::ModifiedFile(p, Some(t)) => RollbackOpV::Rename(t, path_join(prefix, p)),
        ChangedItemV::RemovedDir(p, t) => RollbackOpV::Rename(path_join(t, backup_entry()), path_join(prefix, p)),
        ChangedItemV::ModifiedFile(p, None) => RollbackOpV::RemoveFileIfPresent(path_join(prefix, p)),
    }
}

impl ChangedItem {
    /// The step that undoes this change; see [`roll_back_spec`].
    pub fn roll_back(&self, prefix: &InstallPrefix) -> (r: RollbackOp)
        ensures
            r@ == roll_back_spec(prefix@, self@),
    {
        match self {
            ChangedItem::AddedFile(p) => RollbackOp::RemoveFile(prefix.abs_path(p.as_str())),
            ChangedItem::AddedDir(p) => RollbackOp::RemoveDir(prefix.abs_path(p.as_str())),
            ChangedItem::RemovedFile(p, t) => RollbackOp::Rename(t.clone(), prefix.abs_path(p.as_str())),
            ChangedItem::ModifiedFile(p, Some(t)) => RollbackOp::Rename(t.clone(), prefix.abs_path(p.as_str())),
            ChangedItem::RemovedDir(p, t) => {
                proof {
                    reveal_strlit("bk");
                }
                RollbackOp::Rename(join_path(t.as_str(), "bk"), prefix.abs_path(p.as_str()))
            },
            ChangedItem::ModifiedFile(p, None) => RollbackOp::RemoveFileIfPresent(prefix.abs_path(p.as_str())),
        }
    }
}

/// Why a change could not be made.
#[derive(Debug)]
pub enum TransactionError {
    /// Something is already at the destination.
    ComponentConflict { name: String, path: String },
    /// The file to remove does not exist.
    ComponentMissingFile { name: String, path: String },
    /// The directory to remove does not exist.
    ComponentMissingDir { name: String, path: String },
}

/// Whether a path is relative (does not start at the root).
pub open spec fn is_relative(p: Seq<char>) -> bool {
    !(p.len() > 0 && p[0] == '/')
}

/// Where something new for `component` goes: the absolute path of
/// `relpath`, unless something already exists there (`exists`), which is
/// a conflict.
pub fn dest_abs_path(prefix: &InstallPrefix, component: &str, relpath: &str, exists: bool) -> (r: Result<String, TransactionError>)
    ensures
        r is Err <==> exists,
        r matches Ok(p) ==> p@ == path_join(prefix@, relpath@),
        r matches Err(TransactionError::ComponentConflict { name, path }) ==> name@ == component@ && path@ == relpath@,
        r is Err ==> r matches Err(TransactionError::ComponentConflict { .. }),
{
    if exists {
        Err(TransactionError::ComponentConflict { name: component.to_owned(), path: relpath.to_owned() })
    } else {
        Ok(prefix.abs_path(relpath))
    }
}

/// A transaction over an installation: the changes made so far, in order,
/// and whether it was committed.
#[derive(Debug)]
pub struct Transaction {
    pub prefix: InstallPrefix,
    pub changes: Vec<ChangedItem>,
    pub committed: bool,
}

/// The abstract values of a list of changes.
pub open spec fn changes_view(v: Seq<ChangedItem>) -> Seq<ChangedItemV> {
    v.map_values(|c: ChangedItem| c@)
}

/// The steps that undo the changes, the last change first; none once
/// committed.
pub open spec fn rollback_spec(prefix: Seq<char>, changes: Seq<ChangedItemV>, committed: bool) -> Seq<RollbackOpV> {
    if committed {
        Seq::empty()
    } else {
        Seq::new(changes.len(), |i: int| roll_back_spec(prefix, changes[changes.len() - 1 - i]))
    }
}

impl Transaction {
    /// A transaction with no change, not committed.
    pub fn new(prefix: InstallPrefix) -> (r: Self)
        ensures
            r.prefix@ == prefix@,
            r.changes@.len() == 0,
            !r.committed,
    {
        Transaction { prefix, changes: Vec::new(), committed: false }
    }

    /// Marks the transaction as successful: nothing will be undone.
    pub fn commit(&mut self)
        ensures
            final(self).committed,
            final(self).prefix@ == old(self).prefix@,
            changes_view(final(self).changes@) == changes_view(old(self).changes@),
    {
        self.committed = true;
    }

    fn change(&mut self, item: ChangedItem)
        ensures
            final(self).prefix@ == old(self).prefix@,
            final(self).committed == old(self).committed,
            changes_view(final(self).changes@) == changes_view(old(self).changes@).push(item@),
    {
        let ghost c0 = self.changes@;
        self.changes.push(item);
        assert(changes_view(self.changes@) =~= changes_view(c0).push(item@));
    }

    /// Records a file added (created, copied or moved in) at `relpath`.
    pub fn record_added_file(&mut self, relpath: &str)
        requires
            is_relative(relpath@),
        ensures
            final(self).prefix@ == old(self).prefix@,
            final(self).committed == old(self).committed,
            changes_view(final(self).changes@) == changes_view(old(self).changes@).push(ChangedItemV::AddedFile(relpath@)),
    {
        self.change(ChangedItem::AddedFile(relpath.to_owned()));
    }

    /// Records a directory added (copied or moved in) at `relpath`.
    pub fn record_added_dir(&mut self, relpath: &str)
        requires
            is_relative(relpath@),
        ensures
            final(self).prefix@ == old(self).prefix@,
            final(self).committed == old(self).committed,
            changes_view(final(self).changes@) == changes_view(old(self).changes@).push(ChangedItemV::AddedDir(relpath@)),
    {
        self.change(ChangedItem::AddedDir(relpath.to_owned()));
    }

    /// Decides the removal of the file at `relpath` for `component`: fails
    /// when it does not exist (`exists`); otherwise records it as kept at
    /// `backup` and returns the path to move there.
    pub fn remove_file(&mut self, component: &str, relpath: &str, backup: &str, exists: bool) -> (r: Result<String, TransactionError>)
        requires
            is_relative(relpath@),
        ensures
            r is Err <==> !exists,
            r matches Err(e) ==> e matches TransactionError::ComponentMissingFile { name, path } && name@ == component@ && path@ == relpath@,
            r is Err ==> changes_view(final(self).changes@) == changes_view(old(self).changes@),
            r matches Ok(p) ==> p@ == path_join(old(self).prefix@, relpath@)
                && changes_view(final(self).changes@) == changes_view(old(self).changes@).push(ChangedItemV::RemovedFile(relpath@, backup@)),
            final(self).prefix@ == old(self).prefix@,
            final(self).committed == old(self).committed,
    {
        if !exists {
            return Err(TransactionError::ComponentMissingFile { name: component.to_owned(), path: relpath.to_owned() });
        }
        let abs = self.prefix.abs_path(relpath);
        self.change(ChangedItem::RemovedFile(relpath.to_owned(), backup.to_owned()));
        Ok(abs)
    }

    /// Decides the removal of the directory at `relpath` for `component`:
    /// fails when it does not exist (`exists`); otherwise records it as
    /// kept in the backup directory `backup` and returns the path to move
    /// and where to move it.
    pub fn remove_dir(&mut self, component: &str, relpath: &str, backup: &str, exists: bool) -> (r: Result<(String, String), TransactionError>)
        requires
            is_relative(relpath@),
        ensures
            r is Err <==> !exists,
            r matches Err(e) ==> e matches TransactionError::ComponentMissingDir { name, path } && name@ == component@ && path@ == relpath@,
            r is Err ==> changes_view(final(self).changes@) == changes_view(old(self).changes@),
            r matches Ok((from, to)) ==> from@ == path_join(old(self).prefix@, relpath@) && to@ == path_join(backup@, backup_entry())
                && changes_view(final(self).changes@) == changes_view(old(self).changes@).push(ChangedItemV::RemovedDir(relpath@, backup@)),
            final(self).prefix@ == old(self).prefix@,
            final(self).committed == old(self).committed,
    {
        if !exists {
            return Err(TransactionError::ComponentMissingDir { name: component.to_owned(), path: relpath.to_owned() });
        }
        let abs = self.prefix.abs_path(relpath);
        proof {
            reveal_strlit("bk");
        }
        let to = join_path(backup, "bk");
        self.change(ChangedItem::RemovedDir(relpath.to_owned(), backup.to_owned()));
        Ok((abs, to))
    }

    /// Records that the file at `relpath` is about to be changed: when it
    /// exists (`is_file`), a copy is kept at `backup` (the caller copies
    /// it there); otherwise it will be removed on roll-back.
    pub fn modify_file(&mut self, relpath: &str, is_file: bool, backup: &str)
        requires
            is_relative(relpath@),
        ensures
            changes_view(final(self).changes@) == changes_view(old(self).changes@).push(
                ChangedItemV::ModifiedFile(relpath@, if is_file { Some(backup@) } else { None }),
            ),
            final(self).prefix@ == old(self).prefix@,
            final(self).committed == old(self).committed,
    {
        if is_file {
            self.change(ChangedItem::ModifiedFile(relpath.to_owned(), Some(backup.to_owned())));
        } else {
            self.change(ChangedItem::ModifiedFile(relpath.to_owned(), None));
        }
    }

    /// The steps that undo the transaction when it is dropped: none when
    /// committed, else one per change, the last change first; see
    /// [`rollback_spec`].
    pub fn rollback_steps(&self) -> (r: Vec<RollbackOp>)
        ensures
            r@.map_values(|o: RollbackOp| o@) == rollback_spec(self.prefix@, changes_view(self.changes@), self.committed),
    {
        let mut out: Vec<RollbackOp> = Vec::new();
        if self.committed {
            assert(out@.map_values(|o: RollbackOp| o@) =~= Seq::<RollbackOpV>::empty());
            return out;
        }
        let ghost cs = changes_view(self.changes@);
        let n = self.changes.len();
        let mut k: usize = 0;
        while k < n
            invariant
                n == cs.len(),
                cs == changes_view(self.changes@),
                !self.committed,
                k <= n,
                out@.len() == k,
                forall|i: int| 0 <= i < k ==> (#[trigger] out@[i])@ == roll_back_spec(self.prefix@, cs[n - 1 - i]),
            decreases n - k,
        {
            let op = self.changes[n - 1 - k].roll_back(&self.prefix);
            out.push(op);
            k = k + 1;
        }
        assert(out@.map_values(|o: RollbackOp| o@) =~= rollback_spec(self.prefix@, cs, false));
        out
    }
}

/// Committing a transaction leaves nothing to undo, whatever changes it
/// made.
pub proof fn law_commit_leaves_nothing_to_undo(prefix: Seq<char>, changes: Seq<ChangedItemV>)
    ensures
        rollback_spec(prefix, changes, true).len() == 0,
{
}

/// Rolling back undoes the changes last first: the first step undoes the
/// latest change, and a change recorded after others is undone before
/// them.
pub proof fn law_rollback_reverses_changes(prefix: Seq<char>, changes: Seq<ChangedItemV>, item: ChangedItemV)
    ensures
        rollback_spec(prefix, changes.push(item), false)
            == seq![roll_back_spec(prefix, item)] + rollback_spec(prefix, changes, false),
{
    let a = rollback_spec(prefix, changes.push(item), false);
    let b = seq![roll_back_spec(prefix, item)] + rollback_spec(prefix, changes, false);
    assert forall|i: int| 0 <= i < a.len() implies a[i] == b[i] by {
        if i > 0 {
            assert(changes.push(item)[changes.len() - i] == changes[changes.len() - 1 - (i - 1)]);
        }
    }
    assert(a =~= b);
}

/// Undoing an added or moved-in file removes the file at its place in the
/// installation, and undoing the removal of a file moves its copy back to
/// the same place.
pub proof fn law_roll_back_restores_place(prefix: Seq<char>, relpath: Seq<char>, backup: Seq<char>)
    ensures
        roll_back_spec(prefix, ChangedItemV::AddedFile(relpath)) == RollbackOpV::RemoveFile(path_join(prefix, relpath)),
        roll_back_spec(prefix, ChangedItemV::RemovedFile(relpath, backup)) == RollbackOpV::Rename(backup, path_join(prefix, relpath)),
{
}

} // verus!
