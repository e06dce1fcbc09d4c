use rustup_dist::package::unpack_relpath;
use rustup_dist::unpack::{parent_of, write_succeeded, DirTracker, EntryKind, Placement, UnpackItem, WriteOutcome};

fn item(path: &str, kind: EntryKind) -> UnpackItem {
    UnpackItem { path: path.to_string(), kind, mode: 0o644 }
}

fn submitted(p: Placement) -> Option<String> {
    match p {
        Placement::Submit(i) => Some(i.path),
        Placement::Queued => None,
    }
}

#[test]
fn parents() {
    assert_eq!(parent_of("lib/rustlib/x"), "lib/rustlib");
    assert_eq!(parent_of("bin"), "");
    assert_eq!(parent_of("a/"), "a");
}

#[test]
fn entries_wait_for_their_directory() {
    let mut t = DirTracker::new();
    t.add_dir_entry("bin");
    assert_eq!(submitted(t.place(item("bin", EntryKind::Dir))), Some("bin".to_string()));
    assert_eq!(submitted(t.place(item("bin/rustc", EntryKind::File(1)))), None);
    assert_eq!(submitted(t.place(item("bin/cargo", EntryKind::File(2)))), None);
    let released: Vec<String> = t.completed("bin").into_iter().map(|i| i.path).collect();
    assert_eq!(released, vec!["bin/rustc", "bin/cargo"]);
    assert_eq!(submitted(t.place(item("bin/rustdoc", EntryKind::File(3)))), Some("bin/rustdoc".to_string()));
}

#[test]
fn missing_parents_are_made_first() {
    let mut t = DirTracker::new();
    let first = submitted(t.place(item("lib/rustlib/x86_64/file", EntryKind::File(7))));
    assert_eq!(first, Some("lib".to_string()));
    assert!(t.is_known("lib/rustlib/x86_64"));
    let after_lib: Vec<String> = t.completed("lib").into_iter().map(|i| i.path).collect();
    assert_eq!(after_lib, vec!["lib/rustlib"]);
    let after_rustlib: Vec<String> = t.completed("lib/rustlib").into_iter().map(|i| i.path).collect();
    assert_eq!(after_rustlib, vec!["lib/rustlib/x86_64"]);
    let after_target: Vec<String> = t.completed("lib/rustlib/x86_64").into_iter().map(|i| i.path).collect();
    assert_eq!(after_target, vec!["lib/rustlib/x86_64/file"]);
}

#[test]
fn entry_paths_drop_the_top_directory() {
    assert_eq!(unpack_relpath("rust-1.0/bin/rustc").unwrap(), Some("bin/rustc".to_string()));
    assert_eq!(unpack_relpath("rust-1.0").unwrap(), None);
    assert!(unpack_relpath("rust-1.0/../../x").is_err());
}

#[test]
fn existing_directories_are_fine() {
    assert!(write_succeeded(EntryKind::Dir, WriteOutcome::AlreadyExists));
    assert!(!write_succeeded(EntryKind::File(1), WriteOutcome::AlreadyExists));
    assert!(write_succeeded(EntryKind::File(1), WriteOutcome::Done));
    assert!(!write_succeeded(EntryKind::Dir, WriteOutcome::Failed));
}
