use rustup_dist::prefix::InstallPrefix;
use rustup_dist::transaction::{dest_abs_path, ChangedItem, RollbackOp, Transaction, TransactionError};

fn prefix() -> InstallPrefix {
    InstallPrefix::from("/prefix".to_string())
}

fn steps(tx: &Transaction) -> Vec<String> {
    tx.rollback_steps()
        .iter()
        .map(|op| match op {
            RollbackOp::RemoveFile(p) => format!("rm {p}"),
            RollbackOp::RemoveDir(p) => format!("rmdir {p}"),
            RollbackOp::Rename(a, b) => format!("mv {a} {b}"),
            RollbackOp::RemoveFileIfPresent(p) => format!("rm -f {p}"),
        })
        .collect()
}

#[test]
fn add_file_then_rollback() {
    let mut tx = Transaction::new(prefix());
    let dest = dest_abs_path(&tx.prefix, "c", "foo/bar", false).unwrap();
    assert_eq!(dest, "/prefix/foo/bar");
    tx.record_added_file("foo/bar");
    assert_eq!(steps(&tx), vec!["rm /prefix/foo/bar"]);
}

#[test]
fn copy_file() {
    let mut tx = Transaction::new(prefix());
    let dest = dest_abs_path(&tx.prefix, "c", "foo/bar", false).unwrap();
    assert_eq!(dest, "/prefix/foo/bar");
    tx.record_added_file("foo/bar");
    tx.commit();
    assert!(steps(&tx).is_empty());
}

#[test]
fn copy_file_then_rollback() {
    let mut tx = Transaction::new(prefix());
    tx.record_added_file("foo/bar");
    assert_eq!(steps(&tx), vec!["rm /prefix/foo/bar"]);
}

#[test]
fn remove_file() {
    let mut tx = Transaction::new(prefix());
    let from = tx.remove_file("c", "foo", "/tmp/x_file", true).unwrap();
    assert_eq!(from, "/prefix/foo");
    tx.commit();
    assert!(steps(&tx).is_empty());
}

#[test]
fn remove_file_then_rollback() {
    let mut tx = Transaction::new(prefix());
    tx.remove_file("c", "foo", "/tmp/x_file", true).unwrap();
    assert_eq!(steps(&tx), vec!["mv /tmp/x_file /prefix/foo"]);
}

#[test]
fn remove_file_that_not_exists() {
    let mut tx = Transaction::new(prefix());
    match tx.remove_file("c", "foo", "/tmp/x_file", false) {
        Err(TransactionError::ComponentMissingFile { name, path }) => {
            assert_eq!(name, "c");
            assert_eq!(path, "foo");
        }
        other => panic!("unexpected {other:?}"),
    }
    assert!(tx.changes.is_empty());
}

#[test]
fn remove_dir_that_not_exists() {
    let mut tx = Transaction::new(prefix());
    match tx.remove_dir("c", "foo", "/tmp/x_dir", false) {
        Err(TransactionError::ComponentMissingDir { name, path }) => {
            assert_eq!(name, "c");
            assert_eq!(path, "foo");
        }
        other => panic!("unexpected {other:?}"),
    }
    assert!(tx.changes.is_empty());
}

#[test]
fn remove_dir_then_rollback_moves_it_back() {
    let mut tx = Transaction::new(prefix());
    let (from, to) = tx.remove_dir("c", "foo", "/tmp/x_dir", true).unwrap();
    assert_eq!(from, "/prefix/foo");
    assert_eq!(to, "/tmp/x_dir/bk");
    assert_eq!(steps(&tx), vec!["mv /tmp/x_dir/bk /prefix/foo"]);
}

#[test]
fn write_file_then_rollback() {
    let mut tx = Transaction::new(prefix());
    dest_abs_path(&tx.prefix, "c", "foo/bar", false).unwrap();
    tx.record_added_file("foo/bar");
    assert_eq!(steps(&tx), vec!["rm /prefix/foo/bar"]);
}

#[test]
fn write_file_that_exists() {
    let tx = Transaction::new(prefix());
    match dest_abs_path(&tx.prefix, "c", "foo/bar", true) {
        Err(TransactionError::ComponentConflict { name, path }) => {
            assert_eq!(name, "c");
            assert_eq!(path, "foo/bar");
        }
        other => panic!("unexpected {other:?}"),
    }
}

#[test]
fn modify_file_that_not_exists() {
    let mut tx = Transaction::new(prefix());
    tx.modify_file("foo/bar", false, "/tmp/unused");
    tx.commit();
    assert!(steps(&tx).is_empty());
    assert!(matches!(&tx.changes[0], ChangedItem::ModifiedFile(p, None) if p == "foo/bar"));
}

#[test]
fn modify_file_that_not_exists_then_rollback() {
    let mut tx = Transaction::new(prefix());
    tx.modify_file("foo/bar", false, "/tmp/unused");
    assert_eq!(steps(&tx), vec!["rm -f /prefix/foo/bar"]);
}

#[test]
fn modify_file_that_exists_then_rollback_restores_copy() {
    let mut tx = Transaction::new(prefix());
    tx.modify_file("foo/bar", true, "/tmp/y_file");
    assert_eq!(steps(&tx), vec!["mv /tmp/y_file /prefix/foo/bar"]);
}

#[test]
fn rollback_undoes_latest_change_first() {
    let mut tx = Transaction::new(prefix());
    tx.record_added_dir("lib/rustlib");
    tx.record_added_file("bin/rustc");
    tx.remove_file("c", "bin/old", "/tmp/z_file", true).unwrap();
    assert_eq!(
        steps(&tx),
        vec!["mv /tmp/z_file /prefix/bin/old", "rm /prefix/bin/rustc", "rmdir /prefix/lib/rustlib"]
    );
}

fn do_multiple_op_transaction(rollback: bool) -> Transaction {
    let mut tx = Transaction::new(prefix());
    // copy_file
    tx.record_added_file("bin/rustc");
    tx.record_added_file("bin/cargo");
    // copy_dir
    tx.record_added_dir("doc");
    // modify_file of a file that does not exist yet
    tx.modify_file("lib/rustlib/components", false, "/tmp/m");
    // write_file
    tx.record_added_file("lib/rustlib/rustc-manifest.in");
    // remove_file
    tx.remove_file("", "bin/oldrustc", "/tmp/f", true).unwrap();
    // remove_dir
    tx.remove_dir("", "olddoc", "/tmp/d", true).unwrap();
    if !rollback {
        tx.commit();
    }
    tx
}

#[test]
fn multiple_op_transaction() {
    let tx = do_multiple_op_transaction(false);
    assert!(steps(&tx).is_empty());
}

#[test]
fn multiple_op_transaction_then_rollback() {
    let tx = do_multiple_op_transaction(true);
    assert_eq!(
        steps(&tx),
        vec![
            "mv /tmp/d/bk /prefix/olddoc",
            "mv /tmp/f /prefix/bin/oldrustc",
            "rm /prefix/lib/rustlib/rustc-manifest.in",
            "rm -f /prefix/lib/rustlib/components",
            "rmdir /prefix/doc",
            "rm /prefix/bin/cargo",
            "rm /prefix/bin/rustc",
        ]
    );
}
