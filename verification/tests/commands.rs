use rustup_dist::commands::{confirm_answer, list_lines, sort_texts, NO_OVERRIDES, NO_TOOLCHAINS};
use rustup_dist::commands::{
    command_requires_metadata, proxy_warning, recursion_limit_exceeded, subcommand_requires_metadata, RECURSION_LIMIT,
};

#[test]
fn metadata_is_needed_by_most_commands() {
    assert!(!command_requires_metadata(Some("upgrade-data"), None));
    assert!(!command_requires_metadata(Some("delete-data"), Some("-y")));
    assert!(!command_requires_metadata(Some("self"), Some("install")));
    assert!(command_requires_metadata(Some("self"), Some("uninstall")));
    assert!(!command_requires_metadata(None, None));
    assert!(command_requires_metadata(Some("default"), Some("nightly")));
    assert!(command_requires_metadata(Some("self"), None));

    assert!(!subcommand_requires_metadata(None));
    assert!(!subcommand_requires_metadata(Some("install")));
    assert!(!subcommand_requires_metadata(Some("uninstall")));
    assert!(!subcommand_requires_metadata(Some("upgrade-data")));
    assert!(subcommand_requires_metadata(Some("update")));
}

#[test]
fn recursion_limit() {
    assert!(!recursion_limit_exceeded(None, RECURSION_LIMIT));
    assert!(!recursion_limit_exceeded(Some("5"), RECURSION_LIMIT));
    assert!(recursion_limit_exceeded(Some("6"), RECURSION_LIMIT));
    assert!(!recursion_limit_exceeded(Some("lots"), RECURSION_LIMIT));
    assert!(!recursion_limit_exceeded(Some("-100"), RECURSION_LIMIT));
}

#[test]
fn proxy_warnings() {
    assert_eq!(
        proxy_warning(false, "/home/u/.multirust/bin"),
        "multirust is not installed for the current user: `rustc` invocations will not be proxied.\n\nFor more information, run  `multirust install --help`\n"
    );
    assert_eq!(
        proxy_warning(true, "/home/u/.multirust/bin"),
        "multirust is installed but is not set up correctly: `rustc` invocations will not be proxied.\n\nEnsure '/home/u/.multirust/bin' is on your PATH, and has priority.\n"
    );
}

#[test]
fn confirm_answers() {
    assert!(confirm_answer("y", false));
    assert!(confirm_answer("Y", false));
    assert!(!confirm_answer("n", true));
    assert!(!confirm_answer("N", true));
    assert!(confirm_answer("", true));
    assert!(!confirm_answer("", false));
    assert!(!confirm_answer("yes", true));
}

#[test]
fn listings_are_sorted() {
    let names: Vec<String> = ["stable-x86_64", "beta", "nightly-2016-01-01", "beta", "Ärger", "1.8.0", "nightly"]
        .iter()
        .map(|s| s.to_string())
        .collect();
    let mut expected = names.clone();
    expected.sort();
    assert_eq!(sort_texts(names.clone()), expected);
    assert_eq!(list_lines(names, NO_TOOLCHAINS), expected);
    assert_eq!(list_lines(vec![], NO_TOOLCHAINS), vec!["no installed toolchains"]);
    assert_eq!(list_lines(vec![], NO_OVERRIDES), vec!["no overrides"]);
}
