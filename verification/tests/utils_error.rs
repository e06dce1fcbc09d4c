use rustup_dist::utils_error::UtilsError;

fn s(x: &str) -> String {
    x.to_string()
}

#[test]
fn utils_error_messages() {
    assert_eq!(UtilsError::LocatingHome.message(), "could not locate home directory");
    assert_eq!(
        UtilsError::ReadingFile { name: s("config"), path: s("/a/b"), error: s("not found") }.message(),
        "could not read config file: '/a/b' (not found)"
    );
    assert_eq!(
        UtilsError::RenamingDirectory { name: s("tmp"), src: s("/x"), dest: s("/y"), error: s("busy") }.message(),
        "could not rename tmp directory from '/x' to '/y' (busy)"
    );
    assert_eq!(
        UtilsError::DownloadingFile { url: s("https://h/f"), path: s("/d/f"), error: s("404") }.message(),
        "could not download file from 'https://h/f' to '/d/f' (404)"
    );
    assert_eq!(UtilsError::InvalidUrl { url: s("::") }.message(), "invalid url: '::'");
    assert_eq!(UtilsError::RunningCommand { name: s("gpg"), error: s("exit 2") }.message(), "command failed: 'gpg' (exit 2)");
    assert_eq!(
        UtilsError::RemovingDirectory { name: s("toolchain"), path: s("/t"), error: s("denied") }.message(),
        "could not remove toolchain directory: '/t (denied)'"
    );
    assert_eq!(UtilsError::OpeningBrowser { error: None }.message(), "could not open browser: no browser installed");
    assert_eq!(UtilsError::OpeningBrowser { error: Some(s("no display")) }.message(), "could not open browser: no display");
    assert_eq!(
        UtilsError::SettingPermissions { path: s("/bin/x"), error: s("ro") }.message(),
        "failed to set permissions for: '/bin/x (ro)'"
    );
    assert_eq!(
        UtilsError::LinkingDirectory { src: s("/s"), dest: s("/d"), error: s("e") }.message(),
        "could not create symlink from '/s' to '/d' (e)"
    );
}

#[test]
fn utils_error_descriptions_and_causes() {
    assert_eq!(UtilsError::FilteringFile { name: s("n"), src: s("a"), dest: s("b"), error: s("e") }.description(), "could not copy  file");
    assert_eq!(UtilsError::OpeningBrowser { error: None }.description(), "could not open browser: no browser installed");
    assert_eq!(UtilsError::OpeningBrowser { error: Some(s("x")) }.description(), "could not open browser");
    assert_eq!(UtilsError::NotAFile { path: s("/p") }.cause(), None);
    assert_eq!(UtilsError::LocatingHome.cause(), None);
    assert_eq!(UtilsError::CopyingFile { src: s("a"), dest: s("b"), error: s("full") }.cause(), Some(&s("full")));
    assert_eq!(UtilsError::OpeningBrowser { error: Some(s("x")) }.cause(), Some(&s("x")));
}
