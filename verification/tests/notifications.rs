use rustup_dist::manifest::{Component, Manifest, ManifestVersion};
use rustup_dist::notifications::{Notification, NotificationLevel};
use rustup_dist::toolchain::{Channel, ToolchainDesc};
use rustup_dist::triple::TargetTriple;

const HOST: &str = "x86_64-unknown-linux-gnu";

fn triple(t: &str) -> TargetTriple {
    TargetTriple::new(t)
}

fn manifest_with_rename() -> Manifest {
    Manifest {
        manifest_version: ManifestVersion::V2,
        date: "2016-02-01".to_string(),
        packages: vec![],
        renames: vec![],
        reverse_renames: vec![("rls".to_string(), "rls-preview".to_string())],
        profiles: vec![],
    }
}

#[test]
fn component_actions_name_a_foreign_target_only() {
    let n = Notification::DownloadingComponent("rustc".to_string(), triple(HOST), Some(triple(HOST)));
    assert_eq!(n.message(), "downloading component 'rustc'");
    let n = Notification::InstallingComponent("rust-std".to_string(), triple(HOST), Some(triple("wasm32-unknown-unknown")));
    assert_eq!(n.message(), "installing component 'rust-std' for 'wasm32-unknown-unknown'");
    let n = Notification::RemovingComponent("rust-src".to_string(), triple(HOST), None);
    assert_eq!(n.message(), "removing component 'rust-src'");
    let n = Notification::RemovingOldComponent("cargo".to_string(), triple(HOST), Some(triple("i686-unknown-linux-gnu")));
    assert_eq!(n.message(), "removing previous version of component 'cargo' for 'i686-unknown-linux-gnu'");
    assert_eq!(n.level(), NotificationLevel::Info);
}

#[test]
fn plain_notifications_read_as_expected() {
    assert_eq!(Notification::ComponentAlreadyInstalled("cargo".to_string()).message(), "component cargo is up to date");
    assert_eq!(
        Notification::CantReadUpdateHash("/h/update-hash".to_string()).message(),
        "can't read update hash file: '/h/update-hash', can't skip update..."
    );
    assert_eq!(Notification::NoUpdateHash("/h/x".to_string()).message(), "no update hash at: '/h/x'");
    assert_eq!(Notification::DownloadedManifest("2016-02-01".to_string(), Some("1.8.0".to_string())).message(), "latest update on 2016-02-01, rust version 1.8.0");
    assert_eq!(Notification::DownloadedManifest("2016-02-01".to_string(), None).message(), "latest update on 2016-02-01, no rust version");
    assert_eq!(Notification::DownloadingManifest("nightly".to_string()).message(), "syncing channel updates for 'nightly'");
    assert_eq!(Notification::ComponentUnavailable("miri".to_string(), Some(triple(HOST))).message(), "component 'miri' is not available on target 'x86_64-unknown-linux-gnu'");
    assert_eq!(Notification::ComponentUnavailable("miri".to_string(), None).message(), "component 'miri' is not available");
    assert_eq!(Notification::StrayHash("/h/s".to_string()).message(), "removing stray hash found at '/h/s' in order to continue");
    assert_eq!(Notification::NonFatalError("disk full".to_string()).message(), "disk full");
    assert_eq!(Notification::RetryingDownload("https://x/y".to_string()).message(), "retrying download for 'https://x/y'");
    assert_eq!(Notification::DownloadingLegacyManifest.message(), "manifest not found. trying legacy manifest");
    assert_eq!(Notification::Extracting("/a".to_string(), "/b".to_string()).message(), "extracting...");
}

#[test]
fn notification_levels() {
    assert_eq!(Notification::ChecksumValid("u".to_string()).level(), NotificationLevel::Debug);
    assert_eq!(Notification::FileAlreadyDownloaded.level(), NotificationLevel::Debug);
    assert_eq!(Notification::RollingBack.level(), NotificationLevel::Info);
    assert_eq!(Notification::CachedFileChecksumFailed.level(), NotificationLevel::Warn);
    assert_eq!(Notification::SignatureInvalid("u".to_string()).level(), NotificationLevel::Warn);
    assert_eq!(Notification::NonFatalError("e".to_string()).level(), NotificationLevel::Error);
}

#[test]
fn skipped_nightly_lists_missing_components() {
    let tc = ToolchainDesc { channel: Channel::Nightly, date: None, target: triple(HOST) };
    let one = vec![Component::new("rls".to_string(), Some(triple(HOST)), false)];
    let n = Notification::SkippingNightlyMissingComponent(tc.clone(), manifest_with_rename(), one);
    assert_eq!(n.message(), "skipping nightly which is missing installed component 'rls-preview'");
    let two = vec![
        Component::new("rls".to_string(), Some(triple(HOST)), false),
        Component::new("rust-std".to_string(), Some(triple("wasm32-unknown-unknown")), false),
    ];
    let n = Notification::SkippingNightlyMissingComponent(tc, manifest_with_rename(), two);
    assert_eq!(
        n.message(),
        "skipping nightly which is missing installed components 'rls-preview', 'rust-std-wasm32-unknown-unknown'"
    );
}
