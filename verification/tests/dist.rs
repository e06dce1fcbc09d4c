use rustup_dist::dist::{component_lt, sorted_unique};
use rustup_dist::dist::{
    components_missing_msg, date_from_manifest_date, explicit_components, manifest_date_from_day,
    Attempt, Backtrack, BacktrackAction, DistError, BACKTRACK_LIMIT_DEFAULT,
};
use rustup_dist::errors::{component_unavailable_msg, suggest_message};
use rustup_dist::manifest::{
    Component, CompressionKind, HashedBinary, Manifest, ManifestVersion, Package, PackageTargets,
    Renamed, TargetedPackage,
};
use rustup_dist::toolchain::Profile;
use rustup_dist::triple::TargetTriple;

const HOST: &str = "x86_64-unknown-linux-gnu";

fn comp(pkg: &str, target: Option<&str>) -> Component {
    Component::new(pkg.to_string(), target.map(TargetTriple::new), false)
}

fn manifest() -> Manifest {
    let rust_target = TargetedPackage {
        bins: vec![HashedBinary { url: "u".to_string(), hash: "h".to_string(), compression: CompressionKind::GZip }],
        components: vec![
            comp("rustc", Some(HOST)),
            comp("cargo", Some(HOST)),
            comp("rust-std", Some(HOST)),
            comp("rust-src", None),
            comp("rls", Some(HOST)),
        ],
    };
    Manifest {
        manifest_version: ManifestVersion::V2,
        date: "2018-12-27".to_string(),
        packages: vec![(
            "rust".to_string(),
            Package { version: "1.31.0".to_string(), targets: PackageTargets::Targeted(vec![(TargetTriple::new(HOST), rust_target)]) },
        )],
        renames: vec![("rls-preview".to_string(), Renamed { to: "rls".to_string() })],
        reverse_renames: vec![("rls".to_string(), "rls-preview".to_string())],
        profiles: vec![(Profile::Minimal, vec!["rustc".to_string(), "cargo".to_string(), "rust-std".to_string()])],
    }
}

fn describe(cs: &[Component]) -> Vec<String> {
    cs.iter()
        .map(|c| format!("{}@{}", c.pkg, c.target.as_ref().map(|t| t.as_str().to_string()).unwrap_or_default()))
        .collect()
}

#[test]
fn explicit_components_are_sorted_and_unique() {
    let m = manifest();
    let names = vec!["rust-src".to_string(), "rls-preview".to_string(), "cargo".to_string()];
    let targets = vec!["wasm32-unknown-unknown".to_string()];
    let cs = explicit_components(&m, &TargetTriple::new(HOST), Some(Profile::Minimal), &names, &targets).unwrap();
    assert_eq!(
        describe(&cs),
        vec![
            format!("cargo@{HOST}"),
            format!("rls@{HOST}"),
            "rust-src@".to_string(),
            "rust-std@wasm32-unknown-unknown".to_string(),
            format!("rust-std@{HOST}"),
            format!("rustc@{HOST}"),
        ]
    );
}

#[test]
fn explicit_components_need_the_profile() {
    let m = manifest();
    let r = explicit_components(&m, &TargetTriple::new(HOST), Some(Profile::Complete), &vec![], &vec![]);
    assert!(r.is_err());
    let r = explicit_components(&m, &TargetTriple::new("i686-pc-windows-msvc"), None, &vec![], &vec![]);
    assert!(r.is_err());
    let r = explicit_components(&m, &TargetTriple::new(HOST), None, &vec![], &vec![]).unwrap();
    assert!(r.is_empty());
}

#[test]
fn missing_components_message_for_nightly() {
    let m = manifest();
    let msg = components_missing_msg(&vec![comp("rls", Some(HOST))], &m, "nightly-2018-12-27");
    assert!(msg.starts_with(&format!(
        "component 'rls-preview' for target '{HOST}' is unavailable for download for channel 'nightly-2018-12-27'\nSometimes not all components are available in any given nightly."
    )));
    assert!(msg.contains("    rustup toolchain add nightly-2018-12-27 --profile minimal\n"));
    assert!(msg.ends_with("    cargo +nightly-2018-12-27 build"));
}

#[test]
fn missing_components_message_for_stable_lists_descriptions() {
    let m = manifest();
    let msg = components_missing_msg(&vec![comp("rls", Some(HOST)), comp("rust-src", None)], &m, "stable");
    assert!(msg.starts_with(&format!(
        "some components are unavailable for download for channel 'stable': 'rls-preview' for target '{HOST}', 'rust-src'One or many components"
    )));
    assert!(msg.contains("    rustup component remove --toolchain stable <COMPONENT>...\n    rustup target remove --toolchain stable <TARGET>...\n"));
    let plain = components_missing_msg(&vec![comp("rust-src", None)], &m, "1.31.0");
    assert_eq!(plain, "component 'rust-src' is unavailable for download for channel '1.31.0'\n");
}

#[test]
fn unavailable_components_message() {
    let m = manifest();
    assert_eq!(
        component_unavailable_msg(&vec![comp("rls", Some(HOST))], &m, "stable"),
        format!("component 'rls-preview' for target '{HOST}' is unavailable for download for channel 'stable'\n")
    );
    assert_eq!(
        component_unavailable_msg(&vec![comp("rls", Some(HOST)), comp("rust-src", None)], &m, "nightly"),
        "some components are unavailable for download for channel 'nightly': 'rls-preview', 'rust-src'Sometimes not all components are available in any given nightly. "
    );
    assert_eq!(
        component_unavailable_msg(&vec![comp("rls", Some(HOST)), comp("rust-std", Some("wasm32-unknown-unknown"))], &m, "beta"),
        format!("some components are unavailable for download for channel 'beta': 'rls-preview' for target '{HOST}', 'rust-std' for target 'wasm32-unknown-unknown'")
    );
}

#[test]
fn suggestions() {
    assert_eq!(suggest_message(&Some("rustc".to_string())), "; did you mean 'rustc'?");
    assert_eq!(suggest_message(&None), "");
}

#[test]
fn dist_error_messages() {
    assert_eq!(DistError::MissingReleaseForToolchain("nightly-2018-12-27".to_string()).message(), "no release found for 'nightly-2018-12-27'");
    assert_eq!(DistError::InvalidOfficialName("x".to_string()).message(), "invalid toolchain name: 'x'");
    let e = DistError::ToolchainComponentsMissing(vec![comp("rust-src", None)], manifest(), "1.31.0".to_string());
    assert_eq!(e.message(), "component 'rust-src' is unavailable for download for channel '1.31.0'\n");
}

#[test]
fn manifest_dates_round_trip() {
    let d = date_from_manifest_date("2014-12-20").unwrap();
    assert_eq!(manifest_date_from_day(d).unwrap(), "2014-12-20");
    assert_eq!(manifest_date_from_day(d - 1).unwrap(), "2014-12-19");
    assert_eq!(date_from_manifest_date("2015-03-01").unwrap() - date_from_manifest_date("2015-02-28").unwrap(), 1);
    assert!(date_from_manifest_date("yesterday").is_none());
    assert!(date_from_manifest_date("").is_none());
}

#[test]
fn backtracking_goes_back_one_day_at_a_time() {
    let first = date_from_manifest_date("2014-12-20").unwrap();
    let installed = date_from_manifest_date("2018-12-20").unwrap();
    let today = date_from_manifest_date("2018-12-27").unwrap();
    let mut b = Backtrack::new(true, false, None, false, Some(installed), first);
    assert_eq!(b.limit, Some(BACKTRACK_LIMIT_DEFAULT));
    let (a, keep) = b.next(Attempt::ComponentsMissing, today);
    assert_eq!(a, BacktrackAction::TryDay(today - 1));
    assert!(keep);
    let (a, keep) = b.next(Attempt::ReleaseMissing, today - 1);
    assert_eq!(a, BacktrackAction::TryDay(today - 2));
    assert!(!keep);
    let (a, keep) = b.next(Attempt::ComponentsMissing, today - 2);
    assert_eq!(a, BacktrackAction::TryDay(today - 3));
    assert!(!keep);
    assert_eq!(b.limit, Some(BACKTRACK_LIMIT_DEFAULT - 2));
    let (a, _) = b.next(Attempt::Succeeded, today - 3);
    assert_eq!(a, BacktrackAction::ReturnThis);
}

#[test]
fn backtracking_stops_at_installed_nightly() {
    let first = date_from_manifest_date("2014-12-20").unwrap();
    let installed = date_from_manifest_date("2018-12-26").unwrap();
    let today = installed + 1;
    let mut b = Backtrack::new(true, false, None, false, Some(installed), first);
    assert_eq!(b.next(Attempt::ReleaseMissing, today).0, BacktrackAction::TryDay(installed));
    assert_eq!(b.next(Attempt::ReleaseMissing, installed).0, BacktrackAction::UpToDate);
    let mut b = Backtrack::new(true, false, None, false, Some(installed), first);
    b.next(Attempt::ComponentsMissing, today);
    assert_eq!(b.next(Attempt::ReleaseMissing, installed).0, BacktrackAction::ReturnFirstError);
}

#[test]
fn backtracking_respects_limit() {
    let first = date_from_manifest_date("2014-12-20").unwrap();
    let today = date_from_manifest_date("2018-12-27").unwrap();
    let mut b = Backtrack::new(true, false, Some(0), true, None, first);
    assert_eq!(b.limit, Some(1));
    assert_eq!(b.next(Attempt::ComponentsMissing, today), (BacktrackAction::ReturnFirstError, true));
    let mut b = Backtrack::new(true, false, Some(2), true, None, first);
    assert_eq!(b.next(Attempt::ComponentsMissing, today).0, BacktrackAction::TryDay(today - 1));
    assert_eq!(b.next(Attempt::ComponentsMissing, today - 1).0, BacktrackAction::ReturnFirstError);
}

#[test]
fn no_backtracking_for_dated_or_stable_toolchains() {
    let first = date_from_manifest_date("2014-12-20").unwrap();
    let day = date_from_manifest_date("2018-12-27").unwrap();
    let mut b = Backtrack::new(true, true, None, false, None, first);
    assert_eq!(b.limit, None);
    assert_eq!(b.next(Attempt::ComponentsMissing, day).0, BacktrackAction::ReturnThis);
    let mut b = Backtrack::new(false, false, None, false, None, first);
    assert_eq!(b.next(Attempt::ReleaseMissing, day).0, BacktrackAction::ReturnThis);
    let mut b = Backtrack::new(true, false, None, false, None, first);
    assert_eq!(b.next(Attempt::Failed, day).0, BacktrackAction::ReturnThis);
}

use rustup_dist::dist::{v1_manifest_urls, v1_version_installer};
use rustup_dist::toolchain::ToolchainDesc;

#[test]
fn v1_installers() {
    let d = ToolchainDesc::from_str("1.0.0-x86_64-unknown-linux-gnu").unwrap();
    assert_eq!(
        v1_version_installer(&d, "https://static.rust-lang.org/dist").unwrap(),
        "https://static.rust-lang.org/dist/rust-1.0.0-x86_64-unknown-linux-gnu.tar.gz"
    );
    let n = ToolchainDesc::from_str("nightly-2015-01-01-x86_64-unknown-linux-gnu").unwrap();
    assert_eq!(v1_version_installer(&n, "https://static.rust-lang.org/dist"), None);
    assert_eq!(
        v1_manifest_urls("https://static.rust-lang.org/dist/2015-01-01", "rust-nightly-x86_64-unknown-linux-gnu.tar.gz\nrust-nightly-i686-unknown-linux-gnu.tar.gz\n"),
        vec![
            "https://static.rust-lang.org/dist/2015-01-01/rust-nightly-x86_64-unknown-linux-gnu.tar.gz".to_string(),
            "https://static.rust-lang.org/dist/2015-01-01/rust-nightly-i686-unknown-linux-gnu.tar.gz".to_string(),
        ]
    );
}

#[test]
fn package_targets_get_mut_changes_in_place() {
    let pkg = |url: &str| TargetedPackage {
        bins: vec![HashedBinary { url: url.to_string(), hash: "h".to_string(), compression: CompressionKind::XZ }],
        components: vec![],
    };
    let mut targeted = PackageTargets::Targeted(vec![
        (TargetTriple::new("a-b-c"), pkg("one")),
        (TargetTriple::new(HOST), pkg("two")),
    ]);
    {
        let p = targeted.get_mut(&TargetTriple::new(HOST)).unwrap();
        assert_eq!(p.bins[0].url, "two");
        p.bins.clear();
    }
    assert!(targeted.get_mut(&TargetTriple::new("x-y-z")).is_none());
    let host = targeted.get(&TargetTriple::new(HOST)).unwrap();
    assert!(!host.available());
    assert!(targeted.get(&TargetTriple::new("a-b-c")).unwrap().available());

    let mut wild = PackageTargets::Wildcard(pkg("w"));
    wild.get_mut(&TargetTriple::new("any-thing")).unwrap().bins.clear();
    assert!(!wild.get(&TargetTriple::new(HOST)).unwrap().available());
}

#[test]
fn component_order_and_dedup() {
    assert!(component_lt(&comp("cargo", Some(HOST)), &comp("rustc", Some(HOST))));
    assert!(component_lt(&comp("rust-src", None), &comp("rust-src", Some(HOST))));
    assert!(!component_lt(&comp("rustc", Some(HOST)), &comp("rustc", Some(HOST))));
    let w = vec![comp("rustc", Some(HOST)), comp("cargo", Some(HOST)), comp("rustc", Some(HOST)), comp("rust-src", None)];
    assert_eq!(describe(&sorted_unique(&w)), vec![format!("cargo@{HOST}"), "rust-src@".to_string(), format!("rustc@{HOST}")]);
}

use rustup_dist::dist::{
    after_legacy_manifest_error, after_manifest_error, stray_update_hash, AfterManifestError,
    LegacyManifestFailure, ManifestFetchError,
};
use rustup_dist::notifications::Notification;

#[test]
fn failed_manifest_fetches_are_classified() {
    assert_eq!(after_manifest_error(ManifestFetchError::ChecksumFailed), AfterManifestError::NothingChanged);
    assert_eq!(after_manifest_error(ManifestFetchError::NotFound), AfterManifestError::TryLegacy);
    assert_eq!(after_manifest_error(ManifestFetchError::Other), AfterManifestError::Fail);

    let tc = ToolchainDesc::from_str("nightly-2015-01-01-x86_64-unknown-linux-gnu").unwrap();
    match after_legacy_manifest_error(ManifestFetchError::NotFound, &tc) {
        LegacyManifestFailure::NoRelease(e) => {
            assert!(matches!(&e, DistError::MissingReleaseForToolchain(n) if n == "nightly-2015-01-01"));
            assert_eq!(e.message(), "no release found for 'nightly-2015-01-01'");
        }
        other => panic!("unexpected {other:?}"),
    }
    assert!(matches!(after_legacy_manifest_error(ManifestFetchError::ChecksumFailed, &tc), LegacyManifestFailure::AsIs));
    match after_legacy_manifest_error(ManifestFetchError::Other, &tc) {
        LegacyManifestFailure::WithContext(c) => assert_eq!(c, "failed to download manifest for 'nightly-2015-01-01'"),
        other => panic!("unexpected {other:?}"),
    }
}

#[test]
fn a_stray_update_hash_is_reported_on_fresh_installs_only() {
    let n = stray_update_hash(true, Some("/h/update-hashes/nightly"), true).unwrap();
    assert!(matches!(&n, Notification::StrayHash(p) if p == "/h/update-hashes/nightly"));
    assert_eq!(n.message(), "removing stray hash found at '/h/update-hashes/nightly' in order to continue");
    assert!(stray_update_hash(false, Some("/h/x"), true).is_none());
    assert!(stray_update_hash(true, Some("/h/x"), false).is_none());
    assert!(stray_update_hash(true, None, true).is_none());
}
