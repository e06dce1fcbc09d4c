use rustup_dist::manifest::{
    Component, CompressionKind, Config, ConfigVersion, HashedBinary, Manifest, ManifestError,
    ManifestVersion, Package, PackageTargets, Renamed, TargetedPackage,
};
use rustup_dist::manifestation::{
    download_url, Changes, ChangesError, Manifestation, Update, UpdateError, UpdatePlan, V1Error,
};
use rustup_dist::prefix::InstallPrefix;
use rustup_dist::toolchain::Profile;
use rustup_dist::triple::TargetTriple;

const HOST: &str = "x86_64-unknown-linux-gnu";

fn triple(t: &str) -> TargetTriple {
    TargetTriple::new(t)
}

fn comp(pkg: &str, target: Option<&str>) -> Component {
    Component::new(pkg.to_string(), target.map(triple), false)
}

fn bin(name: &str) -> HashedBinary {
    HashedBinary {
        url: format!("https://static.rust-lang.org/dist/{name}.tar.xz"),
        hash: format!("hash-of-{name}"),
        compression: CompressionKind::XZ,
    }
}

fn targeted(name: &str, available: bool, components: Vec<Component>) -> TargetedPackage {
    TargetedPackage { bins: if available { vec![bin(name)] } else { vec![] }, components }
}

fn per_target(name: &str, available: bool) -> Package {
    Package {
        version: "1.0.0".to_string(),
        targets: PackageTargets::Targeted(vec![(triple(HOST), targeted(&format!("{name}-{HOST}"), available, vec![]))]),
    }
}

/// A release with `rustc`, `cargo` and the standard library as required
/// components, and `rust-src`, `rls` (renamed from `rls-preview`) and an
/// unavailable `miri` as extensions.
fn manifest(date: &str, miri_available: bool) -> Manifest {
    let rust_components = vec![
        comp("rustc", Some(HOST)),
        comp("cargo", Some(HOST)),
        comp("rust-std", Some(HOST)),
    ];
    let mut rust_target = targeted(&format!("rust-{HOST}"), true, rust_components);
    rust_target.components.push(Component::new("rust-src".to_string(), None, true));
    rust_target.components.push(Component::new("rls".to_string(), Some(triple(HOST)), true));
    rust_target.components.push(Component::new("miri".to_string(), Some(triple(HOST)), true));
    Manifest {
        manifest_version: ManifestVersion::V2,
        date: date.to_string(),
        packages: vec![
            ("rust".to_string(), Package {
                version: "1.0.0".to_string(),
                targets: PackageTargets::Targeted(vec![(triple(HOST), rust_target)]),
            }),
            ("rustc".to_string(), per_target("rustc", true)),
            ("cargo".to_string(), per_target("cargo", true)),
            ("rust-std".to_string(), per_target("rust-std", true)),
            ("rls".to_string(), per_target("rls", true)),
            ("miri".to_string(), per_target("miri", miri_available)),
            ("rust-src".to_string(), Package {
                version: "1.0.0".to_string(),
                targets: PackageTargets::Wildcard(targeted("rust-src", true, vec![])),
            }),
        ],
        renames: vec![("rls-preview".to_string(), Renamed { to: "rls".to_string() })],
        reverse_renames: vec![("rls".to_string(), "rls-preview".to_string())],
        profiles: vec![
            (Profile::Minimal, vec!["rustc".to_string(), "cargo".to_string(), "rust-std".to_string()]),
            (Profile::Default, vec!["rustc".to_string(), "cargo".to_string(), "rust-std".to_string()]),
        ],
    }
}

fn installation() -> Manifestation {
    Manifestation::open(InstallPrefix::from("/opt/toolchain".to_string()), triple(HOST))
}

fn names(cs: &[Component]) -> Vec<String> {
    cs.iter().map(|c| c.pkg.clone()).collect()
}

fn changes(add: Vec<Component>, remove: Vec<Component>) -> Changes {
    Changes { explicit_add_components: add, remove_components: remove }
}

fn config(cs: Vec<Component>) -> Option<Config> {
    Some(Config { config_version: ConfigVersion::V1, components: cs })
}

fn required() -> Vec<Component> {
    vec![comp("rustc", Some(HOST)), comp("cargo", Some(HOST)), comp("rust-std", Some(HOST))]
}

#[test]
fn fresh_install_downloads_every_requested_component() {
    let m = manifest("2016-02-01", true);
    let plan = installation()
        .plan_update(&m, &changes(required(), vec![]), &None, false, &None, false, "nightly")
        .unwrap();
    match plan {
        UpdatePlan::Changed { uninstall, downloads, skipped, final_components } => {
            assert!(uninstall.is_empty());
            assert!(skipped.is_empty());
            assert_eq!(names(&final_components), vec!["rustc", "cargo", "rust-std"]);
            let urls: Vec<String> = downloads.iter().map(|(_, b)| b.url.clone()).collect();
            assert_eq!(
                urls,
                vec![
                    format!("https://static.rust-lang.org/dist/rustc-{HOST}.tar.xz"),
                    format!("https://static.rust-lang.org/dist/cargo-{HOST}.tar.xz"),
                    format!("https://static.rust-lang.org/dist/rust-std-{HOST}.tar.xz"),
                ]
            );
        }
        UpdatePlan::Unchanged => panic!("expected changes"),
    }
}

#[test]
fn update_makes_no_changes_for_identical_manifest() {
    let m = manifest("2016-02-01", true);
    let old = Some(manifest("2016-02-01", true));
    let plan = installation()
        .plan_update(&m, &changes(vec![], vec![]), &config(required()), true, &old, false, "nightly")
        .unwrap();
    assert!(matches!(plan, UpdatePlan::Unchanged));
}

#[test]
fn upgrade_reinstalls_everything() {
    let m = manifest("2016-02-02", true);
    let old = Some(manifest("2016-02-01", true));
    let u = Update::build_update(&triple(HOST), &m, &changes(vec![], vec![]), &config(required()), true, &old).unwrap();
    assert_eq!(names(&u.components_to_uninstall), vec!["rustc", "cargo", "rust-std"]);
    assert_eq!(names(&u.components_to_install), vec!["rustc", "cargo", "rust-std"]);
    assert!(!u.nothing_changes());
}

#[test]
fn add_extensions_for_same_manifest_installs_only_them() {
    let m = manifest("2016-02-01", true);
    let old = Some(manifest("2016-02-01", true));
    let add = vec![Component::new("rust-src".to_string(), None, false)];
    let u = Update::build_update(&triple(HOST), &m, &changes(add, vec![]), &config(required()), true, &old).unwrap();
    assert!(u.components_to_uninstall.is_empty());
    assert_eq!(names(&u.components_to_install), vec!["rust-src"]);
    assert_eq!(names(&u.final_component_list), vec!["rust-src", "rustc", "cargo", "rust-std"]);
}

#[test]
fn remove_extensions_for_same_manifest_uninstalls_only_them() {
    let m = manifest("2016-02-01", true);
    let old = Some(manifest("2016-02-01", true));
    let mut installed = required();
    installed.push(Component::new("rust-src".to_string(), None, true));
    let remove = vec![Component::new("rust-src".to_string(), None, true)];
    let u = Update::build_update(&triple(HOST), &m, &changes(vec![], remove), &config(installed), true, &old).unwrap();
    assert_eq!(names(&u.components_to_uninstall), vec!["rust-src"]);
    assert!(u.components_to_install.is_empty());
    assert_eq!(names(&u.final_component_list), vec!["rustc", "cargo", "rust-std"]);
}

#[test]
fn add_and_remove_same_component_is_refused() {
    let m = manifest("2016-02-01", true);
    let c = Component::new("rust-src".to_string(), None, false);
    let ch = changes(vec![c.clone()], vec![c]);
    let mut installed = required();
    installed.push(Component::new("rust-src".to_string(), None, true));
    assert_eq!(ch.check_invariants(&config(installed.clone())), Err(ChangesError::AddAndRemove));
    let r = Update::build_update(&triple(HOST), &m, &ch, &config(installed), true, &None);
    assert!(matches!(r, Err(UpdateError::AddAndRemove)));
}

#[test]
fn renamed_component_is_installed_under_its_new_name() {
    let m = manifest("2016-02-02", true);
    let old = Some(manifest("2016-02-01", true));
    let mut installed = required();
    installed.push(comp("rls-preview", Some(HOST)));
    let u = Update::build_update(&triple(HOST), &m, &changes(vec![], vec![]), &config(installed), true, &old).unwrap();
    assert_eq!(names(&u.final_component_list), vec!["rustc", "cargo", "rust-std", "rls"]);
    assert!(u.missing_components.is_empty());
}

#[test]
fn unavailable_component_fails_unless_forced() {
    let m = manifest("2016-02-01", false);
    let add = vec![comp("miri", Some(HOST))];
    let err = installation()
        .plan_update(&m, &changes(add.clone(), vec![]), &config(required()), true, &None, false, "nightly")
        .unwrap_err();
    match err {
        UpdateError::Unavailable { ref components, ref toolchain } => {
            assert_eq!(names(components), vec!["miri"]);
            assert_eq!(toolchain, "nightly");
            assert!(err.message(&m).starts_with(&format!(
                "component 'miri' for target '{HOST}' is unavailable for download for channel 'nightly'\n"
            )));
        }
        other => panic!("unexpected error {other:?}"),
    }
    let plan = installation()
        .plan_update(&m, &changes(add, vec![]), &config(required()), true, &None, true, "nightly")
        .unwrap();
    match plan {
        UpdatePlan::Changed { skipped, final_components, downloads, .. } => {
            assert_eq!(names(&skipped), vec!["miri"]);
            assert!(!names(&final_components).contains(&"miri".to_string()));
            assert!(downloads.iter().all(|(c, _)| c.pkg != "miri"));
        }
        UpdatePlan::Unchanged => panic!("expected changes"),
    }
}

#[test]
fn removed_component_is_reported_missing() {
    let m = manifest("2016-02-02", true);
    let mut installed = required();
    installed.push(comp("bonus", Some(HOST)));
    let u = Update::build_update(&triple(HOST), &m, &changes(vec![], vec![]), &config(installed), true, &None).unwrap();
    assert_eq!(names(&u.missing_components), vec!["bonus"]);
    assert_eq!(names(&u.unavailable_components(&m).unwrap_err()), vec!["bonus"]);
}

#[test]
fn missing_rust_package_is_an_error() {
    let mut m = manifest("2016-02-01", true);
    m.packages.remove(0);
    let r = Update::build_update(&triple(HOST), &m, &changes(vec![], vec![]), &None, false, &None);
    match r {
        Err(UpdateError::Manifest(ManifestError::PackageNotFound(p))) => assert_eq!(p, "rust"),
        other => panic!("unexpected {other:?}"),
    }
}

#[test]
fn old_style_installation_starts_from_default_profile() {
    let m = manifest("2016-02-01", true);
    let u = Update::build_update(&triple(HOST), &m, &changes(vec![], vec![]), &None, true, &None).unwrap();
    assert_eq!(names(&u.components_to_uninstall), vec!["rustc", "cargo", "rust-std"]);
    assert_eq!(names(&u.final_component_list), vec!["rustc", "cargo", "rust-std"]);
}

#[test]
fn plan_reaches_final_list() {
    let m = manifest("2016-02-01", true);
    let old = Some(manifest("2016-02-01", true));
    let mut installed = required();
    installed.push(Component::new("rust-src".to_string(), None, true));
    let add = vec![comp("rls", Some(HOST))];
    let remove = vec![Component::new("rust-src".to_string(), None, true)];
    let u = Update::build_update(&triple(HOST), &m, &changes(add, remove), &config(installed.clone()), true, &old).unwrap();
    let mut after: Vec<String> = installed
        .iter()
        .filter(|c| !u.components_to_uninstall.iter().any(|x| x.same_as(c)))
        .map(|c| c.pkg.clone())
        .collect();
    after.extend(u.components_to_install.iter().map(|c| c.pkg.clone()));
    let mut fin = names(&u.final_component_list);
    after.sort();
    fin.sort();
    assert_eq!(after, fin);
}

#[test]
fn mirror_replaces_official_server_in_urls() {
    assert_eq!(
        download_url("https://static.rust-lang.org/dist/x.tar.xz", "https://mirror.example.org"),
        "https://mirror.example.org/dist/x.tar.xz"
    );
    assert_eq!(
        download_url("https://static.rust-lang.org/dist/x.tar.xz", "https://static.rust-lang.org"),
        "https://static.rust-lang.org/dist/x.tar.xz"
    );
}

#[test]
fn v1_package_url_is_found_by_target() {
    let lines = vec![
        "https://static.rust-lang.org/dist/rust-1.0.0-i686-unknown-linux-gnu.tar.gz".to_string(),
        format!("https://static.rust-lang.org/dist/rust-1.0.0-{HOST}.tar.gz"),
    ];
    let inst = installation();
    assert_eq!(
        inst.v1_package_url(false, &lines, "https://mirror.example.org").unwrap(),
        format!("https://mirror.example.org/dist/rust-1.0.0-{HOST}.tar.gz")
    );
    assert!(matches!(inst.v1_package_url(true, &lines, "x"), Err(V1Error::ObsoleteManifest)));
    let none: Vec<String> = vec!["nothing here".to_string()];
    match inst.v1_package_url(false, &none, "x") {
        Err(V1Error::NoPackageForTarget(t)) => assert_eq!(t.as_str(), HOST),
        other => panic!("unexpected {other:?}"),
    }
}

#[test]
fn components_urls_name_the_first_binary() {
    let m = manifest("2016-02-01", true);
    let mut u = Update::new();
    u.components_to_install.push(Component::new("rust-src".to_string(), None, false));
    u.components_to_install.push(comp("miri", Some(HOST)));
    let d = u.components_urls_and_hashes(&m).unwrap();
    assert_eq!(d.len(), 2);
    assert_eq!(d[0].1.url, "https://static.rust-lang.org/dist/rust-src.tar.xz");
    assert_eq!(d[1].1.hash, format!("hash-of-miri-{HOST}"));
    u.components_to_install.push(comp("nonesuch", Some(HOST)));
    assert!(matches!(u.components_urls_and_hashes(&m), Err(ManifestError::PackageNotFound(_))));
}

#[test]
fn drop_components_removes_them_from_plan() {
    let mut u = Update::new();
    u.components_to_install = required();
    u.final_component_list = required();
    u.drop_components_to_install(&vec![comp("cargo", Some(HOST))]);
    assert_eq!(names(&u.components_to_install), vec!["rustc", "rust-std"]);
    assert_eq!(names(&u.final_component_list), vec!["rustc", "rust-std"]);
}

#[test]
fn query_components_reports_status_in_component_order() {
    let m = manifest("2016-02-01", false);
    let mut installed = required();
    installed.push(Component::new("rust-src".to_string(), None, true));
    let cfg = Config { config_version: ConfigVersion::V1, components: installed };
    let statuses = m.query_components(&triple(HOST), &cfg);
    let view: Vec<(String, bool, bool)> = statuses.iter().map(|s| (s.name.clone(), s.installed, s.available)).collect();
    assert_eq!(
        view,
        vec![
            (format!("cargo-{HOST}"), true, true),
            (format!("miri-{HOST}"), false, false),
            (format!("rls-preview-{HOST}"), false, true),
            ("rust-src".to_string(), true, true),
            (format!("rust-std-{HOST}"), true, true),
            (format!("rustc-{HOST}"), true, true),
        ]
    );
}

#[test]
fn manifest_validate_components_have_corresponding_packages() {
    let rust_target = TargetedPackage {
        bins: vec![bin("rust")],
        components: vec![comp("rustc", Some(HOST)), Component::new("rust-std".to_string(), Some(triple("x86_64-unknown-linux-musl")), true)],
    };
    let m = Manifest {
        manifest_version: ManifestVersion::V2,
        date: "2015-10-10".to_string(),
        packages: vec![
            ("rust".to_string(), Package { version: "rustc 1.3.0 (9a92aaf19 2015-09-15)".to_string(), targets: PackageTargets::Targeted(vec![(triple(HOST), rust_target)]) }),
            ("rustc".to_string(), per_target("rustc", true)),
        ],
        renames: vec![],
        reverse_renames: vec![],
        profiles: vec![],
    };
    assert!(matches!(m.finish_parse(), Err(ManifestError::MissingPackageForComponent(_))));
}

#[test]
fn renames() {
    let mut m = manifest("2016-02-01", true);
    m.renames = vec![("cargo-old".to_string(), Renamed { to: "cargo".to_string() })];
    m.reverse_renames = vec![];
    let m = m.finish_parse().unwrap();
    assert_eq!(m.renames.len(), 1);
    assert_eq!(m.renames[0].1.to, "cargo");
    assert_eq!(m.reverse_renames, vec![("cargo".to_string(), "cargo-old".to_string())]);
}

#[test]
fn component_try_new_finds_by_either_name() {
    let m = manifest("2016-02-01", true);
    let cfg = Config { config_version: ConfigVersion::V1, components: required() };
    let statuses = m.query_components(&triple(HOST), &cfg);
    let host = triple(HOST);

    let rls_manifest_name = Component::try_new(&format!("rls-{HOST}"), &m, &statuses, Some(&host));
    assert_eq!(rls_manifest_name.pkg, "rls");
    assert_eq!(rls_manifest_name.target.as_ref().map(|t| t.as_str().to_string()), Some(HOST.to_string()));
    assert!(rls_manifest_name.is_extension);

    let rls_shown_name = Component::try_new(&format!("rls-preview-{HOST}"), &m, &statuses, None);
    assert_eq!(rls_shown_name.pkg, "rls");

    let src = Component::try_new("rust-src", &m, &statuses, Some(&host));
    assert_eq!(src.pkg, "rust-src");
    assert!(src.target.is_none());

    let cargo = Component::try_new(&format!("cargo-{HOST}"), &m, &statuses, None);
    assert_eq!(cargo.pkg, "cargo");
    assert!(!cargo.is_extension);

    let unknown = Component::try_new("rust-analyzer", &m, &statuses, Some(&host));
    assert_eq!(unknown.pkg, "rust-analyzer");
    assert_eq!(unknown.target.as_ref().map(|t| t.as_str().to_string()), Some(HOST.to_string()));
    assert!(unknown.is_extension);

    let no_target = Component::try_new("cargo", &m, &statuses, None);
    assert_eq!(no_target.pkg, "cargo");
    assert!(no_target.target.is_none());
    assert!(no_target.is_extension);
}

#[test]
fn uninstall_component_prefers_the_name_with_target() {
    let inst = installation();
    let installed = vec![format!("rustc-{HOST}"), "rustc".to_string(), "cargo".to_string()];
    let rustc = comp("rustc", Some(HOST));
    assert_eq!(inst.uninstall_component(&rustc, &installed), Some(format!("rustc-{HOST}")));
    let cargo = comp("cargo", Some(HOST));
    assert_eq!(inst.uninstall_component(&cargo, &installed), Some("cargo".to_string()));
    let miri = comp("miri", Some(HOST));
    assert_eq!(inst.uninstall_component(&miri, &installed), None);
    let src = Component::new("rust-src".to_string(), None, true);
    assert_eq!(inst.uninstall_component(&src, &vec!["rust-src".to_string()]), Some("rust-src".to_string()));
}

#[test]
fn adding_component_not_in_manifest_fails() {
    let m = manifest("2016-02-01", true);
    let add = vec![Component::new("rust-bogus".to_string(), Some(triple("i686-apple-darwin")), true)];
    let r = installation().plan_update(&m, &changes(add, vec![]), &config(required()), true, &Some(manifest("2016-02-01", true)), false, "nightly");
    assert!(r.is_err());
}

#[test]
fn manifest_lookups_and_names() {
    let m = manifest("2016-02-01", true);
    assert_eq!(m.get_rust_version().unwrap(), "1.0.0");
    assert!(m.find_package("cargo").is_some());
    assert!(m.find_package("nonesuch").is_none());
    assert!(matches!(m.get_package("nonesuch"), Err(ManifestError::PackageNotFound(p)) if p == "nonesuch"));
    assert_eq!(m.get_package("rust-src").unwrap().version, "1.0.0");

    let legacy = m.get_legacy_components(&triple(HOST)).unwrap();
    assert_eq!(names(&legacy), vec!["rustc", "cargo", "rust-std"]);
    let minimal = m.get_profile_components(Profile::Minimal, &triple(HOST)).unwrap();
    assert_eq!(names(&minimal), vec!["rustc", "cargo", "rust-std"]);
    assert!(m.find_profile(Profile::Complete).is_none());
    assert!(matches!(m.get_profile_components(Profile::Complete, &triple(HOST)), Err(ManifestError::ProfileNotFound(Profile::Complete))));

    let old_rls = comp("rls-preview", Some(HOST));
    let renamed = m.rename_component(&old_rls).unwrap();
    assert_eq!(renamed.pkg, "rls");
    assert!(m.rename_component(&comp("cargo", Some(HOST))).is_none());

    let rls = comp("rls", Some(HOST));
    assert_eq!(m.short_name(&rls), "rls-preview");
    assert_eq!(m.component_name(&rls), format!("rls-preview-{HOST}"));
    assert_eq!(m.component_description(&rls), format!("'rls-preview' for target '{HOST}'"));
    let src = Component::new("rust-src".to_string(), None, true);
    assert_eq!(m.component_name(&src), "rust-src");
    assert_eq!(m.component_description(&src), "'rust-src'");

    assert_eq!(rls.name_in_manifest(), format!("rls-{HOST}"));
    assert_eq!(rls.short_name_in_manifest(), "rls");
    assert!(rls.wildcard().target.is_none());
    assert!(!rls.wildcard().is_extension);
    assert!(rls.contained_within(&vec![comp("cargo", Some(HOST)), comp("rls", Some(HOST))]));
    assert!(rls.contained_within(&vec![comp("rls", None)]));
    assert!(!rls.contained_within(&vec![comp("rls", Some("i686-unknown-linux-gnu")), comp("cargo", Some(HOST))]));
    assert!(src.contained_within(&vec![comp("rust-src", Some(HOST))]));

    let same = manifest("2016-02-01", true);
    assert!(rustup_dist::manifest::manifests_same(&m, &same));
    assert!(!rustup_dist::manifest::manifests_same(&m, &manifest("2016-02-02", true)));
    assert!(!rustup_dist::manifest::manifests_same(&m, &manifest("2016-02-01", false)));
}

#[test]
fn package_targets_map_form() {
    let pkg = targeted("x", true, vec![]);
    let wild = PackageTargets::from_map(vec![(triple("*"), pkg.copy())]);
    assert!(matches!(wild, PackageTargets::Wildcard(_)));
    let back = wild.into_map();
    assert_eq!(back.len(), 1);
    assert_eq!(back[0].0.as_str(), "*");
    let per = PackageTargets::from_map(vec![(triple(HOST), pkg.copy()), (triple("i686-unknown-linux-gnu"), pkg)]);
    assert!(per.get(&triple(HOST)).is_some());
    assert!(per.get(&triple("aarch64-apple-darwin")).is_none());
    let back = per.into_map();
    assert_eq!(back.iter().map(|(t, _)| t.as_str().to_string()).collect::<Vec<_>>(), vec![HOST, "i686-unknown-linux-gnu"]);
}

#[test]
fn install_prefix_paths() {
    let p = InstallPrefix::from("/opt/rust".to_string());
    assert_eq!(p.abs_path("bin/rustc"), "/opt/rust/bin/rustc");
    assert_eq!(p.abs_path("/etc/x"), "/etc/x");
    assert_eq!(p.manifest_dir(), "/opt/rust/lib/rustlib");
    assert_eq!(p.manifest_file("components"), "/opt/rust/lib/rustlib/components");
    assert_eq!(p.rel_manifest_file("components"), "lib/rustlib/components");
    assert_eq!(p.binary_file("rustc", ".exe"), "/opt/rust/bin/rustc.exe");
    assert_eq!(p.doc_path("index.html"), "/opt/rust/share/doc/rust/html/index.html");
    assert_eq!(
        p.v1_manifest_files(),
        vec!["/opt/rust/lib/rustlib/manifest-cargo", "/opt/rust/lib/rustlib/manifest-rustc", "/opt/rust/lib/rustlib/manifest-rust-docs"]
    );
    assert!(rustup_dist::prefix::guess_v1_manifest(&vec![true, true, true]));
    assert!(!rustup_dist::prefix::guess_v1_manifest(&vec![true, false, true]));
    assert_eq!(rustup_dist::prefix::bin_path("cargo", ""), "bin/cargo");
    assert_eq!(rustup_dist::prefix::get_installer_ext(true), ".msi");
    assert_eq!(rustup_dist::prefix::get_installer_ext(false), ".tar.gz");
    assert_eq!(rustup_dist::prefix::join_path("/a/", "b"), "/a/b");
    assert_eq!(rustup_dist::prefix::join_path("", "b"), "b");
}

#[test]
fn v1_installations_are_recognised() {
    let inst = installation();
    assert!(inst.looks_like_v1(&None, true));
    assert!(!inst.looks_like_v1(&None, false));
    assert!(!inst.looks_like_v1(&config(required()), true));
}

#[test]
fn planning_again_after_an_update_changes_nothing() {
    let m = manifest("2016-02-02", true);
    let old = Some(manifest("2016-02-01", true));
    let mut installed = required();
    installed.push(comp("rls-preview", Some(HOST)));
    let add = vec![Component::new("rust-src".to_string(), None, true)];
    let ch = changes(add, vec![]);
    let plan = installation().plan_update(&m, &ch, &config(installed), true, &old, false, "nightly").unwrap();
    let fin = match plan {
        UpdatePlan::Changed { skipped, final_components, .. } => {
            assert!(skipped.is_empty());
            final_components
        }
        UpdatePlan::Unchanged => panic!("expected changes"),
    };
    let again = installation().plan_update(&m, &ch, &config(fin), true, &Some(manifest("2016-02-02", true)), false, "nightly").unwrap();
    assert!(matches!(again, UpdatePlan::Unchanged));
}

#[test]
fn manifest_errors_show_their_messages() {
    let m = manifest("2016-02-01", true);
    assert_eq!(m.get_package("nonesuch").unwrap_err().message(), "package not found: 'nonesuch'");
    let rust = m.get_package("rust").unwrap();
    assert_eq!(rust.get_target(None).unwrap_err().message(), "no target specified");
    let musl = triple("x86_64-unknown-linux-musl");
    assert_eq!(
        rust.get_target(Some(&musl)).unwrap_err().message(),
        "target 'x86_64-unknown-linux-musl' not found in channel.  Perhaps check https://doc.rust-lang.org/nightly/rustc/platform-support.html for available targets"
    );
    assert_eq!(
        m.get_profile_components(Profile::Complete, &triple(HOST)).unwrap_err().message(),
        "profile not found: 'complete'"
    );

    let mut broken = manifest("2016-02-01", true);
    broken.renames = vec![("cargo-old".to_string(), Renamed { to: "cargo-new".to_string() })];
    broken.reverse_renames = vec![];
    let e = broken.finish_parse().unwrap_err();
    assert!(matches!(e, ManifestError::BrokenRename(_)));
    assert_eq!(e.message(), "server sent a broken manifest: missing package for the target of a rename cargo-new");
}

#[test]
fn missing_component_package_is_reported_before_a_broken_rename() {
    let rust_target = TargetedPackage {
        bins: vec![bin("rust")],
        components: vec![comp("rustc", Some(HOST)), Component::new("rust-std".to_string(), Some(triple("x86_64-unknown-linux-musl")), true)],
    };
    let m = Manifest {
        manifest_version: ManifestVersion::V2,
        date: "2015-10-10".to_string(),
        packages: vec![
            ("rust".to_string(), Package { version: "1.3.0".to_string(), targets: PackageTargets::Targeted(vec![(triple(HOST), rust_target)]) }),
            ("rustc".to_string(), per_target("rustc", true)),
        ],
        renames: vec![("cargo-old".to_string(), Renamed { to: "cargo-new".to_string() })],
        reverse_renames: vec![],
        profiles: vec![],
    };
    let e = m.finish_parse().unwrap_err();
    assert!(matches!(e, ManifestError::MissingPackageForComponent(_)));
    assert_eq!(
        e.message(),
        "server sent a broken manifest: missing package for component rust-std"
    );
}

#[test]
fn change_errors_show_their_messages() {
    assert_eq!(ChangesError::AddAndRemove.message(), "can't both add and remove components");
    let m = manifest("2016-02-01", true);
    assert_eq!(UpdateError::AddAndRemove.message(&m), "can't both add and remove components");
    assert_eq!(
        UpdateError::Manifest(ManifestError::NoTargetSpecified).message(&m),
        "no target specified"
    );
    let e = UpdateError::Unavailable { components: vec![comp("rls", Some(HOST))], toolchain: "stable".to_string() };
    assert_eq!(e.message(&m), "component 'rls-preview' for target 'x86_64-unknown-linux-gnu' is unavailable for download for channel 'stable'\n");
}
