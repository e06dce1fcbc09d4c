use rustup_dist::install::{check_installed, InstallAction, InstallMethod, UpdateStatus};

fn show(a: &[InstallAction]) -> Vec<String> {
    a.iter()
        .map(|x| match x {
            InstallAction::RemoveDir(d) => format!("rm -r {d}"),
            InstallAction::SymlinkDir(s, d) => format!("ln -s {s} {d}"),
            InstallAction::InstallDist(d) => format!("dist {d}"),
        })
        .collect()
}

#[test]
fn linking_replaces_existing_toolchain() {
    let link = InstallMethod::Link { src: "/src/build".to_string() };
    assert_eq!(show(&link.steps("/t/custom", true)), vec!["rm -r /t/custom", "ln -s /src/build /t/custom"]);
    assert_eq!(show(&link.steps("/t/custom", false)), vec!["ln -s /src/build /t/custom"]);
    assert_eq!(link.outcome(Some("ignored".to_string())), (UpdateStatus::Installed, None));
}

#[test]
fn dist_install_reports_and_records_hash() {
    let fresh = InstallMethod::Dist { old_version: None, update_hash: "/u/stable".to_string() };
    assert_eq!(show(&fresh.steps("/t/stable", true)), vec!["dist /t/stable"]);
    assert_eq!(fresh.outcome(None), (UpdateStatus::Unchanged, None));
    assert_eq!(
        fresh.outcome(Some("abc".to_string())),
        (UpdateStatus::Installed, Some(("/u/stable".to_string(), "abc".to_string())))
    );
    let update = InstallMethod::Dist { old_version: Some("1.70.0".to_string()), update_hash: "/u/stable".to_string() };
    assert_eq!(update.outcome(Some("def".to_string())).0, UpdateStatus::Updated("1.70.0".to_string()));
    assert!(check_installed("stable", true).is_ok());
    assert_eq!(check_installed("stable", false).unwrap_err().name, "stable");
}
