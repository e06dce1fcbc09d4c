use rustup_dist::self_install::{install_steps, InstallStep};

fn show(steps: &[InstallStep]) -> Vec<String> {
    steps
        .iter()
        .map(|s| match s {
            InstallStep::EnsureDir(d) => format!("mkdir {d}"),
            InstallStep::Move(a, b) => format!("mv {a} {b}"),
            InstallStep::Copy(a, b) => format!("cp {a} {b}"),
            InstallStep::Hardlink(a, b) => format!("ln {a} {b}"),
            InstallStep::Symlink(a, b) => format!("ln -s {a} {b}"),
            InstallStep::PrependToRegistryPath(d) => format!("PATH={d};..."),
            InstallStep::AppendToFile(f, t) => format!("append {f} {t:?}"),
            InstallStep::HomeNotFound => "no home".to_string(),
        })
        .collect()
}

#[test]
fn unix_install_copies_and_symlinks() {
    let steps = install_steps("/home/u/.multirust", "/tmp/multirust-setup", "", false, true, false, Some("/home/u"));
    assert_eq!(
        show(&steps),
        vec![
            "mkdir /home/u/.multirust/bin".to_string(),
            "cp /tmp/multirust-setup /home/u/.multirust/bin/multirust".to_string(),
            "ln -s /home/u/.multirust/bin/multirust /home/u/.multirust/bin/rustc".to_string(),
            "ln -s /home/u/.multirust/bin/multirust /home/u/.multirust/bin/rustdoc".to_string(),
            "ln -s /home/u/.multirust/bin/multirust /home/u/.multirust/bin/cargo".to_string(),
            "ln -s /home/u/.multirust/bin/multirust /home/u/.multirust/bin/rust-lldb".to_string(),
            "ln -s /home/u/.multirust/bin/multirust /home/u/.multirust/bin/rust-gdb".to_string(),
            format!("append /home/u/.profile {:?}", "\n# Multirust override:\nexport PATH=\"/home/u/.multirust/bin:$PATH\""),
        ]
    );
}

#[test]
fn windows_install_moves_and_hardlinks() {
    let steps = install_steps("C:/Users/u/.multirust", "C:/tmp/setup.exe", ".exe", true, true, true, None);
    let shown = show(&steps);
    assert_eq!(shown[1], "mv C:/tmp/setup.exe C:/Users/u/.multirust/bin/multirust.exe");
    assert_eq!(shown[2], "ln C:/Users/u/.multirust/bin/multirust.exe C:/Users/u/.multirust/bin/rustc.exe");
    assert_eq!(shown.last().unwrap(), "PATH=C:/Users/u/.multirust/bin;...");
    assert_eq!(shown.len(), 8);
}

#[test]
fn install_without_path_change_or_home() {
    assert_eq!(install_steps("/m", "/s", "", false, false, false, None).len(), 7);
    let steps = install_steps("/m", "/s", "", false, true, false, None);
    assert!(matches!(steps.last(), Some(InstallStep::HomeNotFound)));
}
