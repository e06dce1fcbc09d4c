use rustup_dist::toolchain::{
    toolchain_name_is_ok, try_validate_channel_name, ChannelNameError, validate_channel_name, valid_profile_names, AutoInstallMode, Channel, ParsedToolchainDesc,
    PartialToolchainDesc, PartialVersion, Profile, ToolchainDesc, VersionErrorKind,
};
use rustup_dist::triple::TargetTriple;

fn parsed_desc_cases() -> Vec<(&'static str, (&'static str, Option<&'static str>, Option<&'static str>))> {
    vec![
        ("nightly", ("nightly", None, None)),
        ("beta", ("beta", None, None)),
        ("stable", ("stable", None, None)),
        ("0.0", ("0.0", None, None)),
        ("0.0.0", ("0.0.0", None, None)),
        ("0.0.0--", ("0.0.0", None, Some("-"))),
        ("9.999.99", ("9.999.99", None, None)),
        ("0.0.0-anything", ("0.0.0", None, Some("anything"))),
        ("0.0.0-0000-00-00", ("0.0.0", Some("0000-00-00"), None)),
        ("0.0.0-00000-000-000", ("0.0.0", None, Some("00000-000-000"))),
        ("0.0.0-0000-00-00-", ("0.0.0", None, Some("0000-00-00-"))),
        ("0.0.0-0000-00-00-any-other-thing", ("0.0.0", Some("0000-00-00"), Some("any-other-thing"))),
        ("1.0", ("1.0.0", None, None)),
        ("1.1", ("1.1.0", None, None)),
        ("1.2", ("1.2.0", None, None)),
        ("1.3", ("1.3.0", None, None)),
        ("1.4", ("1.4.0", None, None)),
        ("1.5", ("1.5.0", None, None)),
        ("1.6", ("1.6.0", None, None)),
        ("1.7", ("1.7.0", None, None)),
        ("1.8", ("1.8.0", None, None)),
    ]
}

fn check_parsed_desc_success(input: &str, channel: &str, date: Option<&str>, target: Option<&str>) {
    let parsed = ParsedToolchainDesc::from_str(input);
    assert!(parsed.is_ok(), "expected parsing of `{input}` to succeed: {parsed:?}");
    let expected = ParsedToolchainDesc {
        channel: Channel::from_str(channel).unwrap(),
        date: date.map(String::from),
        target: target.map(String::from),
    };
    assert_eq!(parsed.unwrap(), expected, "input: `{input}`");
}

fn check_parsed_desc_failures() {
    let failure_cases = vec!["anything", "00.0000.000", "3", "", "--", "0.0.0-"];
    for input in failure_cases {
        let parsed = ParsedToolchainDesc::from_str(input);
        assert!(parsed.is_err(), "expected parsing of `{input}` to fail: {parsed:?}");
        let error_message = format!("invalid toolchain name: '{input}'");
        assert_eq!(parsed.unwrap_err().message(), error_message, "input: `{input}`");
    }
}

#[test]
fn dist_test_parsed_toolchain_desc_parse() {
    for (input, (channel, date, target)) in parsed_desc_cases() {
        check_parsed_desc_success(input, channel, date, target);
    }
    check_parsed_desc_failures();
}

#[test]
fn mod_test_parsed_toolchain_desc_parse() {
    let mut cases = parsed_desc_cases();
    cases.extend(vec![
        ("0.0.0-beta", ("0.0.0-beta", None, None)),
        ("0.0.0-beta.1", ("0.0.0-beta.1", None, None)),
        ("0.0.0-beta.1-0000-00-00", ("0.0.0-beta.1", Some("0000-00-00"), None)),
        ("0.0.0-beta.1-anything", ("0.0.0-beta.1", None, Some("anything"))),
        ("0.0.0-beta-anything", ("0.0.0-beta", None, Some("anything"))),
        ("0.0.0-beta.1-0000-00-00-any-other-thing", ("0.0.0-beta.1", Some("0000-00-00"), Some("any-other-thing"))),
    ]);
    for (input, (channel, date, target)) in cases {
        check_parsed_desc_success(input, channel, date, target);
    }
    check_parsed_desc_failures();
}

fn check_tracking(cases: &[(&str, bool)]) {
    for case in cases {
        let full_tcn = format!("{}-x86_64-unknown-linux-gnu", case.0);
        let tcd = ToolchainDesc::from_str(&full_tcn).unwrap();
        assert_eq!(tcd.is_tracking(), case.1, "case {}", case.0);
    }
}

#[test]
fn dist_test_tracking_channels() {
    check_tracking(&[
        ("stable", true),
        ("beta", true),
        ("nightly", true),
        ("nightly-2020-10-04", false),
        ("1.48", true),
        ("1.47.0", false),
    ]);
}

#[test]
fn mod_test_tracking_channels() {
    check_tracking(&[
        ("stable", true),
        ("beta", true),
        ("nightly", true),
        ("nightly-2020-10-04", false),
        ("1.48", true),
        ("1.47.0", false),
        ("1.23-beta", true),
        ("1.23.0-beta", true),
        ("1.23.0-beta.2", false),
    ]);
}

#[test]
fn partial_version_from_str() {
    assert_eq!(
        PartialVersion::from_str("0.12").unwrap(),
        PartialVersion { major: 0, minor: Some(12), patch: None, pre: String::new() },
    );
    assert_eq!(
        PartialVersion::from_str("1.23-beta").unwrap(),
        PartialVersion { major: 1, minor: Some(23), patch: None, pre: "beta".to_string() },
    );
    assert_eq!(
        PartialVersion::from_str("1.23.0-beta.4").unwrap(),
        PartialVersion { major: 1, minor: Some(23), patch: Some(0), pre: "beta.4".to_string() },
    );
    assert!(PartialVersion::from_str("1.01").is_err());
    assert!(PartialVersion::from_str("^1.23").is_err());
    assert!(PartialVersion::from_str(">=1").is_err());
    assert!(PartialVersion::from_str("*").is_err());
    assert!(PartialVersion::from_str("stable").is_err());
}

#[test]
fn partial_version_round_trips_through_text() {
    for ver in ["1.0", "0.12", "1.23-beta", "1.23.0-beta.4", "9.999.99"] {
        assert_eq!(PartialVersion::from_str(ver).unwrap().to_display_string(), ver);
    }
}

#[test]
fn partial_version_error_kinds() {
    assert_eq!(PartialVersion::from_str("stable").unwrap_err().kind, VersionErrorKind::NotDigit);
    assert_eq!(PartialVersion::from_str("1.01").unwrap_err().kind, VersionErrorKind::BadVersion);
}

#[test]
fn toolchain_desc_display_and_urls() {
    let d = ToolchainDesc::from_str("nightly-2020-10-04-x86_64-unknown-linux-gnu").unwrap();
    assert_eq!(d.to_display_string(), "nightly-2020-10-04-x86_64-unknown-linux-gnu");
    assert_eq!(d.manifest_name(), "nightly-2020-10-04");
    assert_eq!(d.package_dir("https://static.rust-lang.org/dist"), "https://static.rust-lang.org/dist/2020-10-04");
    assert_eq!(
        d.manifest_v2_url("https://static.rust-lang.org/dist", false),
        "https://static.rust-lang.org/dist/2020-10-04/channel-rust-nightly.toml"
    );
    let s = ToolchainDesc::from_str("stable-x86_64-unknown-linux-gnu").unwrap();
    assert_eq!(s.full_spec(), "stable-x86_64-unknown-linux-gnu (tracking)");
    assert_eq!(s.manifest_v1_url("https://static.rust-lang.org/dist", false), "https://static.rust-lang.org/dist/channel-rust-stable");
}

#[test]
fn partial_toolchain_desc_resolves_against_host() {
    let p = PartialToolchainDesc::from_str("stable").unwrap();
    assert!(!p.has_triple());
    let host = TargetTriple::new("x86_64-unknown-linux-gnu");
    let d = p.resolve(&host).unwrap();
    assert_eq!(d.to_display_string(), "stable-x86_64-unknown-linux-gnu");
    let p = PartialToolchainDesc::from_str("nightly-msvc").unwrap();
    assert!(p.has_triple());
    let d = p.resolve(&TargetTriple::new("x86_64-pc-windows-gnu")).unwrap();
    assert_eq!(d.to_display_string(), "nightly-x86_64-pc-windows-msvc");
}

#[test]
fn channel_names_are_validated() {
    assert!(validate_channel_name("stable").is_ok());
    assert!(validate_channel_name("1.48.0").is_ok());
    assert!(validate_channel_name("nightly-2020-10-04").is_ok());
}

#[test]
fn refused_channel_names_say_why() {
    let e = validate_channel_name("stable-msvc").unwrap_err();
    assert!(matches!(&e, ChannelNameError::HasTriple(n) if n == "stable-msvc"));
    assert_eq!(e.message(), "target triple in channel name 'stable-msvc'");
    let e = validate_channel_name("nightly-2020-10-04-x86_64-unknown-linux-gnu").unwrap_err();
    assert_eq!(e.message(), "target triple in channel name 'nightly-2020-10-04-x86_64-unknown-linux-gnu'");
    assert!(toolchain_name_is_ok("not a channel"));
    let e = validate_channel_name("not a channel").unwrap_err();
    assert!(matches!(&e, ChannelNameError::Invalid(i) if i.name == "not a channel"));
    assert_eq!(e.message(), "invalid toolchain name: 'not a channel'");
}

#[test]
fn a_target_part_holds_no_line_break() {
    assert!(ParsedToolchainDesc::from_str("nightly-x86_64\nlinux").is_err());
    assert!(ParsedToolchainDesc::from_str("nightly-\n").is_err());
    assert!(ParsedToolchainDesc::from_str("stable-2020-01-01-a\nb").is_err());
    let p = ParsedToolchainDesc::from_str("nightly-x86_64\tlinux").unwrap();
    assert_eq!(p.target.as_deref(), Some("x86_64\tlinux"));
}

#[test]
fn profiles_read_and_write() {
    assert_eq!(Profile::from_str("minimal").unwrap(), Profile::Minimal);
    assert_eq!(Profile::from_str("d").unwrap(), Profile::Default);
    assert_eq!(Profile::from_str("").unwrap(), Profile::Default);
    assert_eq!(Profile::from_str("c").unwrap(), Profile::Complete);
    let e = Profile::from_str("huge").unwrap_err();
    assert_eq!(e.message(), "unknown profile name: 'huge'; valid profile names are: minimal, default, complete");
    assert_eq!(Profile::Complete.as_str(), "complete");
    assert_eq!(Profile::names(), vec!["minimal", "default", "complete"]);
    assert_eq!(Profile::default_name(), "default");
    assert_eq!(valid_profile_names(), "'minimal', 'default', 'complete'");
}

#[test]
fn auto_install_modes() {
    assert_eq!(AutoInstallMode::from_str("enable").map(|m| m.as_str()), Some("enable"));
    assert_eq!(AutoInstallMode::from_str("disable").map(|m| m.as_str()), Some("disable"));
    assert!(AutoInstallMode::from_str("sometimes").is_none());
}

#[test]
fn partial_version_prerelease_follows_semver() {
    for pre in ["beta", "beta.1", "beta.01", "01", "0", "10", "a-b", "-", "x.", ".x", "a..b", "α", "rc1.0.x", "00a", "a_b", "1.2.3"] {
        let text = format!("1.2.3-{pre}");
        assert_eq!(
            rustup_dist::toolchain::PartialVersion::from_str(&text).is_ok(),
            semver::Prerelease::new(pre).is_ok(),
            "pre-release {pre:?}"
        );
    }
}

#[test]
fn unreadable_channels_are_reported_by_try_forms() {
    assert!(toolchain_name_is_ok("nightly"));
    assert!(toolchain_name_is_ok("1.48.0-x86_64-unknown-linux-gnu"));
    assert!(!toolchain_name_is_ok("1.01"));
    assert!(ParsedToolchainDesc::try_from_str("1.01").is_none());
    assert!(PartialToolchainDesc::try_from_str("1.01").is_none());
    assert!(ToolchainDesc::try_from_str("1.01-x86_64-unknown-linux-gnu").is_none());
    assert!(try_validate_channel_name("1.01").is_none());

    let p = ParsedToolchainDesc::try_from_str("beta-2020-01-01").unwrap().unwrap();
    assert_eq!(p.date.as_deref(), Some("2020-01-01"));
    let d = ToolchainDesc::try_from_str("nightly-x86_64-unknown-linux-gnu").unwrap().unwrap();
    assert_eq!(d.target.as_str(), "x86_64-unknown-linux-gnu");
    assert!(d.channel.is_nightly());
    assert!(!Channel::Stable.is_nightly());
    let pd = PartialToolchainDesc::try_from_str("stable-msvc").unwrap().unwrap();
    assert!(pd.has_triple());
    assert_eq!(try_validate_channel_name("stable").map(|r| r.is_ok()), Some(true));
    assert_eq!(try_validate_channel_name("stable-msvc").map(|r| r.is_ok()), Some(false));
    assert_eq!(Profile::default_profile(), Profile::Default);
}
