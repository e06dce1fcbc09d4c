use rustup_dist::triple::{complete_parts, known_arch, known_env, known_os, parse_partial_triple, NUM_ARCHS, NUM_ENVS, NUM_OSES};
use rustup_dist::triple::{PartialTargetTriple, PartialTargetTuple, TargetTriple, HostTripleErrorKind};

#[test]
fn test_partial_target_tuple_new() {
    let success_cases = vec![
        ("", (None, None, None)),
        ("i386", (Some("i386"), None, None)),
        ("pc-windows", (None, Some("pc-windows"), None)),
        ("gnu", (None, None, Some("gnu"))),
        ("i386-gnu", (Some("i386"), None, Some("gnu"))),
        ("pc-windows-gnu", (None, Some("pc-windows"), Some("gnu"))),
        ("i386-pc-windows", (Some("i386"), Some("pc-windows"), None)),
        (
            "i386-pc-windows-gnu",
            (Some("i386"), Some("pc-windows"), Some("gnu")),
        ),
    ];

    for (input, (arch, os, env)) in success_cases {
        let partial_target_tuple = PartialTargetTuple::new(input);
        assert!(
            partial_target_tuple.is_some(),
            "expected `{input}` to create some partial target tuple; got None"
        );

        let expected = PartialTargetTuple {
            arch: arch.map(String::from),
            os: os.map(String::from),
            env: env.map(String::from),
        };

        assert_eq!(partial_target_tuple.unwrap(), expected, "input: `{input}`");
    }

    let failure_cases = vec![
        "anything",
        "any-other-thing",
        "-",
        "--",
        "i386-",
        "i386-pc-",
        "i386-pc-windows-",
        "-pc-windows",
        "i386-pc-windows-anything",
        "0000-00-00-",
        "00000-000-000",
    ];

    for input in failure_cases {
        let partial_target_tuple = PartialTargetTuple::new(input);
        assert!(
            partial_target_tuple.is_none(),
            "expected `{input}` to be `None`, was: `{partial_target_tuple:?}`"
        );
    }
}

#[test]
fn test_partial_target_triple_new() {
    let success_cases = vec![
        ("", (None, None, None)),
        ("i386", (Some("i386"), None, None)),
        ("pc-windows", (None, Some("pc-windows"), None)),
        ("gnu", (None, None, Some("gnu"))),
        ("i386-gnu", (Some("i386"), None, Some("gnu"))),
        ("pc-windows-gnu", (None, Some("pc-windows"), Some("gnu"))),
        ("i386-pc-windows", (Some("i386"), Some("pc-windows"), None)),
        (
            "i386-pc-windows-gnu",
            (Some("i386"), Some("pc-windows"), Some("gnu")),
        ),
    ];

    for (input, (arch, os, env)) in success_cases {
        let partial_target_triple = PartialTargetTriple::new(input);
        assert!(
            partial_target_triple.is_some(),
            "expected `{input}` to create some partial target triple; got None"
        );

        let expected = PartialTargetTriple {
            arch: arch.map(String::from),
            os: os.map(String::from),
            env: env.map(String::from),
        };

        assert_eq!(partial_target_triple.unwrap(), expected, "input: `{input}`");
    }

    let failure_cases = vec![
        "anything",
        "any-other-thing",
        "-",
        "--",
        "i386-",
        "i386-pc-",
        "i386-pc-windows-",
        "-pc-windows",
        "i386-pc-windows-anything",
        "0000-00-00-",
        "00000-000-000",
    ];

    for input in failure_cases {
        let partial_target_triple = PartialTargetTriple::new(input);
        assert!(
            partial_target_triple.is_none(),
            "expected `{input}` to be `None`, was: `{partial_target_triple:?}`"
        );
    }
}

#[test]
fn compatible_host_triples() {
    static CASES: &[(&str, &[&str], &[&str])] = &[
        ("x86_64-unknown-linux-gnu", &[], &["i686-unknown-linux-gnu"]),
        (
            "x86_64-pc-windows-msvc",
            &["i686-pc-windows-msvc", "x86_64-pc-windows-gnu", "i686-pc-windows-gnu"],
            &["x86_64-unknown-linux-gnu"],
        ),
        (
            "x86_64-pc-windows-gnu",
            &["i686-pc-windows-msvc", "x86_64-pc-windows-gnu", "i686-pc-windows-gnu"],
            &["x86_64-unknown-linux-gnu"],
        ),
        (
            "i686-pc-windows-msvc",
            &["i686-pc-windows-gnu"],
            &["x86_64-pc-windows-msvc", "x86_64-pc-windows-gnu"],
        ),
    ];

    for &(host, compatible, incompatible) in CASES {
        let host = TargetTriple::new(host);
        assert!(host.can_run(&host).unwrap(), "host wasn't self-compatible");
        for &other in compatible.iter() {
            let other = TargetTriple::new(other);
            assert!(host.can_run(&other).unwrap(), "host and other were unexpectedly incompatible");
        }
        for &other in incompatible.iter() {
            let other = TargetTriple::new(other);
            assert!(!host.can_run(&other).unwrap(), "host and other were unexpectedly compatible");
        }
    }
}

#[test]
fn aarch64_windows_runs_i686() {
    let host = TargetTriple::new("aarch64-pc-windows-msvc");
    assert!(host.can_run(&TargetTriple::new("i686-pc-windows-msvc")).unwrap());
    assert!(!host.can_run(&TargetTriple::new("x86_64-pc-windows-msvc")).unwrap());
}

#[test]
fn can_run_reports_unparsable_triple() {
    let host = TargetTriple::new("x86_64-pc-windows-msvc");
    let err = host.can_run(&TargetTriple::new("bogus")).unwrap_err();
    assert_eq!(err.triple, "bogus");
    let err = TargetTriple::new("bogus").can_run(&host).unwrap_err();
    assert_eq!(err.triple, "bogus");
    assert!(TargetTriple::new("bogus").can_run(&TargetTriple::new("bogus")).unwrap());
}

#[test]
fn completion_fills_from_host() {
    let host = TargetTriple::new("x86_64-unknown-linux-gnu");
    let p = PartialTargetTuple::new("i686").unwrap();
    assert_eq!(p.complete(&host).unwrap().as_str(), "i686-unknown-linux-gnu");
    let p = PartialTargetTuple::new("pc-windows").unwrap();
    assert_eq!(p.complete(&host).unwrap().as_str(), "x86_64-pc-windows");
    let p = PartialTargetTuple::new("msvc").unwrap();
    assert_eq!(p.complete(&host).unwrap().as_str(), "x86_64-unknown-linux-msvc");
    let p = PartialTargetTuple::new("").unwrap();
    assert_eq!(p.complete(&host).unwrap().as_str(), "x86_64-unknown-linux-gnu");
}

#[test]
fn completion_rejects_bad_hosts() {
    let p = PartialTargetTuple::new("i686").unwrap();
    let e = p.clone().complete(&TargetTriple::new("not-a-host")).unwrap_err();
    assert_eq!(e.kind, HostTripleErrorKind::Unparsable);
    let e = p.clone().complete(&TargetTriple::new("pc-windows-gnu")).unwrap_err();
    assert_eq!(e.kind, HostTripleErrorKind::NoArch);
    let e = p.complete(&TargetTriple::new("x86_64")).unwrap_err();
    assert_eq!(e.kind, HostTripleErrorKind::NoOs);
}

#[test]
fn partial_triple_display_and_full() {
    let p = PartialTargetTriple::new("x86_64-pc-windows-msvc").unwrap();
    assert_eq!(p.to_display_string(), "x86_64-pc-windows-msvc");
    assert_eq!(p.to_full_triple().unwrap().as_str(), "x86_64-pc-windows-msvc");
    let q = PartialTargetTriple::new("pc-windows").unwrap();
    assert_eq!(q.to_display_string(), "-pc-windows");
    assert!(q.to_full_triple().is_none());
    assert!(PartialTargetTriple::new("").unwrap().is_empty());
}

#[test]
fn longer_parts_are_found() {
    let p = PartialTargetTriple::new("mips64el-unknown-linux-gnuabi64").unwrap();
    assert_eq!(p.arch.as_deref(), Some("mips64el"));
    assert_eq!(p.os.as_deref(), Some("unknown-linux"));
    assert_eq!(p.env.as_deref(), Some("gnuabi64"));
}

#[test]
fn triple_helpers() {
    let archs: Vec<&str> = (0..NUM_ARCHS).map(known_arch).collect();
    assert!(archs.contains(&"x86_64") && archs.contains(&"aarch64") && archs.contains(&"i686"));
    let oses: Vec<&str> = (0..NUM_OSES).map(known_os).collect();
    assert!(oses.contains(&"pc-windows") && oses.contains(&"unknown-linux") && oses.contains(&"apple-darwin"));
    let envs: Vec<&str> = (0..NUM_ENVS).map(known_env).collect();
    assert!(envs.contains(&"gnu") && envs.contains(&"msvc") && envs.contains(&"musl"));

    assert_eq!(
        parse_partial_triple("x86_64-apple-darwin"),
        Some((Some("x86_64".to_string()), Some("apple-darwin".to_string()), None))
    );
    assert_eq!(parse_partial_triple("anything"), None);
    let host = TargetTriple::new("x86_64-unknown-linux-gnu");
    assert_eq!(complete_parts(None, None, Some("musl".to_string()), &host).unwrap(), "x86_64-unknown-linux-musl");
    assert_eq!(complete_parts(Some("i686".to_string()), None, None, &host).unwrap(), "i686-unknown-linux-gnu");

    let built = TargetTriple::new("aarch64-apple-darwin");
    assert_eq!(TargetTriple::from_host_or_build(Some(host.copy()), built.copy()).as_str(), "x86_64-unknown-linux-gnu");
    assert_eq!(TargetTriple::from_host_or_build(None, built).as_str(), "aarch64-apple-darwin");
}
