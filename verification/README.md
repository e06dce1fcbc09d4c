# rustup_dist

The decision-making core of a Rust toolchain installer, written in Verus:
every function in `src/` carries a contract that Verus proves, except the
few wrappers in `outside` around the `semver` and `chrono` crates, whose
contracts are trusted. The properties that span several functions are
stated and proved as `law_*` proof functions.

## Layout

- `src/` — the verified library.
  - `triple`, `host`: target triples, partial triples and their completion
    against a host, which toolchains a host can run, host detection from
    what the system reports.
  - `toolchain`, `legacy_toolchain`: toolchain names, channels, partial
    versions, profiles, manifest addresses.
  - `manifest`, `status`: distribution manifests (packages, targets,
    renames, profiles), component naming and lookups, component status.
  - `manifestation`, `dist`: planning an installation or update (what to
    remove, download and install), requested components, backtracking over
    nightly releases, the messages for unavailable components.
  - `transaction`, `package`, `unpack`, `prefix`, `temp`: the bookkeeping
    of file system changes and their roll-back, package layout, where
    unpacked entries go, installation paths, temporary names.
  - `download`, `env_var`, `home`, `tools`, `commands`: download settings
    and hash checks, search paths, home directories, proxies, command line
    decisions.
  - `install`, `self_install`, `self_update`: installing toolchains and the
    installer itself, and editing the search path.
  - `errors`, `utils_error`, `notifications`: error messages, progress and
    warning messages with their levels.
  - `outside`: the trusted wrappers around the `semver` and `chrono`
    crates, each with the contract it is trusted to meet.
- `tests/` — tests run against the compiled library.
- `app/` — a small command-line front end that does the file, network and
  environment work and asks the library what to do.
