//! Settings of the downloader: which TLS stack to use and how long to wait.

use vstd::prelude::*;
use vstd::string::StringSliceAdditionalSpecFns;
use crate::notifications::Notification;
use crate::prefix::{join_path, path_join};
use crate::text::{concat2, concat3, str_eq, substring};

verus! {

/// The value of a decimal digit character.
pub open spec fn digit_value(c: char) -> nat {
    if c == '1' { 1 }
    else if c == '2' { 2 }
    else if c == '3' { 3 }
    else if c == '4' { 4 }
    else if c == '5' { 5 }
    else if c == '6' { 6 }
    else if c == '7' { 7 }
    else if c == '8' { 8 }
    else if c == '9' { 9 }
    else { 0 }
}

fn digit_value_exec(c: char) -> (r: u64)
    ensures
        r == digit_value(c),
{
    if c == '1' { 1 }
    else if c == '2' { 2 }
    else if c == '3' { 3 }
    else if c == '4' { 4 }
    else if c == '5' { 5 }
    else if c == '6' { 6 }
    else if c == '7' { 7 }
    else if c == '8' { 8 }
    else if c == '9' { 9 }
    else { 0 }
}

/// Whether a character is an ASCII decimal digit.
pub open spec fn is_ascii_digit(c: char) -> bool {
    '0' <= c && c <= '9'
}

/// The number that decimal digits stand for.
pub open spec fn digits_value(s: Seq<char>) -> nat
    decreases s.len(),
{
    if s.len() == 0 {
        0
    } else {
        digits_value(s.drop_last()) * 10 + digit_value(s.last())
    }
}

/// The text after an optional leading `+`.
pub open spec fn unsigned_digits(s: Seq<char>) -> Seq<char> {
    if s.len() > 0 && s[0] == '+' { s.skip(1) } else { s }
}

/// Whether all characters are ASCII decimal digits.
pub open spec fn all_ascii_digits(d: Seq<char>) -> bool {
    forall|i: int| 0 <= i < d.len() ==> is_ascii_digit(#[trigger] d[i])
}

/// How Rust reads an unsigned 64-bit number (`u64::from_str`): an optional
/// `+`, then at least one decimal digit, the value fitting in 64 bits.
pub open spec fn parse_u64_spec(s: Seq<char>) -> Option<u64> {
    let d = unsigned_digits(s);
    if d.len() > 0 && all_ascii_digits(d) && digits_value(d) <= u64::MAX {
        Some(digits_value(d) as u64)
    } else {
        None
    }
}

proof fn lemma_digits_value_prefix(s: Seq<char>, j: int)
    requires
        0 <= j <= s.len(),
    ensures
        digits_value(s.take(j)) <= digits_value(s),
    decreases s.len(),
{
    if j < s.len() {
        assert(s.drop_last().take(j) =~= s.take(j));
        lemma_digits_value_prefix(s.drop_last(), j);
    } else {
        assert(s.take(j) =~= s);
    }
}

/// Reads an unsigned 64-bit number; see [`parse_u64_spec`].
pub fn parse_u64(s: &str) -> (r: Option<u64>)
    ensures
        r == parse_u64_spec(s@),
{
    let n = s.unicode_len();
    let start: usize = if n > 0 && s.get_char(0) == '+' { 1 } else { 0 };
    let ghost d = unsigned_digits(s@);
    assert(d =~= s@.skip(start as int));
    if start == n {
        return None;
    }
    let mut acc: u64 = 0;
    let mut i: usize = start;
    assert(d.take(0) =~= Seq::<char>::empty());
    while i < n
        invariant
            n == s@.len(),
            start <= i <= n,
            start < n,
            d == s@.skip(start as int),
            d == unsigned_digits(s@),
            d.len() > 0,
            forall|k: int| 0 <= k < i - start ==> is_ascii_digit(#[trigger] d[k]),
            acc == digits_value(d.take(i - start)),
        decreases n - i,
    {
        let c = s.get_char(i);
        proof {
            assert(d[i - start] == c);
            assert(d.take(i - start + 1).drop_last() =~= d.take(i - start));
            assert(d.take(i - start + 1).last() == c);
        }
        if !('0' <= c && c <= '9') {
            assert(!is_ascii_digit(d[i - start]));
            return None;
        }
        let v = digit_value_exec(c);
        if acc > (u64::MAX - v) / 10 {
            proof {
                lemma_digits_value_prefix(d, i - start + 1);
                assert(digits_value(d.take(i - start + 1)) == acc * 10 + v);
                assert(acc * 10 + v > u64::MAX) by (nonlinear_arith)
                    requires
                        acc > (u64::MAX - v) / 10,
                        v <= 9;
            }
            return None;
        }
        assert(acc * 10 + v <= u64::MAX) by (nonlinear_arith)
            requires
                acc <= (u64::MAX - v) / 10,
                v <= 9;
        acc = acc * 10 + v;
        i = i + 1;
    }
    assert(d.take(n - start) =~= d);
    Some(acc)
}

/// The TLS stacks a build of the downloader can use.
#[derive(Debug, Clone, Copy, PartialEq, Eq, Structural)]
pub enum Tls {
    Rustls,
    NativeTls,
}

/// Which TLS stacks this build of the downloader has.
#[derive(Debug, Clone, Copy, PartialEq, Eq, Structural)]
pub struct TlsBackends {
    pub rustls: bool,
    pub native_tls: bool,
}

/// The downloader's settings: TLS stack and time-out in seconds.
#[derive(Debug, Clone, Copy, PartialEq, Eq, Structural)]
pub struct DownloadOptions {
    pub tls: Tls,
    pub timeout_secs: u64,
}

/// Why the downloader's settings are refused.
#[derive(Debug, Clone, Copy, PartialEq, Eq, Structural)]
pub enum DownloadOptionsError {
    /// `rustls` was asked for and this build lacks it.
    RustlsUnavailable,
    /// The native stack was asked for and this build lacks it.
    NativeTlsUnavailable,
    /// The time-out is not a natural number greater than zero.
    InvalidTimeout,
}

/// The time-out, in seconds, when none is set.
pub const DEFAULT_TIMEOUT_SECS: u64 = 180;

/// The settings for a choice of TLS stack (`Some(true)` for `rustls`,
/// `Some(false)` for the native one, `None` for the default) and a
/// time-out text (`None` when unset): an explicit choice that the build
/// lacks is refused; the default is `rustls` when the build has it; the
/// time-out must read as a number greater than zero, and is
/// [`DEFAULT_TIMEOUT_SECS`] when unset.
pub open spec fn download_options_spec(use_rustls: Option<bool>, b: TlsBackends, timeout: Option<Seq<char>>) -> Result<DownloadOptions, DownloadOptionsError> {
    if use_rustls == Some(true) && !b.rustls {
        Err(DownloadOptionsError::RustlsUnavailable)
    } else if use_rustls == Some(false) && !b.native_tls {
        Err(DownloadOptionsError::NativeTlsUnavailable)
    } else {
        let tls = if use_rustls == Some(false) || !b.rustls { Tls::NativeTls } else { Tls::Rustls };
        match timeout {
            None => Ok(DownloadOptions { tls, timeout_secs: DEFAULT_TIMEOUT_SECS }),
            Some(t) => match parse_u64_spec(t) {
                Some(v) => if v > 0 {
                    Ok(DownloadOptions { tls, timeout_secs: v })
                } else {
                    Err(DownloadOptionsError::InvalidTimeout)
                },
                None => Err(DownloadOptionsError::InvalidTimeout),
            },
        }
    }
}

impl DownloadOptions {
    /// The downloader's settings; see [`download_options_spec`]. The build
    /// has at least one TLS stack.
    pub fn from_settings(use_rustls: Option<bool>, backends: TlsBackends, timeout: Option<&str>) -> (r: Result<DownloadOptions, DownloadOptionsError>)
        requires
            backends.rustls || backends.native_tls,
        ensures
            r == download_options_spec(use_rustls, backends, match timeout {
                Some(t) => Some(t@),
                None => None,
            }),
    {
        if use_rustls == Some(true) && !backends.rustls {
            return Err(DownloadOptionsError::RustlsUnavailable);
        }
        if use_rustls == Some(false) && !backends.native_tls {
            return Err(DownloadOptionsError::NativeTlsUnavailable);
        }
        let tls = if use_rustls == Some(false) || !backends.rustls { Tls::NativeTls } else { Tls::Rustls };
        match timeout {
            None => Ok(DownloadOptions { tls, timeout_secs: DEFAULT_TIMEOUT_SECS }),
            Some(t) => match parse_u64(t) {
                Some(v) => if v > 0 {
                    Ok(DownloadOptions { tls, timeout_secs: v })
                } else {
                    Err(DownloadOptionsError::InvalidTimeout)
                },
                None => Err(DownloadOptionsError::InvalidTimeout),
            },
        }
    }
}


/// Where a download of the file named `hash` in `download_dir` is kept
/// while under way: the name used by earlier versions (`HASH.partial`),
/// and a name of its own (`HASH.RANDOM.partial`).
pub fn partial_paths(download_dir: &str, hash: &str, random: &str) -> (r: (String, String))
    ensures
        r.0@ == path_join(download_dir@, hash@ + ".partial"@),
        r.1@ == path_join(download_dir@, hash@ + "."@ + random@ + ".partial"@),
{
    let legacy = concat2(hash, ".partial");
    let mut unique = concat3(hash, ".", random);
    unique.append(".partial");
    (join_path(download_dir, legacy.as_str()), join_path(download_dir, unique.as_str()))
}

/// How a failed download is reported.
#[derive(Debug, Clone, Copy, PartialEq, Eq, Structural)]
pub enum DownloadFailure {
    /// A partial file was resumed and the network failed again.
    IncompletePartialFile,
    /// A partial file was resumed and turned out damaged.
    BrokenPartialFile,
    /// The error as it is.
    Plain,
}

/// What keeping a partial file for a later resumption does.
#[derive(Debug, Clone, Copy, PartialEq, Eq, Structural)]
pub enum KeepPartial {
    /// Nothing: there is no partial file.
    Nothing,
    /// Remove this process's partial file: one under the shared name is
    /// already kept.
    RemoveDuplicate,
    /// Move this process's partial file to the shared name.
    MoveToShared,
}

/// How a partial file (under this process's name, `partial_exists`) is
/// kept for a later resumption under the shared name (`shared_exists`).
pub fn keep_partial_for_resume(partial_exists: bool, shared_exists: bool) -> (r: KeepPartial)
    ensures
        r == (if !partial_exists {
            KeepPartial::Nothing
        } else if shared_exists {
            KeepPartial::RemoveDuplicate
        } else {
            KeepPartial::MoveToShared
        }),
{
    if !partial_exists {
        KeepPartial::Nothing
    } else if shared_exists {
        KeepPartial::RemoveDuplicate
    } else {
        KeepPartial::MoveToShared
    }
}

/// What to do with a file already downloaded under the expected hash's
/// name.
#[derive(Debug, Clone, Copy, PartialEq, Eq, Structural)]
pub enum CachedFile {
    /// There is none.
    Absent,
    /// Its hash is the expected one: use it without downloading.
    Reuse,
    /// Its hash is another: remove it.
    Remove,
}

/// Whether a file already downloaded (`exists`, with its hash
/// `cached_hash`) can be used for `expected`.
pub fn cached_file(exists: bool, expected: &str, cached_hash: &str) -> (r: CachedFile)
    ensures
        r == (if !exists {
            CachedFile::Absent
        } else if expected@ == cached_hash@ {
            CachedFile::Reuse
        } else {
            CachedFile::Remove
        }),
{
    if !exists {
        CachedFile::Absent
    } else if str_eq(expected, cached_hash) {
        CachedFile::Reuse
    } else {
        CachedFile::Remove
    }
}

/// After a failed download: whether to keep the partial file to resume
/// later (only after a network failure), and how to report the failure
/// (by whether a partial file was resumed and whether the network
/// failed).
pub fn download_failure(partial_existed: bool, network_failure: bool) -> (r: (bool, DownloadFailure))
    ensures
        r.0 == network_failure,
        r.1 == (if !partial_existed {
            DownloadFailure::Plain
        } else if network_failure {
            DownloadFailure::IncompletePartialFile
        } else {
            DownloadFailure::BrokenPartialFile
        }),
{
    let kind = if !partial_existed {
        DownloadFailure::Plain
    } else if network_failure {
        DownloadFailure::IncompletePartialFile
    } else {
        DownloadFailure::BrokenPartialFile
    };
    (network_failure, kind)
}

/// Why a downloaded file's hash is refused.
#[derive(Debug, Clone, PartialEq, Eq)]
pub enum HashMismatch {
    /// A resumed partial file was damaged.
    BrokenPartialFile,
    /// The file's hash is not the expected one.
    ChecksumFailed { url: String, expected: String, calculated: String },
}

/// Checks the hash of a downloaded file: it must be the expected one; a
/// mismatch after resuming a partial file means the partial file was
/// damaged.
pub fn check_download_hash(url: &str, expected: &str, calculated: &str, partial_existed: bool) -> (r: Result<(), HashMismatch>)
    ensures
        r is Ok <==> expected@ == calculated@,
        r matches Err(HashMismatch::BrokenPartialFile) ==> partial_existed,
        r matches Err(HashMismatch::ChecksumFailed { url: u, expected: e, calculated: c })
            ==> !partial_existed && u@ == url@ && e@ == expected@ && c@ == calculated@,
        r is Err ==> (partial_existed <==> r matches Err(HashMismatch::BrokenPartialFile)),
{
    if str_eq(expected, calculated) {
        Ok(())
    } else if partial_existed {
        Err(HashMismatch::BrokenPartialFile)
    } else {
        Err(HashMismatch::ChecksumFailed { url: url.to_owned(), expected: expected.to_owned(), calculated: calculated.to_owned() })
    }
}

/// The hash in the text of a `.sha256` file: its first 64 bytes, which
/// must end on a character boundary.
pub fn hash_from_sha256_file(text: &str) -> (r: String)
    requires
        text.spec_bytes().len() >= 64,
        vstd::utf8::is_char_boundary(text.spec_bytes(), 64),
    ensures
        vstd::utf8::encode_utf8(r@) == text.spec_bytes().subrange(0, 64),
{
    let (head, _) = text.split_at(64);
    head.to_owned()
}

/// The address of the hash of the file at `url`: `URL.sha256`.
pub fn hash_url(url: &str) -> (r: String)
    ensures
        r@ == url@ + ".sha256"@,
{
    concat2(url, ".sha256")
}

/// The address of the signature of the file at `url`: `URL.asc`.
pub fn signature_url(url: &str) -> (r: String)
    ensures
        r@ == url@ + ".asc"@,
{
    concat2(url, ".asc")
}

/// What came of fetching the signature at [`signature_url`] and checking
/// the downloaded file against it.
#[derive(Debug, Clone, Copy, PartialEq, Eq, Structural)]
pub enum SignatureOutcome {
    /// The signature was found and verifies.
    Verified,
    /// No signature was found.
    Missing,
    /// The signature was found and does not verify.
    Invalid,
}

/// The warning that a signature check calls for: none when the signature
/// verifies; when it is missing or does not verify, a warning naming the
/// download `url`.
pub fn signature_warning(url: &str, outcome: SignatureOutcome) -> (r: Option<Notification>)
    ensures
        r is None <==> outcome == SignatureOutcome::Verified,
        r matches Some(n) ==> (n matches Notification::SignatureInvalid(u) && u@ == url@),
{
    match outcome {
        SignatureOutcome::Verified => None,
        SignatureOutcome::Missing | SignatureOutcome::Invalid => Some(Notification::SignatureInvalid(url.to_owned())),
    }
}

/// How many characters of a manifest's hash are recorded after an update.
pub const UPDATE_HASH_LEN: usize = 20;

/// The part of a hash that is recorded after an update: its first
/// [`UPDATE_HASH_LEN`] characters, or all of it when shorter.
pub open spec fn partial_hash_spec(hash: Seq<char>) -> Seq<char> {
    if hash.len() <= UPDATE_HASH_LEN { hash } else { hash.take(UPDATE_HASH_LEN as int) }
}

/// The part of `hash` that is recorded after an update; see
/// [`partial_hash_spec`].
pub fn partial_hash(hash: &str) -> (r: String)
    ensures
        r@ == partial_hash_spec(hash@),
{
    let n = hash.unicode_len();
    if n <= UPDATE_HASH_LEN {
        hash.to_owned()
    } else {
        substring(hash, 0, UPDATE_HASH_LEN)
    }
}

/// Whether a download can be skipped: the update hash recorded by the
/// last update (`recorded`, when there is a readable one) is the partial
/// hash of the hash now published.
pub fn update_hash_matches(recorded: Option<&str>, hash: &str) -> (r: bool)
    ensures
        r == (match recorded { Some(c) => c@ == partial_hash_spec(hash@), None => false }),
{
    match recorded {
        Some(c) => {
            let p = partial_hash(hash);
            str_eq(c, p.as_str())
        },
        None => false,
    }
}

/// The update hash file to compare against when fetching a manifest: none
/// when components or targets were asked for, since those must be
/// installed even if the manifest has not changed.
pub fn manifest_update_hash(components_empty: bool, targets_empty: bool, update_hash: Option<String>) -> (r: Option<String>)
    ensures
        r == (if components_empty && targets_empty { update_hash } else { None }),
{
    if components_empty && targets_empty { update_hash } else { None }
}

/// How Rust reads an unsigned machine-size number (`usize::from_str`):
/// as an unsigned 64-bit one (see [`parse_u64_spec`]) that fits in a
/// `usize`.
pub open spec fn parse_usize_spec(s: Seq<char>) -> Option<usize> {
    match parse_u64_spec(s) {
        Some(v) => if v <= usize::MAX { Some(v as usize) } else { None },
        None => None,
    }
}

/// Reads an unsigned machine-size number; see [`parse_usize_spec`].
pub fn parse_usize(s: &str) -> (r: Option<usize>)
    ensures
        r == parse_usize_spec(s@),
{
    match parse_u64(s) {
        Some(v) => if v <= usize::MAX as u64 { Some(v as usize) } else { None },
        None => None,
    }
}

/// How many times a component download is retried when not configured.
pub const DEFAULT_MAX_RETRIES: usize = 3;

/// How many times a component download is retried: the configured value
/// (`RUSTUP_MAX_RETRIES`) when it reads as a number, else
/// [`DEFAULT_MAX_RETRIES`].
pub fn max_retries(configured: Option<&str>) -> (r: usize)
    ensures
        r == (match configured {
            Some(s) => match parse_usize_spec(s@) { Some(v) => v, None => DEFAULT_MAX_RETRIES },
            None => DEFAULT_MAX_RETRIES,
        }),
{
    match configured {
        Some(s) => match parse_usize(s) {
            Some(v) => v,
            None => DEFAULT_MAX_RETRIES,
        },
        None => DEFAULT_MAX_RETRIES,
    }
}

} // verus!
