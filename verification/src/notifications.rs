//! The installer's progress and warning messages: their texts and how loud
//! each one is. Showing them is the caller's part.

use vstd::prelude::*;
use crate::manifest::{component_name_spec, short_name_spec, Component, ComponentV, Manifest, ManifestV};
use crate::text::{concat3, join_strings, join_with, str_eq, texts_view};
use crate::toolchain::ToolchainDesc;
use crate::triple::TargetTriple;

verus! {

/// How loud a message is.
#[derive(Debug, Clone, Copy, PartialEq, Eq, Structural)]
pub enum NotificationLevel {
    Debug,
    Info,
    Warn,
    Error,
}

/// Something the installer reports while it works. Paths and errors are
/// carried as their texts.
#[derive(Debug)]
pub enum Notification {
    /// Unpacking an archive (from, to).
    Extracting(String, String),
    ComponentAlreadyInstalled(String),
    /// The update hash file at this path could not be read.
    CantReadUpdateHash(String),
    /// No update hash at this path.
    NoUpdateHash(String),
    ChecksumValid(String),
    FileAlreadyDownloaded,
    CachedFileChecksumFailed,
    RollingBack,
    ExtensionNotInstalled(String),
    /// An error that does not stop the work, by its text.
    NonFatalError(String),
    MissingInstalledComponent(String),
    /// Component, host triple, component's target.
    DownloadingComponent(String, TargetTriple, Option<TargetTriple>),
    InstallingComponent(String, TargetTriple, Option<TargetTriple>),
    RemovingComponent(String, TargetTriple, Option<TargetTriple>),
    RemovingOldComponent(String, TargetTriple, Option<TargetTriple>),
    DownloadingManifest(String),
    /// Date of the manifest, and the Rust version it offers if known.
    DownloadedManifest(String, Option<String>),
    DownloadingLegacyManifest,
    /// A nightly was passed over because it lacks installed components.
    SkippingNightlyMissingComponent(ToolchainDesc, Manifest, Vec<Component>),
    ForcingUnavailableComponent(String),
    /// Package, and the target it is missing for if known.
    ComponentUnavailable(String, Option<TargetTriple>),
    /// A stray update hash file at this path is removed.
    StrayHash(String),
    SignatureInvalid(String),
    RetryingDownload(String),
}

/// The level of each notification.
pub open spec fn notification_level(n: &Notification) -> NotificationLevel {
    match n {
        Notification::ChecksumValid(_) | Notification::NoUpdateHash(_) | Notification::FileAlreadyDownloaded
        | Notification::DownloadingLegacyManifest => NotificationLevel::Debug,
        Notification::Extracting(_, _) | Notification::DownloadingComponent(_, _, _)
        | Notification::InstallingComponent(_, _, _) | Notification::RemovingComponent(_, _, _)
        | Notification::RemovingOldComponent(_, _, _) | Notification::ComponentAlreadyInstalled(_)
        | Notification::RollingBack | Notification::DownloadingManifest(_)
        | Notification::SkippingNightlyMissingComponent(_, _, _) | Notification::RetryingDownload(_)
        | Notification::DownloadedManifest(_, _) => NotificationLevel::Info,
        Notification::NonFatalError(_) => NotificationLevel::Error,
        _ => NotificationLevel::Warn,
    }
}

/// `VERB 'C'`, followed by ` for 'T'` when the component's target `t` is
/// given and differs from the host `h`.
pub open spec fn component_action_text(verb: Seq<char>, c: Seq<char>, h: Seq<char>, t: Option<Seq<char>>) -> Seq<char> {
    match t {
        Some(t) if t != h => verb + "'"@ + c + "' for '"@ + t + "'"@,
        _ => verb + "'"@ + c + "'"@,
    }
}

/// How a passed-over nightly names a missing component: with its target
/// when that is not the toolchain's target, by its short name otherwise.
pub open spec fn missing_component_label(m: ManifestV, target: Seq<char>, c: ComponentV) -> Seq<char> {
    if c.1 != Some(target) {
        component_name_spec(m, c)
    } else {
        short_name_spec(m, c)
    }
}

/// The labels of the missing components, in order.
pub open spec fn missing_component_labels(m: ManifestV, target: Seq<char>, cs: Seq<Component>) -> Seq<Seq<char>> {
    Seq::new(cs.len(), |i: int| missing_component_label(m, target, cs[i]@))
}

/// The text of a target given or not.
pub open spec fn opt_triple(t: &Option<TargetTriple>) -> Option<Seq<char>> {
    match t {
        Some(x) => Some(x@),
        None => None,
    }
}

/// The text of each notification.
pub open spec fn notification_message(n: &Notification) -> Seq<char> {
    match n {
        Notification::Extracting(_, _) => "extracting..."@,
        Notification::ComponentAlreadyInstalled(c) => "component "@ + c@ + " is up to date"@,
        Notification::CantReadUpdateHash(p) => "can't read update hash file: '"@ + p@ + "', can't skip update..."@,
        Notification::NoUpdateHash(p) => "no update hash at: '"@ + p@ + "'"@,
        Notification::ChecksumValid(_) => "checksum passed"@,
        Notification::FileAlreadyDownloaded => "reusing previously downloaded file"@,
        Notification::CachedFileChecksumFailed => "bad checksum for cached download"@,
        Notification::RollingBack => "rolling back changes"@,
        Notification::ExtensionNotInstalled(c) => "extension '"@ + c@ + "' was not installed"@,
        Notification::NonFatalError(e) => e@,
        Notification::MissingInstalledComponent(c) => "during uninstall component "@ + c@ + " was not found"@,
        Notification::DownloadingComponent(c, h, t) => component_action_text("downloading component "@, c@, h@, opt_triple(t)),
        Notification::InstallingComponent(c, h, t) => component_action_text("installing component "@, c@, h@, opt_triple(t)),
        Notification::RemovingComponent(c, h, t) => component_action_text("removing component "@, c@, h@, opt_triple(t)),
        Notification::RemovingOldComponent(c, h, t) =>
            component_action_text("removing previous version of component "@, c@, h@, opt_triple(t)),
        Notification::DownloadingManifest(t) => "syncing channel updates for '"@ + t@ + "'"@,
        Notification::DownloadedManifest(date, Some(v)) => "latest update on "@ + date@ + ", rust version "@ + v@,
        Notification::DownloadedManifest(date, None) => "latest update on "@ + date@ + ", no rust version"@,
        Notification::DownloadingLegacyManifest => "manifest not found. trying legacy manifest"@,
        Notification::SkippingNightlyMissingComponent(tc, m, cs) =>
            "skipping nightly which is missing installed component"@ + (if cs@.len() > 1 { "s"@ } else { ""@ })
                + " '"@ + join_with(missing_component_labels(m@, tc.target@, cs@), "', '"@) + "'"@,
        Notification::ForcingUnavailableComponent(c) => "Force-skipping unavailable component '"@ + c@ + "'"@,
        Notification::ComponentUnavailable(p, Some(t)) => "component '"@ + p@ + "' is not available on target '"@ + t@ + "'"@,
        Notification::ComponentUnavailable(p, None) => "component '"@ + p@ + "' is not available"@,
        Notification::StrayHash(p) => "removing stray hash found at '"@ + p@ + "' in order to continue"@,
        Notification::SignatureInvalid(u) => "Signature verification failed for '"@ + u@ + "'"@,
        Notification::RetryingDownload(u) => "retrying download for '"@ + u@ + "'"@,
    }
}

/// `VERB 'C'` or `VERB 'C' for 'T'`; see [`component_action_text`].
fn component_action(verb: &str, c: &String, h: &TargetTriple, t: &Option<TargetTriple>) -> (r: String)
    ensures
        r@ == component_action_text(verb@, c@, h@, opt_triple(t)),
{
    let mut r = concat3(verb, "'", c.as_str());
    match t {
        Some(x) if !str_eq(x.as_str(), h.as_str()) => {
            r.append("' for '");
            r.append(x.as_str());
            r.append("'");
        },
        _ => {
            r.append("'");
        },
    }
    r
}

/// The labels of the missing components; see [`missing_component_labels`].
fn missing_labels(m: &Manifest, target: &TargetTriple, cs: &Vec<Component>) -> (r: Vec<String>)
    ensures
        texts_view(r@) == missing_component_labels(m@, target@, cs@),
{
    let mut out: Vec<String> = Vec::new();
    let mut i: usize = 0;
    while i < cs.len()
        invariant
            i <= cs@.len(),
            out@.len() == i,
            forall|k: int| 0 <= k < i ==> (#[trigger] out@[k])@ == missing_component_label(m@, target@, cs@[k]@),
        decreases cs@.len() - i,
    {
        let c = &cs[i];
        let same = match &c.target {
            Some(t) => str_eq(t.as_str(), target.as_str()),
            None => false,
        };
        let label = if same { m.short_name(c) } else { m.component_name(c) };
        out.push(label);
        i = i + 1;
    }
    assert(texts_view(out@) =~= missing_component_labels(m@, target@, cs@));
    out
}

impl Notification {
    /// How loud this notification is; see [`notification_level`].
    pub fn level(&self) -> (r: NotificationLevel)
        ensures
            r == notification_level(self),
    {
        match self {
            Notification::ChecksumValid(_) | Notification::NoUpdateHash(_) | Notification::FileAlreadyDownloaded
            | Notification::DownloadingLegacyManifest => NotificationLevel::Debug,
            Notification::Extracting(_, _) | Notification::DownloadingComponent(_, _, _)
            | Notification::InstallingComponent(_, _, _) | Notification::RemovingComponent(_, _, _)
            | Notification::RemovingOldComponent(_, _, _) | Notification::ComponentAlreadyInstalled(_)
            | Notification::RollingBack | Notification::DownloadingManifest(_)
            | Notification::SkippingNightlyMissingComponent(_, _, _) | Notification::RetryingDownload(_)
            | Notification::DownloadedManifest(_, _) => NotificationLevel::Info,
            Notification::NonFatalError(_) => NotificationLevel::Error,
            _ => NotificationLevel::Warn,
        }
    }

    /// The text of this notification; see [`notification_message`].
    pub fn message(&self) -> (r: String)
        ensures
            r@ == notification_message(self),
    {
        match self {
            Notification::Extracting(_, _) => "extracting...".to_owned(),
            Notification::ComponentAlreadyInstalled(c) => concat3("component ", c.as_str(), " is up to date"),
            Notification::CantReadUpdateHash(p) =>
                concat3("can't read update hash file: '", p.as_str(), "', can't skip update..."),
            Notification::NoUpdateHash(p) => concat3("no update hash at: '", p.as_str(), "'"),
            Notification::ChecksumValid(_) => "checksum passed".to_owned(),
            Notification::FileAlreadyDownloaded => "reusing previously downloaded file".to_owned(),
            Notification::CachedFileChecksumFailed => "bad checksum for cached download".to_owned(),
            Notification::RollingBack => "rolling back changes".to_owned(),
            Notification::ExtensionNotInstalled(c) => concat3("extension '", c.as_str(), "' was not installed"),
            Notification::NonFatalError(e) => e.clone(),
            Notification::MissingInstalledComponent(c) =>
                concat3("during uninstall component ", c.as_str(), " was not found"),
            Notification::DownloadingComponent(c, h, t) => component_action("downloading component ", c, h, t),
            Notification::InstallingComponent(c, h, t) => component_action("installing component ", c, h, t),
            Notification::RemovingComponent(c, h, t) => component_action("removing component ", c, h, t),
            Notification::RemovingOldComponent(c, h, t) =>
                component_action("removing previous version of component ", c, h, t),
            Notification::DownloadingManifest(t) => concat3("syncing channel updates for '", t.as_str(), "'"),
            Notification::DownloadedManifest(date, Some(v)) => {
                let mut r = concat3("latest update on ", date.as_str(), ", rust version ");
                r.append(v.as_str());
                r
            },
            Notification::DownloadedManifest(date, None) =>
                concat3("latest update on ", date.as_str(), ", no rust version"),
            Notification::DownloadingLegacyManifest => "manifest not found. trying legacy manifest".to_owned(),
            Notification::SkippingNightlyMissingComponent(tc, m, cs) => {
                let labels = missing_labels(m, &tc.target, cs);
                let joined = join_strings(&labels, "', '");
                let plural = if cs.len() > 1 { "s" } else { "" };
                let mut r = concat3("skipping nightly which is missing installed component", plural, " '");
                r.append(joined.as_str());
                r.append("'");
                r
            },
            Notification::ForcingUnavailableComponent(c) =>
                concat3("Force-skipping unavailable component '", c.as_str(), "'"),
            Notification::ComponentUnavailable(p, Some(t)) => {
                let mut r = concat3("component '", p.as_str(), "' is not available on target '");
                r.append(t.as_str());
                r.append("'");
                r
            },
            Notification::ComponentUnavailable(p, None) => concat3("component '", p.as_str(), "' is not available"),
            Notification::StrayHash(p) => concat3("removing stray hash found at '", p.as_str(), "' in order to continue"),
            Notification::SignatureInvalid(u) => concat3("Signature verification failed for '", u.as_str(), "'"),
            Notification::RetryingDownload(u) => concat3("retrying download for '", u.as_str(), "'"),
        }
    }
}

} // verus!
