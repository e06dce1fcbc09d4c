//! Failures of the file system, download and command helpers, with the
//! message, the short description and the underlying cause that each one
//! reports. Paths, addresses and the underlying errors are held as the
//! text they are shown as.

use vstd::prelude::*;

verus! {

/// A failure of a file system, download or command helper.
#[derive(Debug)]
pub enum UtilsError {
    LocatingHome,
    LocatingWorkingDir { error: String },
    ReadingFile { name: String, path: String, error: String },
    ReadingDirectory { name: String, path: String, error: String },
    WritingFile { name: String, path: String, error: String },
    CreatingDirectory { name: String, path: String, error: String },
    FilteringFile { name: String, src: String, dest: String, error: String },
    RenamingFile { name: String, src: String, dest: String, error: String },
    RenamingDirectory { name: String, src: String, dest: String, error: String },
    DownloadingFile { url: String, path: String, error: String },
    InvalidUrl { url: String },
    RunningCommand { name: String, error: String },
    NotAFile { path: String },
    NotADirectory { path: String },
    LinkingFile { src: String, dest: String, error: String },
    LinkingDirectory { src: String, dest: String, error: String },
    CopyingDirectory { src: String, dest: String, error: String },
    CopyingFile { src: String, dest: String, error: String },
    RemovingFile { name: String, path: String, error: String },
    RemovingDirectory { name: String, path: String, error: String },
    OpeningBrowser { error: Option<String> },
    SettingPermissions { path: String, error: String },
}

/// `what NAME kind: 'PATH' (ERROR)`, the shape of the messages about one
/// named file or directory.
pub open spec fn named_path_msg(what: Seq<char>, name: Seq<char>, kind: Seq<char>, path: Seq<char>, error: Seq<char>) -> Seq<char> {
    what + name + kind + "'"@ + path + "' ("@ + error + ")"@
}

/// `what from 'SRC' to 'DEST' (ERROR)`, the shape of the messages about a
/// source and a destination.
pub open spec fn from_to_msg(what: Seq<char>, src: Seq<char>, dest: Seq<char>, error: Seq<char>) -> Seq<char> {
    what + "from '"@ + src + "' to '"@ + dest + "' ("@ + error + ")"@
}

/// The message an error shows.
pub open spec fn error_message(e: &UtilsError) -> Seq<char> {
    match e {
        UtilsError::LocatingHome => "could not locate home directory"@,
        UtilsError::LocatingWorkingDir { error } => "could not locate working directory ("@ + error@ + ")"@,
        UtilsError::ReadingFile { name, path, error } => named_path_msg("could not read "@, name@, " file: "@, path@, error@),
        UtilsError::ReadingDirectory { name, path, error } => named_path_msg("could not read "@, name@, " directory: "@, path@, error@),
        UtilsError::WritingFile { name, path, error } => named_path_msg("could not write "@, name@, " file: "@, path@, error@),
        UtilsError::CreatingDirectory { name, path, error } => named_path_msg("could not create "@, name@, " directory: "@, path@, error@),
        UtilsError::FilteringFile { name, src, dest, error } => from_to_msg("could not copy "@ + name@ + " file "@, src@, dest@, error@),
        UtilsError::RenamingFile { name, src, dest, error } => from_to_msg("could not rename "@ + name@ + " file "@, src@, dest@, error@),
        UtilsError::RenamingDirectory { name, src, dest, error } => from_to_msg("could not rename "@ + name@ + " directory "@, src@, dest@, error@),
        UtilsError::DownloadingFile { url, path, error } => from_to_msg("could not download file "@, url@, path@, error@),
        UtilsError::InvalidUrl { url } => "invalid url: '"@ + url@ + "'"@,
        UtilsError::RunningCommand { name, error } => "command failed: '"@ + name@ + "' ("@ + error@ + ")"@,
        UtilsError::NotAFile { path } => "not a file: '"@ + path@ + "'"@,
        UtilsError::NotADirectory { path } => "not a directory: '"@ + path@ + "'"@,
        UtilsError::LinkingFile { src, dest, error } => from_to_msg("could not create link "@, src@, dest@, error@),
        UtilsError::LinkingDirectory { src, dest, error } => from_to_msg("could not create symlink "@, src@, dest@, error@),
        UtilsError::CopyingDirectory { src, dest, error } => from_to_msg("could not copy directory "@, src@, dest@, error@),
        UtilsError::CopyingFile { src, dest, error } => from_to_msg("could not copy file "@, src@, dest@, error@),
        UtilsError::RemovingFile { name, path, error } => named_path_msg("could not remove "@, name@, " file: "@, path@, error@),
        UtilsError::RemovingDirectory { name, path, error } =>
            "could not remove "@ + name@ + " directory: '"@ + path@ + " ("@ + error@ + ")'"@,
        UtilsError::OpeningBrowser { error: Some(e) } => "could not open browser: "@ + e@,
        UtilsError::OpeningBrowser { error: None } => "could not open browser: no browser installed"@,
        UtilsError::SettingPermissions { path, error } => "failed to set permissions for: '"@ + path@ + " ("@ + error@ + ")'"@,
    }
}

/// The short description of an error.
pub open spec fn error_description(e: &UtilsError) -> Seq<char> {
    match e {
        UtilsError::LocatingHome => "could not locate home directory"@,
        UtilsError::LocatingWorkingDir { .. } => "could not locate working directory"@,
        UtilsError::ReadingFile { .. } => "could not read file"@,
        UtilsError::ReadingDirectory { .. } => "could not read directory"@,
        UtilsError::WritingFile { .. } => "could not write file"@,
        UtilsError::CreatingDirectory { .. } => "could not create directory"@,
        UtilsError::FilteringFile { .. } => "could not copy  file"@,
        UtilsError::RenamingFile { .. } => "could not rename file"@,
        UtilsError::RenamingDirectory { .. } => "could not rename directory"@,
        UtilsError::DownloadingFile { .. } => "could not download file"@,
        UtilsError::InvalidUrl { .. } => "invalid url"@,
        UtilsError::RunningCommand { .. } => "command failed"@,
        UtilsError::NotAFile { .. } => "not a file"@,
        UtilsError::NotADirectory { .. } => "not a directory"@,
        UtilsError::LinkingFile { .. } => "could not link file"@,
        UtilsError::LinkingDirectory { .. } => "could not symlink directory"@,
        UtilsError::CopyingDirectory { .. } => "could not copy directory"@,
        UtilsError::CopyingFile { .. } => "could not copy file"@,
        UtilsError::RemovingFile { .. } => "could not remove file"@,
        UtilsError::RemovingDirectory { .. } => "could not remove directory"@,
        UtilsError::OpeningBrowser { error: Some(_) } => "could not open browser"@,
        UtilsError::OpeningBrowser { error: None } => "could not open browser: no browser installed"@,
        UtilsError::SettingPermissions { .. } => "failed to set permissions"@,
    }
}

/// The underlying error of an error, if it carries one: every variant
/// but those about the home directory, an address or the kind of a path,
/// and a browser that is missing.
pub open spec fn error_cause(e: &UtilsError) -> Option<Seq<char>> {
    match e {
        UtilsError::LocatingHome => None,
        UtilsError::InvalidUrl { .. } => None,
        UtilsError::NotAFile { .. } => None,
        UtilsError::NotADirectory { .. } => None,
        UtilsError::OpeningBrowser { error: None } => None,
        UtilsError::OpeningBrowser { error: Some(c) } => Some(c@),
        UtilsError::LocatingWorkingDir { error } => Some(error@),
        UtilsError::ReadingFile { error, .. } => Some(error@),
        UtilsError::ReadingDirectory { error, .. } => Some(error@),
        UtilsError::WritingFile { error, .. } => Some(error@),
        UtilsError::CreatingDirectory { error, .. } => Some(error@),
        UtilsError::FilteringFile { error, .. } => Some(error@),
        UtilsError::RenamingFile { error, .. } => Some(error@),
        UtilsError::RenamingDirectory { error, .. } => Some(error@),
        UtilsError::DownloadingFile { error, .. } => Some(error@),
        UtilsError::RunningCommand { error, .. } => Some(error@),
        UtilsError::LinkingFile { error, .. } => Some(error@),
        UtilsError::LinkingDirectory { error, .. } => Some(error@),
        UtilsError::CopyingDirectory { error, .. } => Some(error@),
        UtilsError::CopyingFile { error, .. } => Some(error@),
        UtilsError::RemovingFile { error, .. } => Some(error@),
        UtilsError::RemovingDirectory { error, .. } => Some(error@),
        UtilsError::SettingPermissions { error, .. } => Some(error@),
    }
}

fn named_path(what: &str, name: &str, kind: &str, path: &str, error: &str) -> (r: String)
    ensures
        r@ == named_path_msg(what@, name@, kind@, path@, error@),
{
    let mut r = what.to_owned();
    r.append(name);
    r.append(kind);
    r.append("'");
    r.append(path);
    r.append("' (");
    r.append(error);
    r.append(")");
    r
}

fn from_to(what: &str, src: &str, dest: &str, error: &str) -> (r: String)
    ensures
        r@ == from_to_msg(what@, src@, dest@, error@),
{
    let mut r = what.to_owned();
    r.append("from '");
    r.append(src);
    r.append("' to '");
    r.append(dest);
    r.append("' (");
    r.append(error);
    r.append(")");
    r
}

fn what_named(what: &str, name: &str, kind: &str) -> (r: String)
    ensures
        r@ == what@ + name@ + kind@,
{
    let mut r = what.to_owned();
    r.append(name);
    r.append(kind);
    r
}

impl UtilsError {
    /// The message this error shows; see [`error_message`].
    pub fn message(&self) -> (r: String)
        ensures
            r@ == error_message(self),
    {
        match self {
            UtilsError::LocatingHome => "could not locate home directory".to_owned(),
            UtilsError::LocatingWorkingDir { error } => what_named("could not locate working directory (", error.as_str(), ")"),
            UtilsError::ReadingFile { name, path, error } =>
                named_path("could not read ", name.as_str(), " file: ", path.as_str(), error.as_str()),
            UtilsError::ReadingDirectory { name, path, error } =>
                named_path("could not read ", name.as_str(), " directory: ", path.as_str(), error.as_str()),
            UtilsError::WritingFile { name, path, error } =>
                named_path("could not write ", name.as_str(), " file: ", path.as_str(), error.as_str()),
            UtilsError::CreatingDirectory { name, path, error } =>
                named_path("could not create ", name.as_str(), " directory: ", path.as_str(), error.as_str()),
            UtilsError::FilteringFile { name, src, dest, error } => {
                let what = what_named("could not copy ", name.as_str(), " file ");
                from_to(what.as_str(), src.as_str(), dest.as_str(), error.as_str())
            },
            UtilsError::RenamingFile { name, src, dest, error } => {
                let what = what_named("could not rename ", name.as_str(), " file ");
                from_to(what.as_str(), src.as_str(), dest.as_str(), error.as_str())
            },
            UtilsError::RenamingDirectory { name, src, dest, error } => {
                let what = what_named("could not rename ", name.as_str(), " directory ");
                from_to(what.as_str(), src.as_str(), dest.as_str(), error.as_str())
            },
            UtilsError::DownloadingFile { url, path, error } =>
                from_to("could not download file ", url.as_str(), path.as_str(), error.as_str()),
            UtilsError::InvalidUrl { url } => what_named("invalid url: '", url.as_str(), "'"),
            UtilsError::RunningCommand { name, error } => {
                let mut r = what_named("command failed: '", name.as_str(), "' (");
                r.append(error.as_str());
                r.append(")");
                r
            },
            UtilsError::NotAFile { path } => what_named("not a file: '", path.as_str(), "'"),
            UtilsError::NotADirectory { path } => what_named("not a directory: '", path.as_str(), "'"),
            UtilsError::LinkingFile { src, dest, error } =>
                from_to("could not create link ", src.as_str(), dest.as_str(), error.as_str()),
            UtilsError::LinkingDirectory { src, dest, error } =>
                from_to("could not create symlink ", src.as_str(), dest.as_str(), error.as_str()),
            UtilsError::CopyingDirectory { src, dest, error } =>
                from_to("could not copy directory ", src.as_str(), dest.as_str(), error.as_str()),
            UtilsError::CopyingFile { src, dest, error } =>
                from_to("could not copy file ", src.as_str(), dest.as_str(), error.as_str()),
            UtilsError::RemovingFile { name, path, error } =>
                named_path("could not remove ", name.as_str(), " file: ", path.as_str(), error.as_str()),
            UtilsError::RemovingDirectory { name, path, error } => {
                let mut r = what_named("could not remove ", name.as_str(), " directory: '");
                r.append(path.as_str());
                r.append(" (");
                r.append(error.as_str());
                r.append(")'");
                r
            },
            UtilsError::OpeningBrowser { error: Some(e) } => {
                let mut r = "could not open browser: ".to_owned();
                r.append(e.as_str());
                r
            },
            UtilsError::OpeningBrowser { error: None } => "could not open browser: no browser installed".to_owned(),
            UtilsError::SettingPermissions { path, error } => {
                let mut r = what_named("failed to set permissions for: '", path.as_str(), " (");
                r.append(error.as_str());
                r.append(")'");
                r
            },
        }
    }

    /// The short description of this error; see [`error_description`].
    pub fn description(&self) -> (r: &'static str)
        ensures
            r@ == error_description(self),
    {
        match self {
            UtilsError::LocatingHome => "could not locate home directory",
            UtilsError::LocatingWorkingDir { .. } => "could not locate working directory",
            UtilsError::ReadingFile { .. } => "could not read file",
            UtilsError::ReadingDirectory { .. } => "could not read directory",
            UtilsError::WritingFile { .. } => "could not write file",
            UtilsError::CreatingDirectory { .. } => "could not create directory",
            UtilsError::FilteringFile { .. } => "could not copy  file",
            UtilsError::RenamingFile { .. } => "could not rename file",
            UtilsError::RenamingDirectory { .. } => "could not rename directory",
            UtilsError::DownloadingFile { .. } => "could not download file",
            UtilsError::InvalidUrl { .. } => "invalid url",
            UtilsError::RunningCommand { .. } => "command failed",
            UtilsError::NotAFile { .. } => "not a file",
            UtilsError::NotADirectory { .. } => "not a directory",
            UtilsError::LinkingFile { .. } => "could not link file",
            UtilsError::LinkingDirectory { .. } => "could not symlink directory",
            UtilsError::CopyingDirectory { .. } => "could not copy directory",
            UtilsError::CopyingFile { .. } => "could not copy file",
            UtilsError::RemovingFile { .. } => "could not remove file",
            UtilsError::RemovingDirectory { .. } => "could not remove directory",
            UtilsError::OpeningBrowser { error: Some(_) } => "could not open browser",
            UtilsError::OpeningBrowser { error: None } => "could not open browser: no browser installed",
            UtilsError::SettingPermissions { .. } => "failed to set permissions",
        }
    }

    /// The underlying error, as text; see [`error_cause`].
    pub fn cause(&self) -> (r: Option<&String>)
        ensures
            r is Some <==> error_cause(self) is Some,
            r matches Some(c) ==> error_cause(self) == Some(c@),
    {
        match self {
            UtilsError::LocatingHome => None,
            UtilsError::InvalidUrl { .. } => None,
            UtilsError::NotAFile { .. } => None,
            UtilsError::NotADirectory { .. } => None,
            UtilsError::OpeningBrowser { error } => match error {
                Some(c) => Some(c),
                None => None,
            },
            UtilsError::LocatingWorkingDir { error } => Some(error),
            UtilsError::ReadingFile { error, .. } => Some(error),
            UtilsError::ReadingDirectory { error, .. } => Some(error),
            UtilsError::WritingFile { error, .. } => Some(error),
            UtilsError::CreatingDirectory { error, .. } => Some(error),
            UtilsError::FilteringFile { error, .. } => Some(error),
            UtilsError::RenamingFile { error, .. } => Some(error),
            UtilsError::RenamingDirectory { error, .. } => Some(error),
            UtilsError::DownloadingFile { error, .. } => Some(error),
            UtilsError::RunningCommand { error, .. } => Some(error),
            UtilsError::LinkingFile { error, .. } => Some(error),
            UtilsError::LinkingDirectory { error, .. } => Some(error),
            UtilsError::CopyingDirectory { error, .. } => Some(error),
            UtilsError::CopyingFile { error, .. } => Some(error),
            UtilsError::RemovingFile { error, .. } => Some(error),
            UtilsError::RemovingDirectory { error, .. } => Some(error),
            UtilsError::SettingPermissions { error, .. } => Some(error),
        }
    }
}

} // verus!
