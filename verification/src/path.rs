//! Files and their places in the log directory.
use vstd::prelude::*;

use crate::{FileSize, Version};
use crate::error::{self, DeltaResult, Error, ErrorView};
use crate::text::{self, text3, unsigned_text};

verus! {

/// The metadata that describes a file.
#[derive(Debug, PartialEq, Eq)]
pub struct FileMeta {
    /// The URL of the file.
    pub location: String,
    /// When the file was last modified, in milliseconds since the Unix epoch.
    pub last_modified: i64,
    /// The size in bytes.
    pub size: FileSize,
}

/// The mathematical value of a [`FileMeta`].
pub struct FileMetaView {
    pub location: Seq<char>,
    pub last_modified: i64,
    pub size: FileSize,
}

impl View for FileMeta {
    type V = FileMetaView;

    open spec fn view(&self) -> FileMetaView {
        FileMetaView {
            location: self.location@,
            last_modified: self.last_modified,
            size: self.size,
        }
    }
}

/// The values of a list of file descriptions.
pub open spec fn files_view(files: Seq<FileMeta>) -> Seq<FileMetaView> {
    Seq::new(files.len(), |i: int| files[i]@)
}

/// Decimal text of an unsigned 128-bit integer, which may exceed what a file system reports.
pub open spec fn modification_time_error(millis: u128) -> ErrorView {
    ErrorView::Generic(
        "Failed to convert file modification time "@ + text::decimal(millis as nat) + " into i64"@,
    )
}

impl FileMeta {
    /// Describes a file.
    pub fn new(location: String, last_modified: i64, size: u64) -> (r: FileMeta)
        ensures
            r@ == (FileMetaView { location: location@, last_modified, size }),
    {
        FileMeta { location, last_modified, size }
    }

    /// Describes a directory entry from its URL, the milliseconds between the Unix epoch and its
    /// last modification, and its size. Fails where the milliseconds do not fit.
    pub fn try_from_entry(location: String, millis: u128, size: u64) -> (r: DeltaResult<FileMeta>)
        ensures
            millis <= i64::MAX ==> (r matches Ok(f) && f@ == (FileMetaView {
                location: location@,
                last_modified: millis as i64,
                size,
            })),
            millis > i64::MAX ==> error::failure(r) == Some(modification_time_error(millis)),
    {
        if millis <= 9223372036854775807 {
            Ok(FileMeta { location, last_modified: millis as i64, size })
        } else {
            let digits = wide_text(millis);
            Err(
                Error::Generic(
                    text3(
                        "Failed to convert file modification time ",
                        digits.as_str(),
                        " into i64",
                    ),
                ),
            )
        }
    }
}

/// Writes a 128-bit unsigned integer in decimal.
fn wide_text(n: u128) -> (r: String)
    ensures
        r@ == text::decimal(n as nat),
    decreases n,
{
    if n < 10 {
        unsigned_text(n as u64)
    } else {
        let mut s = wide_text(n / 10);
        let digit = unsigned_text((n % 10) as u64);
        s.append(digit.as_str());
        s
    }
}

impl Clone for FileMeta {
    fn clone(&self) -> (r: FileMeta)
        ensures
            r@ == self@,
    {
        FileMeta {
            location: self.location.clone(),
            last_modified: self.last_modified,
            size: self.size,
        }
    }
}

/// A copy of a list of file descriptions.
pub fn clone_files(files: &Vec<FileMeta>) -> (r: Vec<FileMeta>)
    ensures
        files_view(r@) == files_view(files@),
{
    let mut r: Vec<FileMeta> = Vec::new();
    let mut i: usize = 0;
    while i < files.len()
        invariant
            i <= files.len(),
            r@.len() == i,
            forall|j: int| 0 <= j < i ==> (#[trigger] r@[j])@ == files@[j]@,
        decreases files.len() - i,
    {
        r.push(files[i].clone());
        i += 1;
    }
    assert(files_view(r@) =~= files_view(files@));
    r
}

/// What kind of file a name in the log directory stands for.
#[derive(Debug, Clone, Copy, PartialEq, Eq, Structural)]
pub enum LogPathFileType {
    /// A published commit.
    Commit,
    /// A commit that a catalog has ratified but that is not published yet.
    StagedCommit,
    /// A checkpoint in one file with a classic name.
    SinglePartCheckpoint,
    /// A checkpoint in one file whose name holds a UUID.
    UuidCheckpoint,
    /// One of several files that make up a checkpoint.
    MultiPartCheckpoint { part_num: u32, num_parts: u32 },
    /// The commits from the file's version up to and including `hi` in one file.
    CompactedCommit { hi: Version },
    /// A version checksum.
    Crc,
    /// Anything else.
    Unknown,
}

/// Whether a file type is that of a commit.
pub open spec fn commit_type(t: LogPathFileType) -> bool {
    t is Commit || t is StagedCommit
}

/// Whether a file type is that of a checkpoint file.
pub open spec fn checkpoint_type(t: LogPathFileType) -> bool {
    t is SinglePartCheckpoint || t is UuidCheckpoint || t is MultiPartCheckpoint
}

/// The name of a file type.
pub open spec fn file_type_name(t: LogPathFileType) -> Seq<char> {
    match t {
        LogPathFileType::Commit => "Commit"@,
        LogPathFileType::StagedCommit => "StagedCommit"@,
        LogPathFileType::SinglePartCheckpoint => "SinglePartCheckpoint"@,
        LogPathFileType::UuidCheckpoint => "UuidCheckpoint"@,
        LogPathFileType::MultiPartCheckpoint { .. } => "MultiPartCheckpoint"@,
        LogPathFileType::CompactedCommit { .. } => "CompactedCommit"@,
        LogPathFileType::Crc => "Crc"@,
        LogPathFileType::Unknown => "Unknown"@,
    }
}

impl LogPathFileType {
    /// The name of the file type.
    pub fn name(&self) -> (r: &'static str)
        ensures
            r@ == file_type_name(*self),
    {
        match self {
            LogPathFileType::Commit => "Commit",
            LogPathFileType::StagedCommit => "StagedCommit",
            LogPathFileType::SinglePartCheckpoint => "SinglePartCheckpoint",
            LogPathFileType::UuidCheckpoint => "UuidCheckpoint",
            LogPathFileType::MultiPartCheckpoint { .. } => "MultiPartCheckpoint",
            LogPathFileType::CompactedCommit { .. } => "CompactedCommit",
            LogPathFileType::Crc => "Crc",
            LogPathFileType::Unknown => "Unknown",
        }
    }
}

/// A file of the log directory with what its name says.
#[derive(Debug, PartialEq, Eq)]
pub struct ParsedLogPath {
    pub location: FileMeta,
    pub filename: String,
    pub extension: String,
    pub version: Version,
    pub file_type: LogPathFileType,
}

/// The mathematical value of a [`ParsedLogPath`].
pub struct LogPathView {
    pub location: FileMetaView,
    pub filename: Seq<char>,
    pub extension: Seq<char>,
    pub version: Version,
    pub file_type: LogPathFileType,
}

impl View for ParsedLogPath {
    type V = LogPathView;

    open spec fn view(&self) -> LogPathView {
        LogPathView {
            location: self.location@,
            filename: self.filename@,
            extension: self.extension@,
            version: self.version,
            file_type: self.file_type,
        }
    }
}

/// The values of a list of log files.
pub open spec fn paths_view(paths: Seq<ParsedLogPath>) -> Seq<LogPathView> {
    Seq::new(paths.len(), |i: int| paths[i]@)
}

/// The value of an optional log file.
pub open spec fn opt_path(path: Option<ParsedLogPath>) -> Option<LogPathView> {
    match path {
        Some(p) => Some(p@),
        None => None,
    }
}

impl ParsedLogPath {
    /// Whether this is a commit file.
    pub fn is_commit(&self) -> (r: bool)
        ensures
            r == commit_type(self@.file_type),
    {
        matches!(self.file_type, LogPathFileType::Commit | LogPathFileType::StagedCommit)
    }

    /// Whether this is a checkpoint file.
    pub fn is_checkpoint(&self) -> (r: bool)
        ensures
            r == checkpoint_type(self@.file_type),
    {
        matches!(
            self.file_type,
            LogPathFileType::SinglePartCheckpoint
                | LogPathFileType::UuidCheckpoint
                | LogPathFileType::MultiPartCheckpoint { .. }
        )
    }
}

impl Clone for ParsedLogPath {
    fn clone(&self) -> (r: ParsedLogPath)
        ensures
            r@ == self@,
    {
        ParsedLogPath {
            location: self.location.clone(),
            filename: self.filename.clone(),
            extension: self.extension.clone(),
            version: self.version,
            file_type: self.file_type,
        }
    }
}

/// A copy of a list of log files.
pub fn clone_paths(paths: &Vec<ParsedLogPath>) -> (r: Vec<ParsedLogPath>)
    ensures
        paths_view(r@) == paths_view(paths@),
{
    let mut r: Vec<ParsedLogPath> = Vec::new();
    let mut i: usize = 0;
    while i < paths.len()
        invariant
            i <= paths.len(),
            r@.len() == i,
            forall|j: int| 0 <= j < i ==> (#[trigger] r@[j])@ == paths@[j]@,
        decreases paths.len() - i,
    {
        r.push(paths[i].clone());
        i += 1;
    }
    assert(paths_view(r@) =~= paths_view(paths@));
    r
}

/// A copy of an optional log file.
pub fn clone_opt_path(path: &Option<ParsedLogPath>) -> (r: Option<ParsedLogPath>)
    ensures
        opt_path(r) == opt_path(*path),
{
    match path {
        Some(p) => Some(p.clone()),
        None => None,
    }
}

} // verus!
