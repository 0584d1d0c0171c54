//! A contiguous section of a table's log.
use vstd::prelude::*;

use crate::error::{self, DeltaResult, Error, ErrorView};
use crate::log_validation::{
    self, validate_checkpoint_commit_gap, validate_checkpoint_parts, validate_commit_file_types,
    validate_commit_files_contiguous, validate_compaction_files, validate_end_version,
};
use crate::path::{
    self, clone_opt_path, clone_paths, FileMeta, FileMetaView, LogPathFileType, LogPathView,
    ParsedLogPath,
};
use crate::schema::{FieldView, StructType};
use crate::text::{self, text2, text5, text7, unsigned_text};
use crate::Version;

verus! {

/// The log files that were found for a segment.
#[derive(Debug, PartialEq, Eq)]
pub struct LogSegmentFiles {
    pub ascending_commit_files: Vec<ParsedLogPath>,
    pub ascending_compaction_files: Vec<ParsedLogPath>,
    pub checkpoint_parts: Vec<ParsedLogPath>,
    pub latest_crc_file: Option<ParsedLogPath>,
    pub latest_commit_file: Option<ParsedLogPath>,
    pub max_published_version: Option<Version>,
}

/// The mathematical value of [`LogSegmentFiles`].
pub struct ListedView {
    pub commits: Seq<LogPathView>,
    pub compactions: Seq<LogPathView>,
    pub parts: Seq<LogPathView>,
    pub crc: Option<LogPathView>,
    pub latest_commit: Option<LogPathView>,
    pub max_published: Option<Version>,
}

impl View for LogSegmentFiles {
    type V = ListedView;

    open spec fn view(&self) -> ListedView {
        ListedView {
            commits: path::paths_view(self.ascending_commit_files@),
            compactions: path::paths_view(self.ascending_compaction_files@),
            parts: path::paths_view(self.checkpoint_parts@),
            crc: path::opt_path(self.latest_crc_file),
            latest_commit: path::opt_path(self.latest_commit_file),
            max_published: self.max_published_version,
        }
    }
}

impl Clone for LogSegmentFiles {
    fn clone(&self) -> (r: LogSegmentFiles)
        ensures
            r@ == self@,
    {
        LogSegmentFiles {
            ascending_commit_files: clone_paths(&self.ascending_commit_files),
            ascending_compaction_files: clone_paths(&self.ascending_compaction_files),
            checkpoint_parts: clone_paths(&self.checkpoint_parts),
            latest_crc_file: clone_opt_path(&self.latest_crc_file),
            latest_commit_file: clone_opt_path(&self.latest_commit_file),
            max_published_version: self.max_published_version,
        }
    }
}

/// What is kept of the hint that names the last checkpoint.
#[derive(Debug, PartialEq, Eq)]
pub struct LastCheckpointHintSummary {
    pub version: Version,
    pub schema: Option<StructType>,
}

/// The mathematical value of a [`LastCheckpointHintSummary`].
pub struct HintView {
    pub version: Version,
    pub schema: Option<Seq<FieldView>>,
}

/// The fields of an optional schema.
pub open spec fn opt_schema(s: Option<StructType>) -> Option<Seq<FieldView>> {
    match s {
        Some(s) => Some(s@),
        None => None,
    }
}

/// A copy of an optional schema.
pub fn clone_opt_schema(s: &Option<StructType>) -> (r: Option<StructType>)
    ensures
        opt_schema(r) == opt_schema(*s),
{
    match s {
        Some(s) => Some(s.clone()),
        None => None,
    }
}

impl View for LastCheckpointHintSummary {
    type V = HintView;

    open spec fn view(&self) -> HintView {
        HintView { version: self.version, schema: opt_schema(self.schema) }
    }
}

impl Clone for LastCheckpointHintSummary {
    fn clone(&self) -> (r: LastCheckpointHintSummary)
        ensures
            r@ == self@,
    {
        LastCheckpointHintSummary { version: self.version, schema: clone_opt_schema(&self.schema) }
    }
}

/// The value of an optional hint.
pub open spec fn opt_hint(h: Option<LastCheckpointHintSummary>) -> Option<HintView> {
    match h {
        Some(h) => Some(h@),
        None => None,
    }
}

/// A contiguous section of the log: a checkpoint, if there is one, and the commits after it.
///
/// - The versions of the commits have no gaps.
/// - With a checkpoint, only later commits are kept, and the first comes right after it.
/// - All checkpoint files belong to one version and make up a complete checkpoint.
#[derive(Debug, PartialEq, Eq)]
pub struct LogSegment {
    pub end_version: Version,
    pub checkpoint_version: Option<Version>,
    pub log_root: String,
    /// What the hint for the last checkpoint said.
    pub last_checkpoint_metadata: Option<LastCheckpointHintSummary>,
    /// The log files that were found.
    pub listed: LogSegmentFiles,
}

/// The mathematical value of a [`LogSegment`].
pub struct SegmentView {
    pub end_version: Version,
    pub checkpoint_version: Option<Version>,
    pub log_root: Seq<char>,
    pub last_checkpoint: Option<HintView>,
    pub listed: ListedView,
}

impl View for LogSegment {
    type V = SegmentView;

    open spec fn view(&self) -> SegmentView {
        SegmentView {
            end_version: self.end_version,
            checkpoint_version: self.checkpoint_version,
            log_root: self.log_root@,
            last_checkpoint: opt_hint(self.last_checkpoint_metadata),
            listed: self.listed@,
        }
    }
}

impl Clone for LogSegment {
    fn clone(&self) -> (r: LogSegment)
        ensures
            r@ == self@,
    {
        LogSegment {
            end_version: self.end_version,
            checkpoint_version: self.checkpoint_version,
            log_root: self.log_root.clone(),
            last_checkpoint_metadata: match &self.last_checkpoint_metadata {
                Some(h) => Some(h.clone()),
                None => None,
            },
            listed: self.listed.clone(),
        }
    }
}

/// The files of a list that are kept, in order.
pub open spec fn selected(
    s: Seq<LogPathView>,
    keep: spec_fn(LogPathView) -> bool,
) -> Seq<LogPathView>
    decreases s.len(),
{
    if s.len() == 0 {
        Seq::empty()
    } else if keep(s.last()) {
        selected(s.drop_last(), keep).push(s.last())
    } else {
        selected(s.drop_last(), keep)
    }
}

/// The files above a version, where there is one.
pub open spec fn above(s: Seq<LogPathView>, lo: Option<Version>) -> Seq<LogPathView> {
    selected(s, |p: LogPathView| lo matches Some(lo) ==> lo < p.version)
}

/// The version of a checkpoint.
pub open spec fn parts_version(parts: Seq<LogPathView>) -> Option<Version> {
    if parts.len() > 0 {
        Some(parts[0].version)
    } else {
        None
    }
}

/// What a segment guarantees.
pub open spec fn segment_valid(s: SegmentView) -> bool {
    &&& log_validation::compactions_valid(s.listed.compactions)
    &&& log_validation::checkpoint_valid(s.listed.parts)
    &&& log_validation::commit_types_valid(s.listed.commits)
    &&& log_validation::contiguous(s.listed.commits)
    &&& s.checkpoint_version == parts_version(s.listed.parts)
    &&& s.checkpoint_version matches Some(v) ==> forall|i: int|
        0 <= i < s.listed.commits.len() ==> v < (#[trigger] s.listed.commits[i]).version
    &&& log_validation::no_checkpoint_gap(s.checkpoint_version, s.listed.commits)
    &&& log_validation::effective_version(s.listed.commits, s.listed.parts) == Some(s.end_version)
}

/// The segment that a listing makes, or the first reason why it makes none.
pub open spec fn segment_of(
    listed: ListedView,
    log_root: Seq<char>,
    end_version: Option<Version>,
    hint: Option<HintView>,
) -> Result<SegmentView, ErrorView> {
    let cp = parts_version(listed.parts);
    let commits = above(listed.commits, cp);
    if log_validation::compaction_check(listed.compactions) is Some {
        Err(log_validation::compaction_check(listed.compactions)->0)
    } else if log_validation::checkpoint_check(listed.parts) is Some {
        Err(log_validation::checkpoint_check(listed.parts)->0)
    } else if !log_validation::commit_types_valid(listed.commits) {
        Err(log_validation::commit_type_error())
    } else if log_validation::contiguity_check(listed.commits) is Some {
        Err(log_validation::contiguity_check(listed.commits)->0)
    } else if !log_validation::no_checkpoint_gap(cp, commits) {
        Err(log_validation::checkpoint_gap_error(cp->0, commits[0]))
    } else {
        match log_validation::end_version_check(commits, listed.parts, end_version) {
            Err(e) => Err(e),
            Ok(v) => Ok(
                SegmentView {
                    end_version: v,
                    checkpoint_version: cp,
                    log_root,
                    last_checkpoint: hint,
                    listed: ListedView { commits, ..listed },
                },
            ),
        }
    }
}

/// Of contiguous commits, those above a version are the last ones.
pub proof fn lemma_above_is_suffix(s: Seq<LogPathView>, lo: Option<Version>)
    requires
        log_validation::contiguous(s),
    ensures
        ({
            let n: int = match lo {
                Some(v) => if s.len() == 0 || v < s[0].version {
                    0
                } else if v >= s.last().version {
                    s.len() as int
                } else {
                    v + 1 - s[0].version
                },
                None => 0,
            };
            0 <= n <= s.len() && above(s, lo) == s.skip(n)
        }),
    decreases s.len(),
{
    let keep = |p: LogPathView| lo matches Some(lo) ==> lo < p.version;
    if s.len() == 0 {
        assert(above(s, lo) =~= s.skip(0));
    } else {
        let front = s.drop_last();
        let m: int = s.len() - 1;
        assert(s[m].version == s[0].version + m);
        assert(log_validation::contiguous(front)) by {
            assert forall|i: int| 0 <= i < front.len() implies (#[trigger] front[i]).version
                == front[0].version + i by {
                assert(s[i].version == s[0].version + i);
            }
        }
        lemma_above_is_suffix(front, lo);
        if front.len() > 0 {
            assert(front.last() == s[m - 1]);
            assert(s[m - 1].version == s[0].version + (m - 1));
        }
        match lo {
            None => {
                assert(front.skip(0) =~= front);
                assert(above(s, lo) =~= s.skip(0));
            },
            Some(v) => {
                if v < s.last().version {
                    let n: int = if v < s[0].version { 0 } else { v + 1 - s[0].version };
                    assert(above(front, lo) =~= front.skip(n));
                    assert(above(s, lo) =~= s.skip(n));
                } else {
                    assert(above(s, lo) =~= s.skip(s.len() as int));
                }
            },
        }
    }
}

/// A segment that a listing makes keeps every guarantee.
pub proof fn lemma_segment_of_valid(
    listed: ListedView,
    log_root: Seq<char>,
    end_version: Option<Version>,
    hint: Option<HintView>,
)
    ensures
        segment_of(listed, log_root, end_version, hint) matches Ok(s) ==> segment_valid(s) && (
        end_version matches Some(v) ==> s.end_version == v),
{
    if let Ok(s) = segment_of(listed, log_root, end_version, hint) {
        log_validation::lemma_compaction_check(listed.compactions);
        log_validation::lemma_checkpoint_check(listed.parts);
        log_validation::lemma_contiguity_check(listed.commits);
        lemma_above_is_suffix(listed.commits, s.checkpoint_version);
        let c = listed.commits;
        let n = c.len() - s.listed.commits.len();
        assert(s.listed.commits =~= c.skip(n));
        assert forall|i: int| 0 <= i < s.listed.commits.len() implies s.listed.commits[i] == c[i
            + n] && c[i + n].version == c[0].version + (i + n) by {}
        assert(log_validation::commit_types_valid(s.listed.commits)) by {
            assert forall|i: int| 0 <= i < s.listed.commits.len() implies path::commit_type(
                (#[trigger] s.listed.commits[i]).file_type,
            ) by {
                assert(path::commit_type(c[i + n].file_type));
            }
        }
        assert(log_validation::contiguous(s.listed.commits));
    }
}

/// A copy of the files of a list that lie above a version, where there is one.
fn select_above(paths: &Vec<ParsedLogPath>, lo: Option<Version>) -> (r: Vec<ParsedLogPath>)
    ensures
        path::paths_view(r@) == above(path::paths_view(paths@), lo),
{
    let ghost s = path::paths_view(paths@);
    let ghost keep = |p: LogPathView| lo matches Some(lo) ==> lo < p.version;
    let mut r: Vec<ParsedLogPath> = Vec::new();
    let mut i: usize = 0;
    assert(path::paths_view(r@) =~= selected(s.take(0), keep));
    while i < paths.len()
        invariant
            i <= paths@.len(),
            s == path::paths_view(paths@),
            keep == (|p: LogPathView| lo matches Some(lo) ==> lo < p.version),
            path::paths_view(r@) == selected(s.take(i as int), keep),
        decreases paths.len() - i,
    {
        let ghost before = path::paths_view(r@);
        assert(s.take(i + 1).drop_last() =~= s.take(i as int));
        assert(s.take(i + 1).last() == paths@[i as int]@);
        let kept: bool = match lo {
            Some(lo) => lo < paths[i].version,
            None => true,
        };
        if kept {
            r.push(paths[i].clone());
            assert(path::paths_view(r@) =~= before.push(paths@[i as int]@));
        }
        i += 1;
    }
    assert(s.take(i as int) =~= s);
    r
}

impl LogSegment {
    /// Makes a segment of a listing. Commits that the checkpoint covers are dropped. Fails where
    /// the listing breaks one of the guarantees of a segment, where it holds neither commits nor a
    /// checkpoint, or where the segment does not end at the version asked for.
    pub fn try_new(
        listed_files: LogSegmentFiles,
        log_root: String,
        end_version: Option<Version>,
        last_checkpoint_metadata: Option<LastCheckpointHintSummary>,
    ) -> (r: DeltaResult<LogSegment>)
        ensures
            segment_of(
                listed_files@,
                log_root@,
                end_version,
                opt_hint(last_checkpoint_metadata),
            ) matches Ok(s) ==> (r matches Ok(segment) && segment@ == s && segment_valid(segment@)),
            segment_of(
                listed_files@,
                log_root@,
                end_version,
                opt_hint(last_checkpoint_metadata),
            ) matches Err(e) ==> error::failure(r) == Some(e),
    {
        proof {
            lemma_segment_of_valid(
                listed_files@,
                log_root@,
                end_version,
                opt_hint(last_checkpoint_metadata),
            );
        }
        validate_compaction_files(listed_files.ascending_compaction_files.as_slice())?;
        validate_checkpoint_parts(listed_files.checkpoint_parts.as_slice())?;
        validate_commit_file_types(listed_files.ascending_commit_files.as_slice())?;
        validate_commit_files_contiguous(listed_files.ascending_commit_files.as_slice())?;
        let checkpoint_version: Option<Version> = if listed_files.checkpoint_parts.len() > 0 {
            Some(listed_files.checkpoint_parts[0].version)
        } else {
            None
        };
        let commits = select_above(&listed_files.ascending_commit_files, checkpoint_version);
        validate_checkpoint_commit_gap(checkpoint_version, commits.as_slice())?;
        let effective: Version = validate_end_version(
            commits.as_slice(),
            listed_files.checkpoint_parts.as_slice(),
            end_version,
        )?;
        Ok(
            LogSegment {
                end_version: effective,
                checkpoint_version,
                log_root,
                last_checkpoint_metadata,
                listed: LogSegmentFiles {
                    ascending_commit_files: commits,
                    ascending_compaction_files: listed_files.ascending_compaction_files,
                    checkpoint_parts: listed_files.checkpoint_parts,
                    latest_crc_file: listed_files.latest_crc_file,
                    latest_commit_file: listed_files.latest_commit_file,
                    max_published_version: listed_files.max_published_version,
                },
            },
        )
    }
}

/// The segment of a table that has just been created.
pub open spec fn version_zero_segment(log_root: Seq<char>, commit: LogPathView) -> SegmentView {
    SegmentView {
        end_version: commit.version,
        checkpoint_version: None,
        log_root,
        last_checkpoint: None,
        listed: ListedView {
            commits: seq![commit],
            compactions: Seq::empty(),
            parts: Seq::empty(),
            crc: None,
            latest_commit: Some(commit),
            max_published: Some(commit.version),
        },
    }
}

/// Why a commit file is not the first of a table.
pub open spec fn version_zero_fault(commit: LogPathView) -> Option<ErrorView> {
    if commit.version != 0 {
        Some(
            ErrorView::InternalError(
                "new_for_version_zero called with version "@ + text::decimal(commit.version as nat),
            ),
        )
    } else if !path::commit_type(commit.file_type) {
        Some(
            ErrorView::InternalError(
                "new_for_version_zero called with non-commit file type: "@ + path::file_type_name(
                    commit.file_type,
                ),
            ),
        )
    } else {
        None
    }
}

/// The version after a version, starting again at zero after the largest.
pub open spec fn next_version(v: Version) -> Version {
    if v == u64::MAX {
        0
    } else {
        (v + 1) as u64
    }
}

/// Why a file cannot be appended to a segment as its next commit.
pub open spec fn append_fault(s: SegmentView, tail: LogPathView) -> Option<ErrorView> {
    if !path::commit_type(tail.file_type) {
        Some(
            ErrorView::InternalError(
                "Cannot extend and create new LogSegment. Tail log file is not a commit file. Path: "@
                    + tail.location.location + ", Type: "@ + path::file_type_name(tail.file_type) + "."@,
            ),
        )
    } else if tail.version != next_version(s.end_version) {
        Some(
            ErrorView::InternalError(
                "Cannot extend and create new LogSegment. Tail commit file version ("@ + text::decimal(
                    tail.version as nat,
                ) + ") does not equal LogSegment end_version ("@ + text::decimal(s.end_version as nat)
                    + ") + 1."@,
            ),
        )
    } else {
        None
    }
}

/// A segment with one more commit at its end.
pub open spec fn appended_segment(s: SegmentView, tail: LogPathView) -> SegmentView {
    SegmentView {
        end_version: tail.version,
        listed: ListedView {
            commits: s.listed.commits.push(tail),
            latest_commit: Some(tail),
            max_published: if tail.file_type is Commit {
                Some(tail.version)
            } else {
                s.listed.max_published
            },
            ..s.listed
        },
        ..s
    }
}

/// Why a file cannot be recorded as the checkpoint at the end of a segment.
pub open spec fn checkpoint_record_fault(s: SegmentView, cp: LogPathView) -> Option<ErrorView> {
    if !(cp.file_type is SinglePartCheckpoint || cp.file_type is UuidCheckpoint) {
        Some(
            ErrorView::InternalError(
                "Cannot update LogSegment with checkpoint. Path is not a single-file checkpoint. Path: "@
                    + cp.location.location + ", Type: "@ + path::file_type_name(cp.file_type) + "."@,
            ),
        )
    } else if cp.version != s.end_version {
        Some(
            ErrorView::InternalError(
                "Cannot update LogSegment with checkpoint. Checkpoint version ("@ + text::decimal(
                    cp.version as nat,
                ) + ") does not equal LogSegment end_version ("@ + text::decimal(s.end_version as nat)
                    + ")."@,
            ),
        )
    } else {
        None
    }
}

/// A segment after a checkpoint at its end has been written: nothing but the checkpoint is needed.
pub open spec fn checkpointed_segment(s: SegmentView, cp: LogPathView) -> SegmentView {
    SegmentView {
        checkpoint_version: Some(cp.version),
        last_checkpoint: None,
        listed: ListedView {
            commits: Seq::empty(),
            compactions: Seq::empty(),
            parts: seq![cp],
            ..s.listed
        },
        ..s
    }
}

/// Why a file cannot be recorded as the checksum of the end of a segment.
pub open spec fn crc_record_fault(s: SegmentView, crc: LogPathView) -> Option<ErrorView> {
    if !(crc.file_type is Crc) {
        Some(
            ErrorView::InternalError(
                "Cannot update LogSegment with CRC. Path is not a CRC file. Path: "@
                    + crc.location.location + ", Type: "@ + path::file_type_name(crc.file_type) + "."@,
            ),
        )
    } else if crc.version != s.end_version {
        Some(
            ErrorView::InternalError(
                "Cannot update LogSegment with CRC. CRC version ("@ + text::decimal(crc.version as nat)
                    + ") does not equal LogSegment end_version ("@ + text::decimal(s.end_version as nat)
                    + ")."@,
            ),
        )
    } else {
        None
    }
}

/// A segment with a checksum file recorded, by its location alone.
pub open spec fn crc_segment(s: SegmentView, crc: LogPathView) -> SegmentView {
    SegmentView {
        listed: ListedView {
            crc: Some(
                LogPathView {
                    location: FileMetaView { last_modified: 0, size: 0, ..crc.location },
                    ..crc
                },
            ),
            ..s.listed
        },
        ..s
    }
}

/// The largest version that a compaction or the checkpoint of a segment covers; zero where there
/// is neither.
pub open spec fn last_compacted(compactions: Seq<LogPathView>) -> Version
    decreases compactions.len(),
{
    if compactions.len() == 0 {
        0
    } else {
        let rest = last_compacted(compactions.drop_last());
        match compactions.last().file_type {
            LogPathFileType::CompactedCommit { hi } => if hi > rest {
                hi
            } else {
                rest
            },
            _ => rest,
        }
    }
}

/// How far a checkpoint covers the log of a segment.
pub open spec fn checkpointed_through(s: SegmentView) -> Version {
    match s.checkpoint_version {
        Some(v) => v,
        None => 0,
    }
}

/// How far a checkpoint or a compaction covers the log of a segment.
pub open spec fn compacted_through(s: SegmentView) -> Version {
    if checkpointed_through(s) > last_compacted(s.listed.compactions) {
        checkpointed_through(s)
    } else {
        last_compacted(s.listed.compactions)
    }
}

/// A version, or that there is none.
pub open spec fn version_text(v: Option<Version>) -> Seq<char> {
    match v {
        Some(v) => text::decimal(v as nat),
        None => "none"@,
    }
}

/// A version, or that there is none.
fn version_or_none(v: Option<Version>) -> (r: String)
    ensures
        r@ == version_text(v),
{
    match v {
        Some(v) => unsigned_text(v),
        None => "none".to_owned(),
    }
}

/// A short text that says what a segment holds.
pub open spec fn summary_of(s: SegmentView) -> Seq<char> {
    "{v="@ + text::decimal(s.end_version as nat) + ", commits="@ + text::decimal(
        s.listed.commits.len(),
    ) + ", checkpoint_v="@ + version_text(s.checkpoint_version) + ", checkpoint_parts="@
        + text::decimal(s.listed.parts.len()) + ", compactions="@ + text::decimal(
        s.listed.compactions.len(),
    ) + ", crc_v="@ + version_text(
        match s.listed.crc {
            Some(f) => Some(f.version),
            None => None,
        },
    ) + ", max_pub_v="@ + version_text(s.listed.max_published) + "}"@
}

impl LogSegment {
    /// The segment of a newly created table, whose only file is the commit of version zero.
    pub fn new_for_version_zero(log_root: String, commit_file: ParsedLogPath) -> (r: DeltaResult<
        LogSegment,
    >)
        ensures
            version_zero_fault(commit_file@) is None ==> (r matches Ok(s) && s@
                == version_zero_segment(log_root@, commit_file@)),
            version_zero_fault(commit_file@) is Some ==> error::failure(r) == version_zero_fault(
                commit_file@,
            ),
            r matches Ok(s) ==> segment_valid(s@),
    {
        if commit_file.version != 0 {
            let v = unsigned_text(commit_file.version);
            return Err(
                Error::InternalError(
                    text2("new_for_version_zero called with version ", v.as_str()),
                ),
            );
        }
        if !commit_file.is_commit() {
            return Err(
                Error::InternalError(
                    text2(
                        "new_for_version_zero called with non-commit file type: ",
                        commit_file.file_type.name(),
                    ),
                ),
            );
        }
        let version: Version = commit_file.version;
        let latest = commit_file.clone();
        let commits = vec![commit_file];
        assert(path::paths_view(commits@) =~= seq![commit_file@]);
        let compactions: Vec<ParsedLogPath> = Vec::new();
        let parts: Vec<ParsedLogPath> = Vec::new();
        assert(path::paths_view(compactions@) =~= Seq::<LogPathView>::empty());
        assert(path::paths_view(parts@) =~= Seq::<LogPathView>::empty());
        Ok(
            LogSegment {
                end_version: version,
                checkpoint_version: None,
                log_root,
                last_checkpoint_metadata: None,
                listed: LogSegmentFiles {
                    ascending_commit_files: commits,
                    ascending_compaction_files: compactions,
                    checkpoint_parts: parts,
                    latest_crc_file: None,
                    latest_commit_file: Some(latest),
                    max_published_version: Some(version),
                },
            },
        )
    }

    /// This segment with one more commit at its end. Fails where the file is not a commit file or
    /// not of the version after the segment's last.
    pub fn new_with_commit_appended(&self, tail_commit_file: ParsedLogPath) -> (r: DeltaResult<
        LogSegment,
    >)
        ensures
            append_fault(self@, tail_commit_file@) is None ==> (r matches Ok(s) && s@
                == appended_segment(self@, tail_commit_file@)),
            append_fault(self@, tail_commit_file@) is Some ==> error::failure(r) == append_fault(
                self@,
                tail_commit_file@,
            ),
    {
        if !tail_commit_file.is_commit() {
            return Err(
                Error::InternalError(
                    text5(
                        "Cannot extend and create new LogSegment. Tail log file is not a commit file. Path: ",
                        tail_commit_file.location.location.as_str(),
                        ", Type: ",
                        tail_commit_file.file_type.name(),
                        ".",
                    ),
                ),
            );
        }
        if tail_commit_file.version != self.end_version.wrapping_add(1) {
            let have = unsigned_text(tail_commit_file.version);
            let want = unsigned_text(self.end_version);
            return Err(
                Error::InternalError(
                    text5(
                        "Cannot extend and create new LogSegment. Tail commit file version (",
                        have.as_str(),
                        ") does not equal LogSegment end_version (",
                        want.as_str(),
                        ") + 1.",
                    ),
                ),
            );
        }
        let mut segment = self.clone();
        let ghost commits = segment.listed@.commits;
        segment.end_version = tail_commit_file.version;
        segment.listed.max_published_version = match tail_commit_file.file_type {
            LogPathFileType::Commit => Some(tail_commit_file.version),
            _ => self.listed.max_published_version,
        };
        segment.listed.latest_commit_file = Some(tail_commit_file.clone());
        segment.listed.ascending_commit_files.push(tail_commit_file);
        assert(segment.listed@.commits =~= commits.push(tail_commit_file@));
        Ok(segment)
    }

    /// This segment after a checkpoint at its end has been written. Fails where the file is not a
    /// checkpoint in one file or not of the segment's last version.
    pub fn try_new_with_checkpoint(&self, checkpoint: ParsedLogPath) -> (r: DeltaResult<LogSegment>)
        ensures
            checkpoint_record_fault(self@, checkpoint@) is None ==> (r matches Ok(s) && s@
                == checkpointed_segment(self@, checkpoint@) && segment_valid(s@)),
            checkpoint_record_fault(self@, checkpoint@) is Some ==> error::failure(r)
                == checkpoint_record_fault(self@, checkpoint@),
    {
        if !matches!(
            checkpoint.file_type,
            LogPathFileType::SinglePartCheckpoint | LogPathFileType::UuidCheckpoint
        ) {
            return Err(
                Error::InternalError(
                    text5(
                        "Cannot update LogSegment with checkpoint. Path is not a single-file checkpoint. Path: ",
                        checkpoint.location.location.as_str(),
                        ", Type: ",
                        checkpoint.file_type.name(),
                        ".",
                    ),
                ),
            );
        }
        if checkpoint.version != self.end_version {
            let have = unsigned_text(checkpoint.version);
            let want = unsigned_text(self.end_version);
            return Err(
                Error::InternalError(
                    text5(
                        "Cannot update LogSegment with checkpoint. Checkpoint version (",
                        have.as_str(),
                        ") does not equal LogSegment end_version (",
                        want.as_str(),
                        ").",
                    ),
                ),
            );
        }
        let mut segment = self.clone();
        segment.checkpoint_version = Some(checkpoint.version);
        segment.listed.checkpoint_parts = vec![checkpoint];
        segment.listed.ascending_commit_files = Vec::new();
        segment.listed.ascending_compaction_files = Vec::new();
        segment.last_checkpoint_metadata = None;
        assert(segment.listed@.parts =~= seq![checkpoint@]);
        assert(segment.listed@.commits =~= Seq::<LogPathView>::empty());
        assert(segment.listed@.compactions =~= Seq::<LogPathView>::empty());
        Ok(segment)
    }

    /// This segment with the given checksum file recorded as the latest. Fails where the file is
    /// not a checksum file or not of the segment's last version. Size and modification time of the
    /// file are not known and set to zero.
    pub fn try_new_with_crc_file(&self, crc_file: ParsedLogPath) -> (r: DeltaResult<LogSegment>)
        ensures
            crc_record_fault(self@, crc_file@) is None ==> (r matches Ok(s) && s@ == crc_segment(
                self@,
                crc_file@,
            )),
            crc_record_fault(self@, crc_file@) is Some ==> error::failure(r) == crc_record_fault(
                self@,
                crc_file@,
            ),
    {
        if !matches!(crc_file.file_type, LogPathFileType::Crc) {
            return Err(
                Error::InternalError(
                    text5(
                        "Cannot update LogSegment with CRC. Path is not a CRC file. Path: ",
                        crc_file.location.location.as_str(),
                        ", Type: ",
                        crc_file.file_type.name(),
                        ".",
                    ),
                ),
            );
        }
        if crc_file.version != self.end_version {
            let have = unsigned_text(crc_file.version);
            let want = unsigned_text(self.end_version);
            return Err(
                Error::InternalError(
                    text5(
                        "Cannot update LogSegment with CRC. CRC version (",
                        have.as_str(),
                        ") does not equal LogSegment end_version (",
                        want.as_str(),
                        ").",
                    ),
                ),
            );
        }
        let mut segment = self.clone();
        segment.listed.latest_crc_file = Some(
            ParsedLogPath {
                location: FileMeta {
                    location: crc_file.location.location,
                    last_modified: 0,
                    size: 0,
                },
                filename: crc_file.filename,
                extension: crc_file.extension,
                version: crc_file.version,
                file_type: crc_file.file_type,
            },
        );
        Ok(segment)
    }

    /// This segment with every commit published.
    pub fn new_as_published(&self) -> (r: DeltaResult<LogSegment>)
        ensures
            r matches Ok(s) && s@ == (SegmentView {
                listed: ListedView {
                    max_published: Some(self@.end_version),
                    ..self@.listed
                },
                ..self@
            }),
    {
        let mut segment = self.clone();
        segment.listed.max_published_version = Some(self.end_version);
        Ok(segment)
    }

    /// How many commits came after the checkpoint. Without a checkpoint the commit of version zero
    /// counts as one.
    pub fn commits_since_checkpoint(&self) -> (r: u64)
        requires
            checkpointed_through(self@) <= self@.end_version,
        ensures
            r == self@.end_version - checkpointed_through(self@),
    {
        let checkpoint_version: Version = match self.checkpoint_version {
            Some(v) => v,
            None => 0,
        };
        self.end_version - checkpoint_version
    }

    /// How many commits came after the last compaction or checkpoint, whichever covers more.
    pub fn commits_since_log_compaction_or_checkpoint(&self) -> (r: u64)
        requires
            compacted_through(self@) <= self@.end_version,
        ensures
            r == self@.end_version - compacted_through(self@),
    {
        self.end_version - self.covered_version()
    }

    /// How far the checkpoint or a compaction covers the log.
    pub fn covered_version(&self) -> (r: Version)
        ensures
            r == compacted_through(self@),
    {
        let files = &self.listed.ascending_compaction_files;
        let ghost s = path::paths_view(files@);
        let mut max_end: Version = 0;
        let mut i: usize = 0;
        assert(s.take(0) =~= Seq::<LogPathView>::empty());
        while i < files.len()
            invariant
                i <= files@.len(),
                s == path::paths_view(files@),
                max_end == last_compacted(s.take(i as int)),
            decreases files.len() - i,
        {
            assert(s.take(i + 1).drop_last() =~= s.take(i as int));
            assert(s.take(i + 1).last() == files@[i as int]@);
            if let LogPathFileType::CompactedCommit { hi } = files[i].file_type {
                if hi > max_end {
                    max_end = hi;
                }
            }
            i += 1;
        }
        assert(s.take(i as int) =~= s);
        let checkpoint_version: Version = match self.checkpoint_version {
            Some(v) => v,
            None => 0,
        };
        if checkpoint_version > max_end {
            checkpoint_version
        } else {
            max_end
        }
    }

    /// A short text that says what the segment holds.
    pub fn summary(&self) -> (r: String)
        ensures
            r@ == summary_of(self@),
    {
        let crc: Option<Version> = match &self.listed.latest_crc_file {
            Some(f) => Some(f.version),
            None => None,
        };
        let v = unsigned_text(self.end_version);
        let commits = unsigned_text(self.listed.ascending_commit_files.len() as u64);
        let checkpoint = version_or_none(self.checkpoint_version);
        let parts = unsigned_text(self.listed.checkpoint_parts.len() as u64);
        let compactions = unsigned_text(self.listed.ascending_compaction_files.len() as u64);
        let crc_text = version_or_none(crc);
        let published = version_or_none(self.listed.max_published_version);
        let head = text7(
            "{v=",
            v.as_str(),
            ", commits=",
            commits.as_str(),
            ", checkpoint_v=",
            checkpoint.as_str(),
            ", checkpoint_parts=",
        );
        let middle = text5(
            parts.as_str(),
            ", compactions=",
            compactions.as_str(),
            ", crc_v=",
            crc_text.as_str(),
        );
        let r = text5(head.as_str(), middle.as_str(), ", max_pub_v=", published.as_str(), "}");
        assert(r@ =~= summary_of(self@));
        r
    }

    /// Fails unless every commit of the segment is published.
    pub fn validate_published(&self) -> (r: DeltaResult<()>)
        ensures
            r is Ok <==> self@.listed.max_published == Some(self@.end_version),
            r matches Err(e) ==> e@ == ErrorView::Generic("Log segment is not published"@),
    {
        match self.listed.max_published_version {
            Some(v) => if v == self.end_version {
                Ok(())
            } else {
                Err(Error::generic("Log segment is not published"))
            },
            None => Err(Error::generic("Log segment is not published")),
        }
    }
}

/// Appending a commit keeps every guarantee of a segment.
pub proof fn append_keeps_segment_valid(s: SegmentView, tail: LogPathView)
    requires
        segment_valid(s),
        s.end_version < u64::MAX,
        append_fault(s, tail) is None,
    ensures
        segment_valid(appended_segment(s, tail)),
{
    let t = appended_segment(s, tail);
    let c = s.listed.commits;
    if c.len() > 0 {
        assert(c.last().version == c[0].version + (c.len() - 1));
    }
    assert(log_validation::contiguous(t.listed.commits)) by {
        assert forall|i: int| 0 <= i < t.listed.commits.len() implies (
        #[trigger] t.listed.commits[i]).version == t.listed.commits[0].version + i by {
            if i < c.len() {
                assert(c[i].version == c[0].version + i);
            }
        }
    }
    assert(log_validation::commit_types_valid(t.listed.commits)) by {
        assert forall|i: int| 0 <= i < t.listed.commits.len() implies path::commit_type(
            (#[trigger] t.listed.commits[i]).file_type,
        ) by {
            if i < c.len() {
                assert(path::commit_type(c[i].file_type));
            }
        }
    }
    if let Some(v) = t.checkpoint_version {
        assert forall|i: int| 0 <= i < t.listed.commits.len() implies v < (
        #[trigger] t.listed.commits[i]).version by {
            if i < c.len() {
                assert(v < c[i].version);
            }
        }
    }
}

/// Recording a checksum or publishing changes nothing that a segment guarantees.
pub proof fn recording_keeps_segment_valid(s: SegmentView, crc: LogPathView)
    requires
        segment_valid(s),
    ensures
        segment_valid(crc_segment(s, crc)),
        segment_valid(
            SegmentView {
                listed: ListedView { max_published: Some(s.end_version), ..s.listed },
                ..s
            },
        ),
{
}

/// A segment that keeps its guarantees never ends before its checkpoint.
pub proof fn checkpoint_is_within_segment(s: SegmentView)
    requires
        segment_valid(s),
    ensures
        checkpointed_through(s) <= s.end_version,
{
    if s.listed.commits.len() > 0 {
        assert(s.listed.commits.last() == s.listed.commits[s.listed.commits.len() - 1]);
    }
}

} // verus!
