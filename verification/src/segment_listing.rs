//! What to list for a log segment, and the segment that a listing makes for each purpose.
use vstd::prelude::*;

use crate::error::{self, DeltaResult, Error, ErrorView};
use crate::log_segment::{
    self, HintView, LastCheckpointHintSummary, ListedView, LogSegment, LogSegmentFiles, SegmentView,
};
use crate::log_validation;
use crate::path::{self, LogPathView, ParsedLogPath};
use crate::schema::StructType;
use crate::text::{self, text3, text4, unsigned_text};
use crate::Version;

verus! {

/// The hint that names the last checkpoint.
#[derive(Debug, PartialEq, Eq)]
pub struct LastCheckpointHint {
    pub version: Version,
    pub checkpoint_schema: Option<StructType>,
}

/// What is kept of a hint.
pub open spec fn hint_summary(hint: Option<LastCheckpointHint>) -> Option<HintView> {
    match hint {
        Some(h) => Some(HintView { version: h.version, schema: log_segment::opt_schema(h.checkpoint_schema) }),
        None => None,
    }
}

/// How the log is listed for a snapshot.
#[derive(Debug, Clone, Copy, PartialEq, Eq, Structural)]
#[allow(inconsistent_fields)]
pub enum SnapshotListing {
    /// From the checkpoint that the hint names, up to the given version.
    FromCheckpoint { version: Version, end_version: Option<Version> },
    /// Backwards from the given version to the first checkpoint, then from there.
    BackwardScan { end_version: Version },
    /// From the beginning of the log, without an end.
    FromStart,
}

/// How the log is listed for a snapshot at a version. A hint that points past the version is of no
/// use.
pub open spec fn snapshot_listing_of(
    hint: Option<LastCheckpointHint>,
    time_travel_version: Option<Version>,
) -> SnapshotListing {
    match (hint, time_travel_version) {
        (Some(h), None) => SnapshotListing::FromCheckpoint {
            version: h.version,
            end_version: None,
        },
        (Some(h), Some(end)) => if h.version <= end {
            SnapshotListing::FromCheckpoint { version: h.version, end_version: Some(end) }
        } else {
            SnapshotListing::BackwardScan { end_version: end }
        },
        (None, Some(end)) => SnapshotListing::BackwardScan { end_version: end },
        (None, None) => SnapshotListing::FromStart,
    }
}

/// The error where the first commit of a listing is not the one asked for.
pub open spec fn first_commit_error(
    start_version: Version,
    commits: Seq<LogPathView>,
) -> ErrorView {
    ErrorView::Generic(
        "Expected the first commit to have version "@ + text::decimal(start_version as nat) + ", got "@
            + (if commits.len() > 0 {
            "Some("@ + text::decimal(commits[0].version as nat) + ")"@
        } else {
            "None"@
        }),
    )
}

/// The segment that a listing of commits makes for the changes between two versions.
pub open spec fn table_changes_segment(
    listed: ListedView,
    log_root: Seq<char>,
    start_version: Version,
    end_version: Option<Version>,
) -> Result<SegmentView, ErrorView> {
    if end_version matches Some(end) && start_version > end {
        Err(
            ErrorView::Generic(
                "Failed to build LogSegment: start_version cannot be greater than end_version"@,
            ),
        )
    } else if listed.commits.len() == 0 || listed.commits[0].version != start_version {
        Err(first_commit_error(start_version, listed.commits))
    } else {
        log_segment::segment_of(listed, log_root, end_version, None)
    }
}

/// Where the last run of commits without a gap begins, looking back from `i`.
pub open spec fn run_start(s: Seq<LogPathView>, i: int) -> int
    decreases i,
{
    if i <= 0 {
        0
    } else if s[i].version == s[i - 1].version + 1 {
        run_start(s, i - 1)
    } else {
        i
    }
}

/// The last run of commits without a gap.
pub open spec fn latest_run(s: Seq<LogPathView>) -> Seq<LogPathView> {
    if s.len() == 0 {
        s
    } else {
        s.skip(run_start(s, s.len() - 1))
    }
}

/// Looking back from a position, a run begins at or before it, has no gap, and cannot be extended.
proof fn lemma_run_start(s: Seq<LogPathView>, i: int)
    requires
        0 <= i < s.len(),
    ensures
        0 <= run_start(s, i) <= i,
        forall|k: int|
            run_start(s, i) < k <= i ==> (#[trigger] s[k]).version == s[k - 1].version + 1,
        run_start(s, i) > 0 ==> s[run_start(s, i)].version != s[run_start(s, i) - 1].version + 1,
    decreases i,
{
    if i > 0 && s[i].version == s[i - 1].version + 1 {
        lemma_run_start(s, i - 1);
    }
}

/// The last run of commits has no gap, ends with the last commit, and is as long as can be.
pub proof fn latest_run_is_longest_contiguous_tail(s: Seq<LogPathView>)
    ensures
        log_validation::contiguous(latest_run(s)),
        latest_run(s).len() <= s.len(),
        latest_run(s) == s.skip(s.len() - latest_run(s).len()),
        s.len() > 0 ==> latest_run(s).len() > 0,
        latest_run(s).len() < s.len() ==> s[s.len() - latest_run(s).len()].version != s[s.len()
            - latest_run(s).len() - 1].version + 1,
{
    if s.len() > 0 {
        lemma_run_start(s, s.len() - 1);
        let n = run_start(s, s.len() - 1);
        let run = latest_run(s);
        assert forall|k: int| 0 <= k < run.len() - 1 implies #[trigger] log_validation::contiguity_fault(
            run,
            k,
        ) is None by {
            assert(s[n + k + 1].version == s[n + k + 1 - 1].version + 1);
            assert(run[k] == s[n + k] && run[k + 1] == s[n + k + 1]);
        }
        let fault = |i: int| log_validation::contiguity_fault(run, i);
        log_validation::lemma_first_fault(fault, 0, run.len() - 1);
        log_validation::lemma_contiguity_check(run);
    } else {
        assert(s.skip(0) =~= s);
    }
}

impl LogSegment {
    /// Decides how the log is listed for a snapshot, given the hint that names the last checkpoint
    /// and the version to go back to, where there are such.
    pub fn snapshot_listing(
        checkpoint_hint: &Option<LastCheckpointHint>,
        time_travel_version: Option<Version>,
    ) -> (r: SnapshotListing)
        ensures
            r == snapshot_listing_of(*checkpoint_hint, time_travel_version),
    {
        match (checkpoint_hint, time_travel_version) {
            (Some(h), None) => SnapshotListing::FromCheckpoint {
                version: h.version,
                end_version: None,
            },
            (Some(h), Some(end)) => if h.version <= end {
                SnapshotListing::FromCheckpoint { version: h.version, end_version: Some(end) }
            } else {
                SnapshotListing::BackwardScan { end_version: end }
            },
            (None, Some(end)) => SnapshotListing::BackwardScan { end_version: end },
            (None, None) => SnapshotListing::FromStart,
        }
    }

    /// The segment for a snapshot, made of what was listed. It ends at the version asked for, where
    /// there is one. The hint is kept whether or not the listing used it.
    pub fn for_snapshot_impl(
        listed_files: LogSegmentFiles,
        log_root: String,
        checkpoint_hint: Option<LastCheckpointHint>,
        time_travel_version: Option<Version>,
    ) -> (r: DeltaResult<LogSegment>)
        ensures
            log_segment::segment_of(
                listed_files@,
                log_root@,
                time_travel_version,
                hint_summary(checkpoint_hint),
            ) matches Ok(s) ==> (r matches Ok(segment) && segment@ == s && log_segment::segment_valid(segment@)),
            log_segment::segment_of(
                listed_files@,
                log_root@,
                time_travel_version,
                hint_summary(checkpoint_hint),
            ) matches Err(e) ==> error::failure(r) == Some(e),
    {
        let summary: Option<LastCheckpointHintSummary> = match checkpoint_hint {
            Some(h) => Some(
                LastCheckpointHintSummary { version: h.version, schema: h.checkpoint_schema },
            ),
            None => None,
        };
        LogSegment::try_new(listed_files, log_root, time_travel_version, summary)
    }

    /// Checks the versions between which changes are asked for.
    pub fn check_table_changes_range(
        start_version: Version,
        end_version: Option<Version>,
    ) -> (r: DeltaResult<()>)
        ensures
            r is Ok <==> (end_version matches Some(end) ==> start_version <= end),
            r matches Err(e) ==> e@ == ErrorView::Generic(
                "Failed to build LogSegment: start_version cannot be greater than end_version"@,
            ),
    {
        if let Some(end) = end_version {
            if start_version > end {
                return Err(
                    Error::generic(
                        "Failed to build LogSegment: start_version cannot be greater than end_version",
                    ),
                );
            }
        }
        Ok(())
    }

    /// The segment for the changes between two versions, made of a listing of commits. Fails where
    /// the range is empty or the listing does not begin at its start.
    pub fn for_table_changes(
        listed_files: LogSegmentFiles,
        log_root: String,
        start_version: Version,
        end_version: Option<Version>,
    ) -> (r: DeltaResult<LogSegment>)
        ensures
            table_changes_segment(
                listed_files@,
                log_root@,
                start_version,
                end_version,
            ) matches Ok(s) ==> (r matches Ok(segment) && segment@ == s && log_segment::segment_valid(segment@)),
            table_changes_segment(
                listed_files@,
                log_root@,
                start_version,
                end_version,
            ) matches Err(e) ==> error::failure(r) == Some(e),
    {
        LogSegment::check_table_changes_range(start_version, end_version)?;
        let commits = &listed_files.ascending_commit_files;
        if commits.len() == 0 {
            let want = unsigned_text(start_version);
            return Err(
                Error::Generic(
                    text4(
                        "Expected the first commit to have version ",
                        want.as_str(),
                        ", got ",
                        "None",
                    ),
                ),
            );
        }
        assert(listed_files@.commits[0] == commits@[0]@);
        if commits[0].version != start_version {
            let want = unsigned_text(start_version);
            let have = unsigned_text(commits[0].version);
            let shown = text3("Some(", have.as_str(), ")");
            return Err(
                Error::Generic(
                    text4(
                        "Expected the first commit to have version ",
                        want.as_str(),
                        ", got ",
                        shown.as_str(),
                    ),
                ),
            );
        }
        LogSegment::try_new(listed_files, log_root, end_version, None)
    }

    /// The version from which commits are listed to convert a timestamp: so many versions, the last
    /// one included, as the limit says, or all of them without a limit.
    pub fn timestamp_conversion_start(end_version: Version, limit: Option<usize>) -> (r: Option<
        Version,
    >)
        requires
            limit matches Some(n) ==> n > 0,
        ensures
            limit is None ==> r is None,
            limit matches Some(n) ==> r == Some(
                if n - 1 <= end_version {
                    (end_version - (n - 1)) as u64
                } else {
                    0
                },
            ),
    {
        match limit {
            Some(n) => Some(end_version.saturating_sub(n as u64 - 1)),
            None => None,
        }
    }

    /// The segment for converting a timestamp, made of a listing of commits that may have gaps:
    /// the last run of commits without a gap, which must end at the given version.
    pub fn for_timestamp_conversion(
        listed_commits: LogSegmentFiles,
        log_root: String,
        end_version: Version,
    ) -> (r: DeltaResult<LogSegment>)
        ensures
            ({
                let listed = ListedView {
                    commits: latest_run(listed_commits@.commits),
                    ..listed_commits@
                };
                &&& log_segment::segment_of(listed, log_root@, Some(end_version), None) matches Ok(s) ==> (
                r matches Ok(segment) && segment@ == s && log_segment::segment_valid(segment@))
                &&& log_segment::segment_of(listed, log_root@, Some(end_version), None) matches Err(e)
                    ==> error::failure(r) == Some(e)
            }),
    {
        let mut listed = listed_commits;
        let ghost s = listed@.commits;
        if listed.ascending_commit_files.len() > 0 {
            let commits = &listed.ascending_commit_files;
            let mut start: usize = commits.len() - 1;
            while start > 0 && commits[start - 1].version < u64::MAX && commits[start].version
                == 1 + commits[start - 1].version
                invariant
                    start < commits@.len(),
                    s == path::paths_view(commits@),
                    run_start(s, start as int) == run_start(s, s.len() - 1),
                decreases start,
            {
                assert(s[start as int] == commits@[start as int]@);
                assert(s[start - 1] == commits@[start - 1]@);
                start -= 1;
            }
            proof {
                assert(s[start as int] == commits@[start as int]@);
                if start > 0 {
                    assert(s[start - 1] == commits@[start - 1]@);
                }
            }
            let mut run: Vec<ParsedLogPath> = Vec::new();
            let mut i: usize = start;
            while i < commits.len()
                invariant
                    start <= i <= commits@.len(),
                    s == path::paths_view(commits@),
                    run@.len() == i - start,
                    forall|k: int| 0 <= k < run@.len() ==> (#[trigger] run@[k])@ == s[start + k],
                decreases commits.len() - i,
            {
                run.push(commits[i].clone());
                i += 1;
            }
            assert(path::paths_view(run@) =~= s.skip(start as int));
            listed.ascending_commit_files = run;
        }
        LogSegment::try_new(listed, log_root, Some(end_version), None)
    }
}

} // verus!
