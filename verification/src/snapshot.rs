//! A table at a version.
use vstd::prelude::*;

use crate::file_sizes;
use crate::crc::{self, CrcDelta, CrcDeltaView, FileSizeHistogram, HistogramView};
use crate::error::{self, DeltaResult, ErrorView};
use crate::log_segment::{self, LogSegment, SegmentView};
use crate::path::{LogPathView, ParsedLogPath};
use crate::schema::StructType;
use crate::table_configuration::{self, ConfigView, TableConfiguration};
use crate::Version;

verus! {

/// A table at a version: the part of the log that makes it up, and its configuration.
#[derive(Debug, PartialEq, Eq)]
pub struct Snapshot {
    pub log_segment: LogSegment,
    pub table_configuration: TableConfiguration,
    /// What the commit of this version changed in the checksum of the table, where the snapshot
    /// comes from that commit and not from reading the log.
    pub crc_delta: Option<CrcDelta>,
    /// How many files there are of which sizes, where the checksum of the table has a histogram and
    /// is loaded.
    pub file_size_histogram: Option<FileSizeHistogram>,
}

/// The mathematical value of a [`Snapshot`].
pub struct SnapshotView {
    pub segment: SegmentView,
    pub config: ConfigView,
    pub crc: Option<CrcDeltaView>,
    pub histogram: Option<HistogramView>,
}

impl View for Snapshot {
    type V = SnapshotView;

    open spec fn view(&self) -> SnapshotView {
        SnapshotView {
            segment: self.log_segment@,
            config: self.table_configuration@,
            crc: crc::opt_crc_delta(self.crc_delta),
            histogram: crc::opt_histogram(self.file_size_histogram),
        }
    }
}

/// The value of an optional snapshot.
pub open spec fn opt_snapshot(s: Option<Snapshot>) -> Option<SnapshotView> {
    match s {
        Some(s) => Some(s@),
        None => None,
    }
}

impl Clone for Snapshot {
    fn clone(&self) -> (r: Snapshot)
        ensures
            r@ == self@,
    {
        Snapshot {
            log_segment: self.log_segment.clone(),
            table_configuration: self.table_configuration.clone(),
            crc_delta: match &self.crc_delta {
                Some(d) => Some(d.clone()),
                None => None,
            },
            file_size_histogram: match &self.file_size_histogram {
                Some(h) => Some(h.clone()),
                None => None,
            },
        }
    }
}

/// What a snapshot guarantees: its log and its configuration are valid and of the same version, and
/// no compaction reaches beyond that version.
pub open spec fn snapshot_valid(s: SnapshotView) -> bool {
    &&& log_segment::segment_valid(s.segment)
    &&& table_configuration::config_valid(s.config)
    &&& s.segment.end_version == s.config.version
    &&& log_segment::compacted_through(s.segment) <= s.segment.end_version
}

/// The bins of the histogram of file sizes of a snapshot, where it has one.
pub open spec fn boundaries_of(s: SnapshotView) -> Option<Seq<i64>> {
    match s.histogram {
        Some(h) => Some(h.boundaries),
        None => None,
    }
}

/// The snapshot after a commit, given what the commit changes: it may have brought new metadata with
/// their schema or a new protocol. The snapshot carries the change; no checksum of its version is
/// loaded yet.
pub open spec fn snapshot_after(
    s: SnapshotView,
    commit: LogPathView,
    delta: CrcDeltaView,
) -> Result<SnapshotView, ErrorView> {
    match log_segment::append_fault(s.segment, commit) {
        Some(e) => Err(e),
        None => match table_configuration::config_after(
            s.config,
            delta.metadata,
            delta.protocol,
            commit.version,
        ) {
            Err(e) => Err(e),
            Ok(config) => Ok(
                SnapshotView {
                    segment: log_segment::appended_segment(s.segment, commit),
                    config,
                    crc: Some(delta),
                    histogram: None,
                },
            ),
        },
    }
}

/// A commit leads from one valid snapshot to the next: the new one is valid too, and its version is
/// one higher.
pub proof fn snapshot_stays_valid(s: SnapshotView, commit: LogPathView, delta: CrcDeltaView)
    requires
        snapshot_valid(s),
        s.segment.end_version < u64::MAX,
    ensures
        snapshot_after(s, commit, delta) matches Ok(t) ==> snapshot_valid(t)
            && t.segment.end_version == s.segment.end_version + 1,
{
    if log_segment::append_fault(s.segment, commit) is None {
        log_segment::append_keeps_segment_valid(s.segment, commit);
        table_configuration::configuration_stays_valid(
            s.config,
            delta.metadata,
            delta.protocol,
            commit.version,
        );
        log_segment::checkpoint_is_within_segment(log_segment::appended_segment(s.segment, commit));
    }
}

impl Snapshot {
    pub fn version(&self) -> (r: Version)
        ensures
            r == self@.config.version,
    {
        self.table_configuration.version
    }

    pub fn log_segment(&self) -> (r: &LogSegment)
        ensures
            r@ == self@.segment,
    {
        &self.log_segment
    }

    pub fn table_configuration(&self) -> (r: &TableConfiguration)
        ensures
            r@ == self@.config,
    {
        &self.table_configuration
    }

    pub fn schema(&self) -> (r: &StructType)
        ensures
            r@ == self@.config.logical,
    {
        &self.table_configuration.logical_schema
    }

    /// What the commit of this version changed in the checksum of the table, where the snapshot
    /// comes from that commit.
    pub fn crc_delta(&self) -> (r: Option<&CrcDelta>)
        ensures
            self@.crc is None ==> r is None,
            self@.crc matches Some(d) ==> (r matches Some(e) && e@ == d),
    {
        self.crc_delta.as_ref()
    }

    /// The bins of the histogram of file sizes, where the checksum of the table has one and is loaded.
    pub fn bin_boundaries(&self) -> (r: Option<&Vec<i64>>)
        ensures
            file_sizes::opt_boundaries(r) == boundaries_of(self@),
    {
        match &self.file_size_histogram {
            Some(h) => Some(&h.sorted_bin_boundaries),
            None => None,
        }
    }

    /// The snapshot after a commit to this one, given what the commit changes.
    pub fn new_post_commit(&self, commit: ParsedLogPath, crc_delta: CrcDelta) -> (r: DeltaResult<
        Snapshot,
    >)
        ensures
            snapshot_after(self@, commit@, crc_delta@) matches Ok(s) ==> (r matches Ok(t) && t@ == s),
            snapshot_after(self@, commit@, crc_delta@) matches Err(e) ==> error::failure(r) == Some(e),
    {
        let version: Version = commit.version;
        let log_segment = match self.log_segment.new_with_commit_appended(commit) {
            Ok(s) => s,
            Err(e) => {
                return Err(e);
            },
        };
        let changes = crc_delta.clone();
        match TableConfiguration::new_post_commit(
            &self.table_configuration,
            version,
            changes.metadata,
            changes.protocol,
        ) {
            Ok(table_configuration) => Ok(
                Snapshot {
                    log_segment,
                    table_configuration,
                    crc_delta: Some(crc_delta),
                    file_size_histogram: None,
                },
            ),
            Err(e) => Err(e),
        }
    }
}

} // verus!
