//! What becomes of a transaction when its commit has been tried.
use vstd::pervasive::unreached;
use vstd::prelude::*;

use crate::actions::{self, DomainMetadata, DomainMetadataView, MetadataView};
use crate::commit::{self, log_root, CommitPlan};
use crate::commit_path;
use crate::commit_plan;
use crate::crc::{
    clone_set_transactions, CrcDelta, CrcDeltaView, FileStatsDelta, FileStatsDeltaView,
};
use crate::error::{self, DeltaResult, Error, ErrorView};
use crate::file_sizes::{self, append_selected, sizes_of_all, StagedSizes, StagedSizesView};
use crate::log_segment::{self, LogSegment};
use crate::path::{FileMeta, FileMetaView, LogPathView, ParsedLogPath};
use crate::schema::FieldView;
use crate::snapshot::{self, Snapshot, SnapshotView};
use crate::table_configuration::{self, ConfigView, TableConfiguration};
use crate::text::clone_opt;
use crate::transaction::{self, Transaction, TxnView};
use crate::Version;

verus! {

/// What an engine may want to know in order to write a checkpoint or compact the log.
#[derive(Debug, Clone, Copy, PartialEq, Eq, Structural)]
pub struct PostCommitStats {
    /// How many commits came after the last checkpoint. The commit of version zero counts as a
    /// checkpoint.
    pub commits_since_checkpoint: u64,
    /// How many commits came after the last compaction or checkpoint.
    pub commits_since_log_compaction: u64,
}

/// A transaction that was committed.
#[derive(Debug)]
pub struct CommittedTransaction {
    pub commit_version: Version,
    pub post_commit_stats: PostCommitStats,
    /// The table after the commit.
    pub post_commit_snapshot: Option<Snapshot>,
}

/// The mathematical value of a [`CommittedTransaction`].
pub struct CommittedView {
    pub commit_version: Version,
    pub stats: PostCommitStats,
    pub snapshot: Option<SnapshotView>,
}

impl View for CommittedTransaction {
    type V = CommittedView;

    open spec fn view(&self) -> CommittedView {
        CommittedView {
            commit_version: self.commit_version,
            stats: self.post_commit_stats,
            snapshot: snapshot::opt_snapshot(self.post_commit_snapshot),
        }
    }
}

impl CommittedTransaction {
    /// The version that was committed.
    pub fn commit_version(&self) -> (r: Version)
        ensures
            r == self@.commit_version,
    {
        self.commit_version
    }

    pub fn post_commit_stats(&self) -> (r: &PostCommitStats)
        ensures
            *r == self@.stats,
    {
        &self.post_commit_stats
    }

    /// The table after the commit.
    pub fn post_commit_snapshot(&self) -> (r: Option<&Snapshot>)
        ensures
            self@.snapshot is None ==> r is None,
            self@.snapshot matches Some(s) ==> (r matches Some(t) && t@ == s),
    {
        self.post_commit_snapshot.as_ref()
    }
}

/// A transaction whose version was already taken.
#[derive(Debug)]
pub struct ConflictedTransaction<S, D> {
    pub transaction: Transaction<S, D>,
    pub conflict_version: Version,
}

impl<S, D> ConflictedTransaction<S, D> {
    /// The version that was already taken.
    pub fn conflict_version(&self) -> (r: Version)
        ensures
            r == self.conflict_version,
    {
        self.conflict_version
    }
}

/// A transaction whose commit failed for a passing reason. It can be committed again as it is.
#[derive(Debug)]
pub struct RetryableTransaction<S, D> {
    pub transaction: Transaction<S, D>,
    /// Why the commit failed.
    pub error: Error,
}

/// What became of a transaction.
#[must_use]
#[derive(Debug)]
pub enum CommitResult<S, D> {
    CommittedTransaction(CommittedTransaction),
    ConflictedTransaction(ConflictedTransaction<S, D>),
    RetryableTransaction(RetryableTransaction<S, D>),
}

/// The mathematical value of a [`CommitResult`].
pub enum CommitResultView<D> {
    Committed(CommittedView),
    Conflicted(TxnView<D>, Version),
    Retryable(TxnView<D>, ErrorView),
}

impl<S, D> View for CommitResult<S, D> {
    type V = CommitResultView<D>;

    open spec fn view(&self) -> CommitResultView<D> {
        match *self {
            CommitResult::CommittedTransaction(c) => CommitResultView::Committed(c@),
            CommitResult::ConflictedTransaction(c) => CommitResultView::Conflicted(
                c.transaction@,
                c.conflict_version,
            ),
            CommitResult::RetryableTransaction(c) => CommitResultView::Retryable(
                c.transaction@,
                c.error@,
            ),
        }
    }
}

impl<S, D> CommitResult<S, D> {
    /// Whether the transaction was committed.
    pub fn is_committed(&self) -> (r: bool)
        ensures
            r == (self@ is Committed),
    {
        match self {
            CommitResult::CommittedTransaction(_) => true,
            _ => false,
        }
    }

    /// The committed transaction.
    pub fn unwrap_committed(self) -> (r: CommittedTransaction)
        requires
            self@ is Committed,
        ensures
            self@ == CommitResultView::<D>::Committed(r@),
    {
        match self {
            CommitResult::CommittedTransaction(c) => c,
            _ => unreached(),
        }
    }
}

/// The metadata that a commit brings, with their schema.
pub open spec fn new_schema_of<D>(t: TxnView<D>) -> Option<(MetadataView, Seq<FieldView>)> {
    if t.emit_metadata {
        Some((t.config.metadata, t.config.logical))
    } else {
        None
    }
}

/// Which rows of the staged batches of removed files are selected.
pub open spec fn removed_selections<D>(t: TxnView<D>) -> Seq<Seq<bool>> {
    Seq::new(t.removes.len(), |i: int| t.removes[i].selection)
}

/// How the staged files of a transaction change the number and the sizes of the files of a table,
/// given the sizes of the staged files and the bins of the histogram of the table, if it has one.
pub open spec fn staged_delta<D>(
    t: TxnView<D>,
    sizes: StagedSizesView,
    boundaries: Option<Seq<i64>>,
) -> Result<FileStatsDeltaView, ErrorView> {
    if sizes.added.len() != t.adds.len() || sizes.removed.len() != t.removes.len() {
        Err(ErrorView::InternalError("The sizes of the files of every staged batch are needed"@))
    } else {
        let added = file_sizes::all_sizes(sizes.added);
        let removed = file_sizes::all_selected(sizes.removed, removed_selections(t));
        match file_sizes::sizes_fault(added, removed, boundaries) {
            Some(e) => Err(e),
            None => Ok(file_sizes::sizes_delta(added, removed, boundaries)),
        }
    }
}

/// What the commit of a transaction changes in the checksum of a table.
pub open spec fn crc_delta_of<D>(
    t: TxnView<D>,
    in_commit_timestamp: Option<i64>,
    domains: Seq<DomainMetadataView>,
    sizes: StagedSizesView,
    boundaries: Option<Seq<i64>>,
) -> Result<CrcDeltaView, ErrorView> {
    match staged_delta(t, sizes, boundaries) {
        Err(e) => Err(e),
        Ok(file_stats) => Ok(
            CrcDeltaView {
                file_stats,
                protocol: commit_plan::new_protocol_of(t),
                metadata: new_schema_of(t),
                domains,
                set_transactions: t.set_transactions,
                in_commit_timestamp,
                operation: t.operation,
                has_missing_file_size: false,
            },
        ),
    }
}

/// What a committer reports of a commit.
#[derive(Debug)]
pub enum CommitResponse {
    /// The commit was written to a file.
    Committed { file_meta: FileMeta },
    /// The version was already taken.
    Conflict { version: Version },
}

/// The table after the commit that created it, given what the commit changes.
pub open spec fn created_snapshot(
    config: ConfigView,
    commit: LogPathView,
    delta: CrcDeltaView,
    log_root: Result<Seq<char>, ErrorView>,
) -> Result<SnapshotView, ErrorView> {
    match log_root {
        Err(e) => Err(e),
        Ok(root) => if log_segment::version_zero_fault(commit) is Some {
            Err(log_segment::version_zero_fault(commit)->0)
        } else {
            match table_configuration::config_after(config, delta.metadata, delta.protocol, 0) {
                Err(e) => Err(e),
                Ok(after) => if delta.metadata is None || delta.protocol is None {
                    Err(
                        ErrorView::InternalError(
                            "CREATE TABLE CRC delta is missing protocol or metadata"@,
                        ),
                    )
                } else {
                    Ok(
                        SnapshotView {
                            segment: log_segment::version_zero_segment(root, commit),
                            config: after,
                            crc: Some(delta),
                            histogram: None,
                        },
                    )
                },
            }
        },
    }
}

/// The transaction after its commit was written to a file, given what the commit changes and the URL
/// of the log or the error in its place. The commit of version zero counts as a checkpoint: no commit
/// came after it yet.
pub open spec fn committed_of<D>(
    t: TxnView<D>,
    file: FileMetaView,
    delta: CrcDeltaView,
    log_root: Result<Seq<char>, ErrorView>,
) -> Result<CommittedView, ErrorView> {
    match commit_path::parsed_commit(file) {
        Err(e) => Err(e),
        Ok(commit) => match t.read {
            Some(s) => match snapshot::snapshot_after(s, commit, delta) {
                Err(e) => Err(e),
                Ok(after) => Ok(
                    CommittedView {
                        commit_version: commit.version,
                        stats: PostCommitStats {
                            commits_since_checkpoint: (s.segment.end_version
                                - log_segment::checkpointed_through(s.segment) + 1) as u64,
                            commits_since_log_compaction: (s.segment.end_version
                                - log_segment::compacted_through(s.segment) + 1) as u64,
                        },
                        snapshot: Some(after),
                    },
                ),
            },
            None => match created_snapshot(t.config, commit, delta, log_root) {
                Err(e) => Err(e),
                Ok(after) => Ok(
                    CommittedView {
                        commit_version: commit.version,
                        stats: PostCommitStats {
                            commits_since_checkpoint: 0,
                            commits_since_log_compaction: 0,
                        },
                        snapshot: Some(after),
                    },
                ),
            },
        },
    }
}

/// What becomes of a transaction, given what the committer reported and what the commit changes or
/// why that cannot be told. Failing to reach the storage is a passing reason; any other failure is an
/// error.
pub open spec fn result_of<D>(
    t: TxnView<D>,
    response: DeltaResult<CommitResponse>,
    delta: Result<CrcDeltaView, ErrorView>,
    log_root: Result<Seq<char>, ErrorView>,
) -> Result<CommitResultView<D>, ErrorView> {
    match response {
        Ok(CommitResponse::Committed { file_meta }) => match delta {
            Err(e) => Err(e),
            Ok(delta) => match committed_of(t, file_meta@, delta, log_root) {
                Ok(c) => Ok(CommitResultView::Committed(c)),
                Err(e) => Err(e),
            },
        },
        Ok(CommitResponse::Conflict { version }) => Ok(CommitResultView::Conflicted(t, version)),
        Err(e) => match e {
            Error::IOError(_) => Ok(CommitResultView::Retryable(t, e@)),
            _ => Err(e@),
        },
    }
}

/// What counting the commits after the next one needs: the checkpoint and the compactions of the
/// table lie within its log, and there is a next version.
pub open spec fn next_version_counts<D>(t: TxnView<D>) -> bool {
    t.read matches Some(s) ==> log_segment::compacted_through(s.segment) <= s.segment.end_version
        < u64::MAX
}

/// The bins of the histogram of the table that a transaction is based on, if it has one.
pub open spec fn read_boundaries<D>(t: TxnView<D>) -> Option<Seq<i64>> {
    match t.read {
        Some(s) => snapshot::boundaries_of(s),
        None => None,
    }
}

/// What the commit of a transaction by a plan changes in the checksum of a table, given the sizes of
/// the staged files.
pub open spec fn planned_delta<D>(t: TxnView<D>, plan: CommitPlan, sizes: StagedSizesView) -> Result<
    CrcDeltaView,
    ErrorView,
> {
    crc_delta_of(
        t,
        plan.in_commit_timestamp,
        actions::domains_view(plan.commit_metadata.domain_metadata_changes@),
        sizes,
        read_boundaries(t),
    )
}

/// A commit leads from a valid table to a valid table: the new snapshot is valid, its version is
/// that of the commit, and it is the one after the version that the transaction was based on, or
/// zero for a new table. It carries what the commit changes.
pub proof fn committed_table_is_valid<D>(
    t: TxnView<D>,
    file: FileMetaView,
    delta: CrcDeltaView,
    log_root: Result<Seq<char>, ErrorView>,
)
    requires
        transaction::txn_valid(t),
        t.read matches Some(s) ==> s.segment.end_version < u64::MAX,
    ensures
        committed_of(t, file, delta, log_root) matches Ok(c) ==> (c.snapshot matches Some(after)
            && snapshot::snapshot_valid(after) && after.config.version == c.commit_version
            && after.crc == Some(delta) && c.commit_version == transaction::commit_version_of(t)),
{
    if let Ok(c) = committed_of(t, file, delta, log_root) {
        let commit = commit_path::parsed_commit(file)->Ok_0;
        match t.read {
            Some(s) => {
                snapshot::snapshot_stays_valid(s, commit, delta);
            },
            None => {
                table_configuration::configuration_stays_valid(
                    t.config,
                    delta.metadata,
                    delta.protocol,
                    0,
                );
                let segment = c.snapshot->0.segment;
                assert(segment.listed.commits.len() == 1);
                assert(log_segment::segment_valid(segment));
                assert(log_segment::last_compacted(segment.listed.compactions) == 0);
            },
        }
    }
}

/// The statistics after a commit are those of the new table, whether the commit created the table or
/// not: how many versions lie between its last checkpoint and its last version, and how many between
/// its last compaction or checkpoint and its last version.
pub proof fn statistics_are_those_of_the_new_table<D>(
    t: TxnView<D>,
    file: FileMetaView,
    delta: CrcDeltaView,
    log_root: Result<Seq<char>, ErrorView>,
)
    requires
        transaction::txn_valid(t),
        t.read matches Some(s) ==> s.segment.end_version < u64::MAX,
    ensures
        committed_of(t, file, delta, log_root) matches Ok(c) ==> (c.snapshot matches Some(after) && {
            &&& c.stats.commits_since_checkpoint == after.segment.end_version
                - log_segment::checkpointed_through(after.segment)
            &&& c.stats.commits_since_log_compaction == after.segment.end_version
                - log_segment::compacted_through(after.segment)
        }),
{
    if let Ok(c) = committed_of(t, file, delta, log_root) {
        let segment = c.snapshot->0.segment;
        match t.read {
            Some(s) => {
                log_segment::checkpoint_is_within_segment(s.segment);
                assert(segment.listed.compactions == s.segment.listed.compactions);
            },
            None => {
                assert(log_segment::last_compacted(segment.listed.compactions) == 0);
            },
        }
    }
}

/// A refused commit leaves the transaction as it was: one that conflicts or that can be tried again
/// comes back unchanged, with the version that was taken or with the error.
pub proof fn refused_transactions_come_back<D>(
    t: TxnView<D>,
    response: DeltaResult<CommitResponse>,
    delta: Result<CrcDeltaView, ErrorView>,
    log_root: Result<Seq<char>, ErrorView>,
)
    ensures
        response matches Ok(CommitResponse::Conflict { version }) ==> result_of(
            t,
            response,
            delta,
            log_root,
        ) == Ok::<CommitResultView<D>, ErrorView>(CommitResultView::Conflicted(t, version)),
        response matches Err(e) ==> (e is IOError ==> result_of(t, response, delta, log_root) == Ok::<
            CommitResultView<D>,
            ErrorView,
        >(CommitResultView::Retryable(t, e@))) && (!(e is IOError) ==> result_of(
            t,
            response,
            delta,
            log_root,
        ) == Err::<CommitResultView<D>, ErrorView>(e@)),
{
}

/// The table after the commit that created it, given what the commit changes and the URL of its log
/// or the error in its place.
fn first_snapshot(
    config: &TableConfiguration,
    commit: ParsedLogPath,
    crc_delta: CrcDelta,
    log_root: DeltaResult<String>,
) -> (r: DeltaResult<Snapshot>)
    ensures
        created_snapshot(config@, commit@, crc_delta@, commit::text_outcome(log_root)) matches Ok(s)
            ==> (r matches Ok(t) && t@ == s),
        created_snapshot(config@, commit@, crc_delta@, commit::text_outcome(log_root)) matches Err(e)
            ==> error::failure(r) == Some(e),
{
    let root = match log_root {
        Ok(root) => root,
        Err(e) => {
            return Err(e);
        },
    };
    let log_segment = match LogSegment::new_for_version_zero(root, commit) {
        Ok(s) => s,
        Err(e) => {
            return Err(e);
        },
    };
    let changes = crc_delta.clone();
    let table_configuration = match TableConfiguration::new_post_commit(
        config,
        0,
        changes.metadata,
        changes.protocol,
    ) {
        Ok(c) => c,
        Err(e) => {
            return Err(e);
        },
    };
    if crc_delta.metadata.is_none() || crc_delta.protocol.is_none() {
        return Err(
            Error::internal_error("CREATE TABLE CRC delta is missing protocol or metadata"),
        );
    }
    Ok(
        Snapshot {
            log_segment,
            table_configuration,
            crc_delta: Some(crc_delta),
            file_size_histogram: None,
        },
    )
}

impl<S, D> Transaction<S, D> {
    /// Whether the checkpoint and the compactions of the table lie within its log, and there is a
    /// next version: what counting the commits after the next one needs.
    pub fn can_count_next_version(&self) -> (r: bool)
        ensures
            r == next_version_counts(self@),
    {
        match &self.read_snapshot {
            Some(snap) => snap.log_segment.covered_version() <= snap.log_segment.end_version
                && snap.log_segment.end_version < u64::MAX,
            None => true,
        }
    }

    /// How the staged files change the number and the sizes of the files of the table.
    fn staged_file_stats(&self, sizes: &StagedSizes, bin_boundaries: Option<&Vec<i64>>) -> (r:
        DeltaResult<FileStatsDelta>)
        ensures
            staged_delta(self@, sizes@, file_sizes::opt_boundaries(bin_boundaries)) matches Ok(d)
                ==> (r matches Ok(e) && e@ == d),
            staged_delta(self@, sizes@, file_sizes::opt_boundaries(bin_boundaries)) matches Err(e)
                ==> error::failure(r) == Some(e),
    {
        let files = &self.remove_files_metadata;
        if sizes.added.len() != self.add_files_metadata.len() || sizes.removed.len() != files.len() {
            return Err(
                Error::internal_error("The sizes of the files of every staged batch are needed"),
            );
        }
        let added = sizes_of_all(&sizes.added);
        let ghost b = sizes@.removed;
        let ghost s = removed_selections(self@);
        let mut removed: Vec<i64> = Vec::new();
        let mut i: usize = 0;
        assert(b.take(0) =~= Seq::<Seq<i64>>::empty());
        while i < files.len()
            invariant
                i <= files@.len(),
                files@.len() == sizes.removed@.len() == b.len() == s.len(),
                b == file_sizes::batches_view(sizes.removed@),
                self@.removes == transaction::filtered_view(files@),
                s == removed_selections(self@),
                removed@ == file_sizes::all_selected(b.take(i as int), s.take(i as int)),
            decreases files.len() - i,
        {
            assert(b[i as int] == sizes.removed@[i as int]@);
            assert(s[i as int] == files@[i as int].selection_vector@);
            assert(b.take(i + 1).drop_last() =~= b.take(i as int));
            assert(s.take(i + 1).drop_last() =~= s.take(i as int));
            append_selected(&sizes.removed[i], &files[i].selection_vector, &mut removed);
            i += 1;
        }
        assert(b.take(i as int) =~= b);
        assert(s.take(i as int) =~= s);
        FileStatsDelta::try_compute(&added, &removed, bin_boundaries)
    }

    /// What the commit changes in the checksum of the table, given the sizes of the staged files and
    /// the bins of the histogram of the table, if it has one. Fails where there are not sizes for
    /// every staged batch, where the bins do not ascend from zero, where a file has no bin, and where
    /// a sum does not fit.
    pub fn build_crc_delta(
        &self,
        in_commit_timestamp: Option<i64>,
        dm_changes: Vec<DomainMetadata>,
        sizes: &StagedSizes,
        bin_boundaries: Option<&Vec<i64>>,
    ) -> (r: DeltaResult<CrcDelta>)
        ensures
            ({
                let delta = crc_delta_of(
                    self@,
                    in_commit_timestamp,
                    actions::domains_view(dm_changes@),
                    sizes@,
                    file_sizes::opt_boundaries(bin_boundaries),
                );
                &&& delta matches Ok(d) ==> (r matches Ok(e) && e@ == d)
                &&& delta matches Err(e) ==> error::failure(r) == Some(e)
            }),
    {
        let file_stats = match self.staged_file_stats(sizes, bin_boundaries) {
            Ok(d) => d,
            Err(e) => {
                return Err(e);
            },
        };
        Ok(
            CrcDelta {
                file_stats,
                protocol: if self.should_emit_protocol {
                    Some(self.effective_table_config.protocol.clone())
                } else {
                    None
                },
                metadata: if self.should_emit_metadata {
                    Some(
                        (
                            self.effective_table_config.metadata.clone(),
                            self.effective_table_config.logical_schema.clone(),
                        ),
                    )
                } else {
                    None
                },
                domain_metadata_changes: dm_changes,
                set_transaction_changes: clone_set_transactions(&self.set_transactions),
                in_commit_timestamp,
                operation: clone_opt(&self.operation),
                has_missing_file_size: false,
            },
        )
    }

    /// The transaction after its commit was written to a file, given what the commit changes and the
    /// URL of the log or the error in its place. Fails where the file is not the commit that was to
    /// be written.
    pub fn into_committed_at(
        self,
        file_meta: FileMeta,
        crc_delta: CrcDelta,
        log_root: DeltaResult<String>,
    ) -> (r: DeltaResult<CommittedTransaction>)
        requires
            next_version_counts(self@),
        ensures
            committed_of(self@, file_meta@, crc_delta@, commit::text_outcome(log_root)) matches Ok(c) ==> (
            r matches Ok(d) && d@ == c),
            committed_of(self@, file_meta@, crc_delta@, commit::text_outcome(log_root)) matches Err(e)
                ==> error::failure(r) == Some(e),
    {
        let parsed_commit = match ParsedLogPath::parse_commit(file_meta) {
            Ok(p) => p,
            Err(e) => {
                return Err(e);
            },
        };
        let commit_version: Version = parsed_commit.version;
        match &self.read_snapshot {
            Some(snap) => {
                let post_commit_stats = PostCommitStats {
                    commits_since_checkpoint: snap.log_segment.commits_since_checkpoint() + 1,
                    commits_since_log_compaction:
                        snap.log_segment.commits_since_log_compaction_or_checkpoint() + 1,
                };
                match snap.new_post_commit(parsed_commit, crc_delta) {
                    Ok(after) => Ok(
                        CommittedTransaction {
                            commit_version,
                            post_commit_stats,
                            post_commit_snapshot: Some(after),
                        },
                    ),
                    Err(e) => Err(e),
                }
            },
            None => match first_snapshot(
                &self.effective_table_config,
                parsed_commit,
                crc_delta,
                log_root,
            ) {
                Ok(after) => Ok(
                    CommittedTransaction {
                        commit_version,
                        post_commit_stats: PostCommitStats {
                            commits_since_checkpoint: 0,
                            commits_since_log_compaction: 0,
                        },
                        post_commit_snapshot: Some(after),
                    },
                ),
                Err(e) => Err(e),
            },
        }
    }

    /// What becomes of the transaction, given its plan, what the committer reported, the sizes of
    /// the staged files, and the URL of the log or the error in its place.
    pub fn commit_at(
        self,
        plan: CommitPlan,
        response: DeltaResult<CommitResponse>,
        sizes: &StagedSizes,
        log_root: DeltaResult<String>,
    ) -> (r: DeltaResult<CommitResult<S, D>>)
        requires
            next_version_counts(self@),
        ensures
            result_of(
                self@,
                response,
                planned_delta(self@, plan, sizes@),
                commit::text_outcome(log_root),
            ) matches Ok(c) ==> (r matches Ok(d) && d@ == c),
            result_of(
                self@,
                response,
                planned_delta(self@, plan, sizes@),
                commit::text_outcome(log_root),
            ) matches Err(e) ==> error::failure(r) == Some(e),
    {
        match response {
            Ok(CommitResponse::Committed { file_meta }) => {
                let bin_boundaries = match &self.read_snapshot {
                    Some(snap) => snap.bin_boundaries(),
                    None => None,
                };
                let crc_delta = match self.build_crc_delta(
                    plan.in_commit_timestamp,
                    plan.commit_metadata.domain_metadata_changes,
                    sizes,
                    bin_boundaries,
                ) {
                    Ok(d) => d,
                    Err(e) => {
                        return Err(e);
                    },
                };
                match self.into_committed_at(file_meta, crc_delta, log_root) {
                    Ok(c) => Ok(CommitResult::CommittedTransaction(c)),
                    Err(e) => Err(e),
                }
            },
            Ok(CommitResponse::Conflict { version }) => Ok(
                CommitResult::ConflictedTransaction(
                    ConflictedTransaction { transaction: self, conflict_version: version },
                ),
            ),
            Err(e) => match e {
                Error::IOError(m) => Ok(
                    CommitResult::RetryableTransaction(
                        RetryableTransaction { transaction: self, error: Error::IOError(m) },
                    ),
                ),
                _ => Err(e),
            },
        }
    }

    /// What becomes of the transaction, given its plan, what the committer reported, and the sizes
    /// of the staged files: it was committed, its version was already taken, or it can be tried again
    /// because the storage could not be reached. Any other failure of the committer is an error.
    pub fn commit(
        self,
        plan: CommitPlan,
        response: DeltaResult<CommitResponse>,
        sizes: &StagedSizes,
    ) -> (r: DeltaResult<CommitResult<S, D>>)
        requires
            next_version_counts(self@),
        ensures
            result_of(
                self@,
                response,
                planned_delta(self@, plan, sizes@),
                commit::log_root_of(self@.config.table_root),
            ) matches Ok(c) ==> (r matches Ok(d) && d@ == c),
            result_of(
                self@,
                response,
                planned_delta(self@, plan, sizes@),
                commit::log_root_of(self@.config.table_root),
            ) matches Err(e) ==> error::failure(r) == Some(e),
    {
        let root = log_root(self.effective_table_config.table_root.as_str());
        self.commit_at(plan, response, sizes, root)
    }
}

} // verus!
