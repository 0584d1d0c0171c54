//! What a commit of a transaction writes.
use vstd::prelude::*;

use crate::actions::{
    self, CommitInfo, CommitInfoView, DomainMetadata, DomainMetadataView, Metadata, MetadataView,
    Protocol, ProtocolView, SetTransaction, SetTransactionView,
};
use crate::error::{self, DeltaResult, Error, ErrorView};
use crate::file_stats::{self, FileStats, FileStatsView};
use crate::row_tracking::{self, assign_row_ids};
use crate::string_map::StringMap;
use crate::table_configuration::{self, TableConfiguration};
use crate::table_features::FeatureView;
use crate::transaction::{self, TxnView};
use crate::Version;

verus! {

/// What kind of commit a transaction makes.
#[derive(Debug, Clone, Copy, PartialEq, Eq, Structural)]
pub enum CommitType {
    PathBasedCreate,
    PathBasedWrite,
    CatalogManagedCreate,
    CatalogManagedWrite,
}

/// The kind of commit that creates a table or writes to it.
pub open spec fn commit_type_of(is_create: bool, managed: bool) -> CommitType {
    match (is_create, managed) {
        (true, true) => CommitType::CatalogManagedCreate,
        (true, false) => CommitType::PathBasedCreate,
        (false, true) => CommitType::CatalogManagedWrite,
        (false, false) => CommitType::PathBasedWrite,
    }
}

/// Whether a kind of commit goes through a catalog.
pub open spec fn needs_catalog(t: CommitType) -> bool {
    t is CatalogManagedCreate || t is CatalogManagedWrite
}

impl CommitType {
    /// Whether the commit goes through a catalog.
    pub fn requires_catalog_committer(&self) -> (r: bool)
        ensures
            r == needs_catalog(*self),
    {
        match self {
            CommitType::CatalogManagedCreate | CommitType::CatalogManagedWrite => true,
            _ => false,
        }
    }
}

/// Why a commit of a kind cannot go through a committer.
pub open spec fn committer_fault(is_catalog_committer: bool, t: CommitType) -> Option<ErrorView> {
    if !is_catalog_committer && needs_catalog(t) {
        Some(
            ErrorView::Generic(
                "This table is catalog-managed and requires a catalog committer. Please provide a catalog committer via Snapshot::transaction()."@,
            ),
        )
    } else if is_catalog_committer && !needs_catalog(t) {
        Some(
            ErrorView::Generic(
                "This table is path-based and cannot be committed to with a catalog committer."@,
            ),
        )
    } else {
        None
    }
}

/// The kind of commit that a transaction on a table with the given configuration makes.
pub fn determine_commit_type(is_create: bool, table_config: &TableConfiguration) -> (r: CommitType)
    ensures
        r == commit_type_of(is_create, table_configuration::catalog_managed(table_config@.protocol)),
{
    match (is_create, table_config.is_catalog_managed()) {
        (true, true) => CommitType::CatalogManagedCreate,
        (true, false) => CommitType::PathBasedCreate,
        (false, true) => CommitType::CatalogManagedWrite,
        (false, false) => CommitType::PathBasedWrite,
    }
}

/// Checks that a committer fits a kind of commit: what a catalog manages is committed through a
/// catalog, and nothing else is.
pub fn validate_commit_type(is_catalog_committer: bool, commit_type: CommitType) -> (r: DeltaResult<
    (),
>)
    ensures
        error::failure(r) == committer_fault(is_catalog_committer, commit_type),
{
    match (is_catalog_committer, commit_type.requires_catalog_committer()) {
        (false, true) => Err(
            Error::generic(
                "This table is catalog-managed and requires a catalog committer. Please provide a catalog committer via Snapshot::transaction().",
            ),
        ),
        (true, false) => Err(
            Error::generic(
                "This table is path-based and cannot be committed to with a catalog committer.",
            ),
        ),
        _ => Ok(()),
    }
}

/// What a committer is told about a commit.
#[derive(Debug)]
pub struct CommitMetadata {
    /// The URL of the log.
    pub log_root: String,
    pub version: Version,
    pub commit_type: CommitType,
    /// The in-commit timestamp, or the time of the transaction where there is none.
    pub in_commit_timestamp: i64,
    pub max_published_version: Option<Version>,
    /// The protocol and metadata before the commit.
    pub read_protocol: Option<Protocol>,
    pub read_metadata: Option<Metadata>,
    /// The protocol and metadata that the commit brings.
    pub new_protocol: Option<Protocol>,
    pub new_metadata: Option<Metadata>,
    pub domain_metadata_changes: Vec<DomainMetadata>,
}

/// The mathematical value of a [`CommitMetadata`].
pub struct CommitMetadataView {
    pub log_root: Seq<char>,
    pub version: Version,
    pub commit_type: CommitType,
    pub in_commit_timestamp: i64,
    pub max_published: Option<Version>,
    pub read_protocol: Option<ProtocolView>,
    pub read_metadata: Option<MetadataView>,
    pub new_protocol: Option<ProtocolView>,
    pub new_metadata: Option<MetadataView>,
    pub domains: Seq<DomainMetadataView>,
}

/// The value of optional metadata.
pub open spec fn opt_bare_metadata(m: Option<Metadata>) -> Option<MetadataView> {
    match m {
        Some(m) => Some(m@),
        None => None,
    }
}

impl View for CommitMetadata {
    type V = CommitMetadataView;

    open spec fn view(&self) -> CommitMetadataView {
        CommitMetadataView {
            log_root: self.log_root@,
            version: self.version,
            commit_type: self.commit_type,
            in_commit_timestamp: self.in_commit_timestamp,
            max_published: self.max_published_version,
            read_protocol: table_configuration::opt_protocol(self.read_protocol),
            read_metadata: opt_bare_metadata(self.read_metadata),
            new_protocol: table_configuration::opt_protocol(self.new_protocol),
            new_metadata: opt_bare_metadata(self.new_metadata),
            domains: actions::domains_view(self.domain_metadata_changes@),
        }
    }
}

/// The protocol that a commit brings.
pub open spec fn new_protocol_of<D>(t: TxnView<D>) -> Option<ProtocolView> {
    if t.emit_protocol {
        Some(t.config.protocol)
    } else {
        None
    }
}

/// The metadata that a commit brings.
pub open spec fn new_metadata_of<D>(t: TxnView<D>) -> Option<MetadataView> {
    if t.emit_metadata {
        Some(t.config.metadata)
    } else {
        None
    }
}

/// What a committer is told about the commit of a transaction.
pub open spec fn commit_metadata_of<D>(
    t: TxnView<D>,
    log_root: Seq<char>,
    in_commit_timestamp: Option<i64>,
    domains: Seq<DomainMetadataView>,
) -> CommitMetadataView {
    CommitMetadataView {
        log_root,
        version: transaction::commit_version_of(t),
        commit_type: commit_type_of(transaction::creates_table(t), table_configuration::catalog_managed(t.config.protocol)),
        in_commit_timestamp: match in_commit_timestamp {
            Some(ts) => ts,
            None => t.timestamp,
        },
        max_published: match t.read {
            Some(s) => s.segment.listed.max_published,
            None => None,
        },
        read_protocol: match t.read {
            Some(s) => Some(s.config.protocol),
            None => None,
        },
        read_metadata: match t.read {
            Some(s) => Some(s.config.metadata),
            None => None,
        },
        new_protocol: new_protocol_of(t),
        new_metadata: new_metadata_of(t),
        domains,
    }
}

/// Why the committer of a transaction does not fit it.
pub open spec fn txn_committer_fault<D>(t: TxnView<D>) -> Option<ErrorView> {
    committer_fault(
        t.catalog_committer,
        commit_type_of(transaction::creates_table(t), table_configuration::catalog_managed(t.config.protocol)),
    )
}

/// The in-commit timestamp of a commit, given that of the commit before it.
pub open spec fn in_commit_timestamp_of<D>(t: TxnView<D>, previous: Option<i64>) -> Option<i64> {
    if !table_configuration::feature_enabled(t.config.protocol, t.config.properties, FeatureView::InCommitTimestamp) {
        None
    } else if transaction::creates_table(t) {
        Some(t.timestamp)
    } else {
        match previous {
            None => None,
            Some(p) => if p < t.timestamp {
                Some(t.timestamp)
            } else {
                Some((p + 1) as i64)
            },
        }
    }
}

/// In-commit timestamps increase: that of a commit is above that of the commit before it, and not
/// before the time of the transaction. A commit has one exactly where the table has them enabled.
pub proof fn in_commit_timestamps_increase<D>(t: TxnView<D>, previous: i64)
    requires
        !transaction::creates_table(t),
        previous < i64::MAX,
    ensures
        in_commit_timestamp_of(t, Some(previous)) is Some <==> table_configuration::feature_enabled(
            t.config.protocol,
            t.config.properties,
            FeatureView::InCommitTimestamp,
        ),
        in_commit_timestamp_of(t, Some(previous)) matches Some(ts) ==> ts > previous && ts
            >= t.timestamp,
{
}

/// The first row identifiers of the files of batches, and the highest row identifier after them.
pub struct BatchRowIdsView {
    pub base_row_ids: Seq<Seq<i64>>,
    pub high_water_mark: i64,
}

/// The numbers of records of files.
pub open spec fn records_of(batch: Seq<FileStatsView>) -> Seq<Option<i64>> {
    Seq::new(batch.len(), |i: int| batch[i].num_records)
}

/// The row identifiers of the files of batches, one batch after the other.
pub open spec fn batch_row_ids(high_water_mark: i64, batches: Seq<Seq<FileStatsView>>) -> Result<
    BatchRowIdsView,
    ErrorView,
>
    decreases batches.len(),
{
    if batches.len() == 0 {
        Ok(BatchRowIdsView { base_row_ids: Seq::empty(), high_water_mark })
    } else {
        match batch_row_ids(high_water_mark, batches.drop_last()) {
            Err(e) => Err(e),
            Ok(front) => match row_tracking::row_ids_of(front.high_water_mark, records_of(batches.last())) {
                Err(e) => Err(e),
                Ok(ids) => Ok(
                    BatchRowIdsView {
                        base_row_ids: front.base_row_ids.push(ids.base_row_ids),
                        high_water_mark: ids.high_water_mark,
                    },
                ),
            },
        }
    }
}

/// An error in the first batches is the error of all of them.
proof fn lemma_batch_error(high_water_mark: i64, batches: Seq<Seq<FileStatsView>>, n: int)
    requires
        0 <= n <= batches.len(),
        batch_row_ids(high_water_mark, batches.take(n)) is Err,
    ensures
        batch_row_ids(high_water_mark, batches) == batch_row_ids(high_water_mark, batches.take(n)),
    decreases batches.len(),
{
    if n == batches.len() {
        assert(batches.take(n) =~= batches);
    } else {
        assert(batches.drop_last().take(n) =~= batches.take(n));
        lemma_batch_error(high_water_mark, batches.drop_last(), n);
    }
}

/// The first row identifiers of the files of batches, and the highest row identifier after them.
#[derive(Debug, PartialEq, Eq)]
pub struct BatchRowIds {
    pub base_row_ids: Vec<Vec<i64>>,
    pub high_water_mark: i64,
}

/// The values of lists of row identifiers.
pub open spec fn id_lists(s: Seq<Vec<i64>>) -> Seq<Seq<i64>> {
    Seq::new(s.len(), |i: int| s[i]@)
}

impl View for BatchRowIds {
    type V = BatchRowIdsView;

    open spec fn view(&self) -> BatchRowIdsView {
        BatchRowIdsView {
            base_row_ids: id_lists(self.base_row_ids@),
            high_water_mark: self.high_water_mark,
        }
    }
}

/// The value of optional row identifiers.
pub open spec fn opt_row_ids(ids: Option<BatchRowIds>) -> Option<BatchRowIdsView> {
    match ids {
        Some(ids) => Some(ids@),
        None => None,
    }
}

/// The numbers of records of files.
fn records(batch: &Vec<FileStats>) -> (r: Vec<Option<i64>>)
    ensures
        r@ == records_of(file_stats::batch_stats(batch@)),
{
    let mut out: Vec<Option<i64>> = Vec::new();
    let mut i: usize = 0;
    while i < batch.len()
        invariant
            i <= batch@.len(),
            out@ =~= records_of(file_stats::batch_stats(batch@)).take(i as int),
        decreases batch.len() - i,
    {
        out.push(batch[i].num_records);
        i += 1;
    }
    out
}

/// Gives the rows of the files of batches identifiers.
pub fn assign_batch_row_ids(high_water_mark: i64, batches: &Vec<Vec<FileStats>>) -> (r: DeltaResult<
    BatchRowIds,
>)
    ensures
        batch_row_ids(high_water_mark, file_stats::all_stats(batches@)) matches Ok(ids) ==> (r matches Ok(s)
            && s@ == ids),
        batch_row_ids(high_water_mark, file_stats::all_stats(batches@)) matches Err(e) ==> error::failure(r) == Some(e),
{
    let ghost all = file_stats::all_stats(batches@);
    let mut base_row_ids: Vec<Vec<i64>> = Vec::new();
    let mut mark: i64 = high_water_mark;
    let mut i: usize = 0;
    assert(all.take(0) =~= Seq::<Seq<FileStatsView>>::empty());
    assert(id_lists(base_row_ids@) =~= Seq::<Seq<i64>>::empty());
    while i < batches.len()
        invariant
            i <= batches@.len(),
            all == file_stats::all_stats(batches@),
            batch_row_ids(high_water_mark, all.take(i as int)) == Ok::<BatchRowIdsView, ErrorView>(
                BatchRowIdsView {
                    base_row_ids: id_lists(base_row_ids@),
                    high_water_mark: mark,
                },
            ),
        decreases batches.len() - i,
    {
        let ghost before = id_lists(base_row_ids@);
        assert(all.take(i + 1).drop_last() =~= all.take(i as int));
        assert(all.take(i + 1).last() == file_stats::batch_stats(batches@[i as int]@));
        let counts = records(&batches[i]);
        match assign_row_ids(mark, &counts) {
            Err(e) => {
                proof {
                    lemma_batch_error(high_water_mark, all, i + 1);
                }
                return Err(e);
            },
            Ok(ids) => {
                base_row_ids.push(ids.base_row_ids);
                mark = ids.high_water_mark;
                assert(id_lists(base_row_ids@) =~= before.push(ids@.base_row_ids));
            },
        }
        i += 1;
    }
    assert(all.take(i as int) =~= all);
    Ok(BatchRowIds { base_row_ids, high_water_mark: mark })
}

/// What has to be read before a commit can be planned.
#[derive(Debug, PartialEq, Eq)]
pub struct CommitReads {
    /// The in-commit timestamp of the table.
    pub in_commit_timestamp: bool,
    /// The highest row identifier of the table.
    pub high_water_mark: bool,
    /// The configurations of the domains of the table.
    pub domains: bool,
}

/// What was read before a commit is planned.
#[derive(Debug)]
pub struct CommitInputs {
    /// The in-commit timestamp of the table.
    pub previous_in_commit_timestamp: Option<i64>,
    /// The highest row identifier of the table.
    pub row_id_high_water_mark: Option<i64>,
    /// The configurations of the domains of the table.
    pub existing_domains: StringMap<String>,
    /// The statistics of the added files, batch by batch.
    pub file_stats: Vec<Vec<FileStats>>,
}

/// The mathematical value of [`CommitInputs`].
pub struct InputsView {
    pub previous: Option<i64>,
    pub high_water_mark: Option<i64>,
    pub domains: Map<Seq<char>, Seq<char>>,
    pub stats: Seq<Seq<FileStatsView>>,
}

impl View for CommitInputs {
    type V = InputsView;

    open spec fn view(&self) -> InputsView {
        InputsView {
            previous: self.previous_in_commit_timestamp,
            high_water_mark: self.row_id_high_water_mark,
            domains: self.existing_domains@,
            stats: file_stats::all_stats(self.file_stats@),
        }
    }
}

/// One action of a commit, or one batch of actions.
#[derive(Debug)]
pub enum CommitAction {
    CommitInfo(CommitInfo),
    Protocol(Protocol),
    Metadata(Metadata),
    /// The files of a batch of added files. With row tracking each file has a first row identifier,
    /// and all of them have a version.
    Add { batch: usize, row_tracking: Option<(Vec<i64>, i64)> },
    SetTransaction(SetTransaction),
    DomainMetadata(DomainMetadata),
    /// The removal of the selected files of a batch of removed files.
    Remove { batch: usize },
    /// The removal of the selected files of a batch of files with new deletion vectors.
    RemoveUpdated { batch: usize },
    /// The selected files of a batch of files with new deletion vectors.
    AddUpdated { batch: usize },
}

/// The mathematical value of a [`CommitAction`].
#[allow(inconsistent_fields)]
pub enum ActionView {
    CommitInfo(CommitInfoView),
    Protocol(ProtocolView),
    Metadata(MetadataView),
    Add { batch: int, row_tracking: Option<(Seq<i64>, i64)> },
    SetTransaction(SetTransactionView),
    DomainMetadata(DomainMetadataView),
    Remove { batch: int },
    RemoveUpdated { batch: int },
    AddUpdated { batch: int },
}

impl View for CommitAction {
    type V = ActionView;

    open spec fn view(&self) -> ActionView {
        match *self {
            CommitAction::CommitInfo(c) => ActionView::CommitInfo(c@),
            CommitAction::Protocol(p) => ActionView::Protocol(p@),
            CommitAction::Metadata(m) => ActionView::Metadata(m@),
            CommitAction::Add { batch, row_tracking } => ActionView::Add {
                batch: batch as int,
                row_tracking: match row_tracking {
                    Some((ids, v)) => Some((ids@, v)),
                    None => None,
                },
            },
            CommitAction::SetTransaction(s) => ActionView::SetTransaction(s@),
            CommitAction::DomainMetadata(d) => ActionView::DomainMetadata(d@),
            CommitAction::Remove { batch } => ActionView::Remove { batch: batch as int },
            CommitAction::RemoveUpdated { batch } => ActionView::RemoveUpdated {
                batch: batch as int,
            },
            CommitAction::AddUpdated { batch } => ActionView::AddUpdated { batch: batch as int },
        }
    }
}

/// The values of a list of actions.
pub open spec fn actions_view(s: Seq<CommitAction>) -> Seq<ActionView> {
    Seq::new(s.len(), |i: int| s[i]@)
}

} // verus!
