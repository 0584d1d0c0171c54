//! Transactions: the changes to a table that one commit will make.
use vstd::prelude::*;

use crate::actions::{self, DomainMetadata, DomainMetadataView, SetTransaction, SetTransactionView};
use crate::bindings::{self, new_uuid_text};
use crate::deletion_vector_path::DeletionVectorPath;
use crate::dv_update::{self, DvBatchView, DvMatchedBatch};
use crate::error::{self, DeltaResult, Error, ErrorView};
use crate::evaluation::{self, base_add_files_schema, EditView, FieldEdit};
use crate::expressions::{self, ColumnName};
use crate::file_stats::{self, verify_stats, FileStats, FileStatsView};
use crate::schema::{FieldView, StructType};
use crate::schema_transform;
use crate::snapshot::{self, Snapshot, SnapshotView};
use crate::stats_schema;
use crate::table_configuration::{self, ConfigView, TableConfiguration};
use crate::table_features::{ColumnMappingMode, FeatureView, TableFeature};
use crate::text::{self, text5, unsigned_text};
use crate::Version;

verus! {

/// Marks transactions on existing tables, which can do everything.
#[derive(Debug, Clone, Copy, PartialEq, Eq)]
pub struct ExistingTable;

/// Marks transactions that create a table. What makes no sense for a new table, such as removing
/// files, they do not offer.
#[derive(Debug, Clone, Copy, PartialEq, Eq)]
pub struct CreateTable;

/// Marks transactions that change the schema of a table. They do not touch its data.
#[derive(Debug, Clone, Copy, PartialEq, Eq)]
pub struct AlterTable;

/// Rows of an engine, some of which are selected. Rows after the end of the selection are selected.
#[derive(Debug, PartialEq, Eq)]
pub struct FilteredEngineData<D> {
    pub data: D,
    pub selection_vector: Vec<bool>,
}

/// The mathematical value of [`FilteredEngineData`].
pub struct FilteredView<D> {
    pub data: D,
    pub selection: Seq<bool>,
}

impl<D> View for FilteredEngineData<D> {
    type V = FilteredView<D>;

    open spec fn view(&self) -> FilteredView<D> {
        FilteredView { data: self.data, selection: self.selection_vector@ }
    }
}

/// The values of a list of filtered rows.
pub open spec fn filtered_view<D>(s: Seq<FilteredEngineData<D>>) -> Seq<FilteredView<D>> {
    Seq::new(s.len(), |i: int| s[i]@)
}

impl<D> FilteredEngineData<D> {
    /// Rows of which all are selected.
    pub fn with_all_rows_selected(data: D) -> (r: FilteredEngineData<D>)
        ensures
            r@ == (FilteredView { data, selection: Seq::empty() }),
    {
        let selection_vector: Vec<bool> = Vec::new();
        assert(selection_vector@ =~= Seq::<bool>::empty());
        FilteredEngineData { data, selection_vector }
    }
}

/// The values of a list of set-transaction actions.
pub open spec fn set_transactions_view(s: Seq<SetTransaction>) -> Seq<SetTransactionView> {
    Seq::new(s.len(), |i: int| s[i]@)
}

/// The changes to a table that one commit will make.
///
/// `S` says what the transaction is for, and `D` is the type of the rows of the engine.
#[derive(Debug)]
pub struct Transaction<S, D> {
    /// The table before the commit: none where the transaction creates the table.
    pub read_snapshot: Option<Snapshot>,
    /// The configuration of the table after the commit.
    pub effective_table_config: TableConfiguration,
    /// Whether the commit holds a protocol action.
    pub should_emit_protocol: bool,
    /// Whether the commit holds a metadata action.
    pub should_emit_metadata: bool,
    /// Whether the commit goes through a catalog.
    pub is_catalog_committer: bool,
    pub operation: Option<String>,
    pub engine_info: Option<String>,
    /// What the engine adds to the commit info, and the schema of that.
    pub engine_commit_info: Option<(D, StructType)>,
    pub add_files_metadata: Vec<D>,
    pub remove_files_metadata: Vec<FilteredEngineData<D>>,
    pub set_transactions: Vec<SetTransaction>,
    /// When the transaction began, in milliseconds since the Unix epoch.
    pub commit_timestamp: i64,
    pub user_domain_metadata_additions: Vec<DomainMetadata>,
    /// Domains that the library itself sets.
    pub system_domain_metadata_additions: Vec<DomainMetadata>,
    /// The names of the domains to remove.
    pub user_domain_removals: Vec<String>,
    /// Whether the transaction changes data, and does not only move it.
    pub data_change: bool,
    pub is_blind_append: bool,
    /// Files that get a new deletion vector.
    pub dv_matched_files: Vec<DvMatchedBatch<D>>,
    /// The physical names of the clustering columns, where the table is clustered.
    pub physical_clustering_columns: Option<Vec<ColumnName>>,
    pub state: S,
}

/// The mathematical value of a [`Transaction`].
pub struct TxnView<D> {
    pub read: Option<SnapshotView>,
    pub config: ConfigView,
    pub emit_protocol: bool,
    pub emit_metadata: bool,
    pub catalog_committer: bool,
    pub operation: Option<Seq<char>>,
    pub engine_info: Option<Seq<char>>,
    pub engine_commit_info: Option<(D, Seq<FieldView>)>,
    pub adds: Seq<D>,
    pub removes: Seq<FilteredView<D>>,
    pub set_transactions: Seq<SetTransactionView>,
    pub timestamp: i64,
    pub user_domains: Seq<DomainMetadataView>,
    pub system_domains: Seq<DomainMetadataView>,
    pub removals: Seq<Seq<char>>,
    pub data_change: bool,
    pub blind_append: bool,
    pub dv_files: Seq<DvBatchView<D>>,
    pub clustering: Option<Seq<Seq<Seq<char>>>>,
}

impl<S, D> View for Transaction<S, D> {
    type V = TxnView<D>;

    open spec fn view(&self) -> TxnView<D> {
        TxnView {
            read: snapshot::opt_snapshot(self.read_snapshot),
            config: self.effective_table_config@,
            emit_protocol: self.should_emit_protocol,
            emit_metadata: self.should_emit_metadata,
            catalog_committer: self.is_catalog_committer,
            operation: text::opt_text(self.operation),
            engine_info: text::opt_text(self.engine_info),
            engine_commit_info: match self.engine_commit_info {
                Some((d, s)) => Some((d, s@)),
                None => None,
            },
            adds: self.add_files_metadata@,
            removes: filtered_view(self.remove_files_metadata@),
            set_transactions: set_transactions_view(self.set_transactions@),
            timestamp: self.commit_timestamp,
            user_domains: actions::domains_view(self.user_domain_metadata_additions@),
            system_domains: actions::domains_view(self.system_domain_metadata_additions@),
            removals: text::texts(self.user_domain_removals@),
            data_change: self.data_change,
            blind_append: self.is_blind_append,
            dv_files: dv_update::dv_batches_view(self.dv_matched_files@),
            clustering: expressions::opt_columns(self.physical_clustering_columns),
        }
    }
}

/// What a transaction guarantees: the table before the commit and the configuration after it are
/// valid.
pub open spec fn txn_valid<D>(t: TxnView<D>) -> bool {
    &&& table_configuration::config_valid(t.config)
    &&& t.read matches Some(s) ==> snapshot::snapshot_valid(s)
}

/// Whether a transaction creates a table.
pub open spec fn creates_table<D>(t: TxnView<D>) -> bool {
    t.read is None
}

/// The transaction with nothing staged.
pub open spec fn fresh_txn<D>(
    read: Option<SnapshotView>,
    config: ConfigView,
    catalog_committer: bool,
    timestamp: i64,
    clustering: Option<Seq<Seq<Seq<char>>>>,
) -> TxnView<D> {
    TxnView {
        read,
        config,
        emit_protocol: false,
        emit_metadata: false,
        catalog_committer,
        operation: None,
        engine_info: None,
        engine_commit_info: None,
        adds: Seq::empty(),
        removes: Seq::empty(),
        set_transactions: Seq::empty(),
        timestamp,
        user_domains: Seq::empty(),
        system_domains: Seq::empty(),
        removals: Seq::empty(),
        data_change: true,
        blind_append: false,
        dv_files: Seq::empty(),
        clustering,
    }
}

impl<S, D> Transaction<S, D> {
    /// The transaction with nothing staged.
    pub fn fresh(
        read_snapshot: Option<Snapshot>,
        effective_table_config: TableConfiguration,
        is_catalog_committer: bool,
        commit_timestamp: i64,
        physical_clustering_columns: Option<Vec<ColumnName>>,
        state: S,
    ) -> (r: Transaction<S, D>)
        ensures
            r@ == fresh_txn::<D>(
                snapshot::opt_snapshot(read_snapshot),
                effective_table_config@,
                is_catalog_committer,
                commit_timestamp,
                expressions::opt_columns(physical_clustering_columns),
            ),
    {
        let r = Transaction {
            read_snapshot,
            effective_table_config,
            should_emit_protocol: false,
            should_emit_metadata: false,
            is_catalog_committer,
            operation: None,
            engine_info: None,
            engine_commit_info: None,
            add_files_metadata: Vec::new(),
            remove_files_metadata: Vec::new(),
            set_transactions: Vec::new(),
            commit_timestamp,
            user_domain_metadata_additions: Vec::new(),
            system_domain_metadata_additions: Vec::new(),
            user_domain_removals: Vec::new(),
            data_change: true,
            is_blind_append: false,
            dv_matched_files: Vec::new(),
            physical_clustering_columns,
            state,
        };
        assert(r@.adds =~= Seq::<D>::empty());
        assert(r@.removes =~= Seq::<FilteredView<D>>::empty());
        assert(r@.set_transactions =~= Seq::<SetTransactionView>::empty());
        assert(r@.user_domains =~= Seq::<DomainMetadataView>::empty());
        assert(r@.system_domains =~= Seq::<DomainMetadataView>::empty());
        assert(r@.removals =~= Seq::<Seq<char>>::empty());
        assert(r@.dv_files =~= Seq::<DvBatchView<D>>::empty());
        r
    }

    /// A short text that says on which version the transaction is based.
    pub fn debug_text(&self) -> (r: String)
        ensures
            r@ == "Transaction { read_snapshot version: "@ + (match self@.read {
                Some(s) => text::decimal(s.config.version as nat),
                None => "create_table"@,
            }) + ", engine_info: "@ + (if self@.engine_info is Some {
                "true"@
            } else {
                "false"@
            }) + " }"@,
    {
        let version = match &self.read_snapshot {
            Some(s) => unsigned_text(s.version()),
            None => "create_table".to_owned(),
        };
        let has_info = if self.engine_info.is_some() {
            "true"
        } else {
            "false"
        };
        text5(
            "Transaction { read_snapshot version: ",
            version.as_str(),
            ", engine_info: ",
            has_info,
            " }",
        )
    }

    /// Sets whether the transaction changes data. It does not where it only moves rows between
    /// files or changes metadata.
    pub fn with_data_change(self, data_change: bool) -> (r: Transaction<S, D>)
        ensures
            r@ == (TxnView { data_change, ..self@ }),
    {
        let mut txn = self;
        txn.data_change = data_change;
        txn
    }

    /// Sets whether the transaction changes data.
    pub fn set_data_change(&mut self, data_change: bool)
        ensures
            final(self)@ == (TxnView { data_change, ..old(self)@ }),
    {
        self.data_change = data_change;
    }

    /// Sets what the engine says of itself in the commit info.
    pub fn with_engine_info(self, engine_info: &str) -> (r: Transaction<S, D>)
        ensures
            r@ == (TxnView { engine_info: Some(engine_info@), ..self@ }),
    {
        let mut txn = self;
        txn.engine_info = Some(engine_info.to_owned());
        txn
    }

    /// Sets what the engine adds to the commit info. The fields that the library itself writes are
    /// left out of it.
    pub fn with_commit_info(self, engine_commit_info: D, commit_info_schema: StructType) -> (r:
        Transaction<S, D>)
        ensures
            r@ == (TxnView {
                engine_commit_info: Some((engine_commit_info, commit_info_schema@)),
                ..self@
            }),
    {
        let mut txn = self;
        txn.engine_commit_info = Some((engine_commit_info, commit_info_schema));
        txn
    }

    /// Records a transaction of an application. Each application can appear once; the commit checks
    /// that.
    pub fn with_transaction_id(self, app_id: String, version: i64) -> (r: Transaction<S, D>)
        ensures
            r@ == (TxnView {
                set_transactions: self@.set_transactions.push(
                    SetTransactionView {
                        app_id: app_id@,
                        version,
                        last_updated: Some(self@.timestamp),
                    },
                ),
                ..self@
            }),
    {
        let mut txn = self;
        let ghost before = txn@.set_transactions;
        let action = SetTransaction::new(app_id, version, Some(txn.commit_timestamp));
        txn.set_transactions.push(action);
        assert(txn@.set_transactions =~= before.push(action@));
        txn
    }

    /// Sets the configuration of a domain. Each domain can appear once, set or removed; the commit
    /// checks that.
    pub fn with_domain_metadata(self, domain: String, configuration: String) -> (r: Transaction<
        S,
        D,
    >)
        ensures
            r@ == (TxnView {
                user_domains: self@.user_domains.push(
                    DomainMetadataView {
                        domain: domain@,
                        configuration: configuration@,
                        removed: false,
                    },
                ),
                ..self@
            }),
    {
        let mut txn = self;
        let ghost before = txn@.user_domains;
        let action = DomainMetadata::new(domain, configuration);
        txn.user_domain_metadata_additions.push(action);
        assert(txn@.user_domains =~= before.push(action@));
        txn
    }

    /// The schema of the rows that stand for added files.
    pub fn add_files_schema(&self) -> (r: StructType)
        ensures
            r@ == evaluation::base_add_files_fields(),
    {
        base_add_files_schema()
    }

    /// Whether the transaction creates a table.
    pub fn is_create_table(&self) -> (r: bool)
        ensures
            r == creates_table(self@),
    {
        self.read_snapshot.is_none()
    }

    /// The table before the commit. Fails where the transaction creates the table.
    pub fn read_snapshot(&self) -> (r: DeltaResult<&Snapshot>)
        ensures
            self@.read matches Some(s) ==> (r matches Ok(t) && t@ == s),
            self@.read is None ==> error::failure(r) == Some(
                ErrorView::InternalError(
                    "read_snapshot() called on create-table transaction (read_snapshot is None)"@,
                ),
            ),
    {
        match &self.read_snapshot {
            Some(s) => Ok(s),
            None => Err(
                Error::internal_error(
                    "read_snapshot() called on create-table transaction (read_snapshot is None)",
                ),
            ),
        }
    }

    /// The version of the commit: the one after that of the table, and zero for a new table.
    pub fn get_commit_version(&self) -> (r: Version)
        requires
            self@.read matches Some(s) ==> s.config.version < u64::MAX,
        ensures
            r == commit_version_of(self@),
    {
        match &self.read_snapshot {
            Some(s) => s.version() + 1,
            None => 0,
        }
    }

    /// The schema of the statistics of data files. Clustering columns are always in it.
    pub fn stats_schema(&self) -> (r: StructType)
        requires
            table_configuration::config_valid(self@.config),
        ensures
            r@ == schema_transform::stripped_fields(
                stats_schema::expected_stats_of(
                    table_configuration::physical_data_fields(self@.config),
                    table_configuration::stats_config_of(self@.config),
                    self@.clustering,
                    None,
                ),
            ),
    {
        let required = self.physical_clustering_columns.as_ref();
        assert(stats_schema::opt_columns_ref(required) == self@.clustering);
        let none: Option<&Vec<ColumnName>> = None;
        self.effective_table_config.build_expected_stats_schemas(required, none)
    }

    /// The physical names of the columns that have statistics. Clustering columns are always among
    /// them, partition columns never.
    pub fn stats_columns(&self) -> (r: Vec<ColumnName>)
        requires
            table_configuration::config_valid(self@.config),
        ensures
            expressions::columns_view(r@) == stats_schema::stats_columns_of(
                table_configuration::physical_data_fields(self@.config),
                table_configuration::stats_config_of(self@.config),
                self@.clustering,
            ),
    {
        let required = self.physical_clustering_columns.as_ref();
        assert(stats_schema::opt_columns_ref(required) == self@.clustering);
        self.effective_table_config.physical_stats_column_names(required)
    }

    /// What turns rows with logical names into rows of data files: it leaves out the partition
    /// columns, unless they are materialised.
    pub fn generate_logical_to_physical(&self) -> (r: Vec<FieldEdit>)
        ensures
            evaluation::edits_view(r@) == write_edits(self@.config),
    {
        let mut edits: Vec<FieldEdit> = Vec::new();
        let names = &self.effective_table_config.metadata.partition_columns;
        let ghost n = text::texts(names@);
        assert(evaluation::edits_view(edits@) =~= Seq::<EditView>::empty());
        if !self.effective_table_config.is_feature_enabled(
            &TableFeature::MaterializePartitionColumns,
        ) {
            let mut i: usize = 0;
            assert(drop_edits(n.take(0)) =~= Seq::<EditView>::empty());
            while i < names.len()
                invariant
                    i <= names@.len(),
                    n == text::texts(names@),
                    evaluation::edits_view(edits@) == drop_edits(n.take(i as int)),
                decreases names.len() - i,
            {
                let ghost before = evaluation::edits_view(edits@);
                let edit = FieldEdit::DropIfExists { field: names[i].clone() };
                edits.push(edit);
                assert(evaluation::edits_view(edits@) =~= before.push(edit@));
                assert(drop_edits(n.take(i + 1)) =~= drop_edits(n.take(i as int)).push(edit@));
                i += 1;
            }
            assert(n.take(i as int) =~= n);
        }
        edits
    }

    /// Checks that the transaction can be marked as a blind append, where it is. Domains may be set
    /// and removed: only what concerns data files counts.
    pub fn validate_blind_append_semantics(&self) -> (r: DeltaResult<()>)
        ensures
            error::failure(r) == blind_append_fault(self@),
    {
        if !self.is_blind_append {
            return Ok(());
        }
        if self.is_create_table() {
            return Err(
                Error::invalid_transaction_state(
                    "Blind append is not supported for create-table transactions",
                ),
            );
        }
        if self.add_files_metadata.len() == 0 {
            return Err(
                Error::invalid_transaction_state(
                    "Blind append requires at least one added data file",
                ),
            );
        }
        if !self.data_change {
            return Err(
                Error::invalid_transaction_state("Blind append requires data_change to be true"),
            );
        }
        if self.remove_files_metadata.len() > 0 {
            return Err(Error::invalid_transaction_state("Blind append cannot remove files"));
        }
        if self.dv_matched_files.len() > 0 {
            return Err(
                Error::invalid_transaction_state("Blind append cannot update deletion vectors"),
            );
        }
        Ok(())
    }

    /// Checks that added files have the statistics of the clustering columns, where the table is
    /// clustered.
    pub fn validate_add_files_stats(&self, add_files: &Vec<Vec<FileStats>>) -> (r: DeltaResult<()>)
        ensures
            error::failure(r) == add_files_fault(self@, file_stats::all_stats(add_files@)),
    {
        if add_files.len() == 0 {
            return Ok(());
        }
        match &self.physical_clustering_columns {
            Some(columns) => if columns.len() > 0 {
                verify_stats(&self.effective_table_config.physical_schema, columns, add_files)
            } else {
                Ok(())
            },
            None => Ok(()),
        }
    }
}

/// Marks the transactions that can write data files.
pub trait WritesData {

}

impl WritesData for ExistingTable {

}

impl WritesData for CreateTable {

}

impl<S: WritesData, D> Transaction<S, D> {
    /// Adds a batch of files. Its rows are of the schema [`Transaction::add_files_schema`].
    pub fn add_files(&mut self, add_metadata: D)
        ensures
            final(self)@ == (TxnView { adds: old(self)@.adds.push(add_metadata), ..old(self)@ }),
    {
        self.add_files_metadata.push(add_metadata);
    }

    /// What an engine needs to write data files.
    pub fn get_write_context(&self) -> (r: WriteContext)
        requires
            table_configuration::config_valid(self@.config),
        ensures
            r@ == write_context_of(self@),
    {
        WriteContext {
            target_dir: self.effective_table_config.table_root.clone(),
            logical_schema: self.effective_table_config.logical_schema.clone(),
            physical_schema: self.effective_table_config.physical_write_schema(),
            logical_to_physical: self.generate_logical_to_physical(),
            column_mapping_mode: self.effective_table_config.column_mapping_mode,
            stats_columns: self.stats_columns(),
        }
    }
}

/// The version of the commit of a transaction.
pub open spec fn commit_version_of<D>(t: TxnView<D>) -> Version {
    match t.read {
        Some(s) => (s.config.version + 1) as u64,
        None => 0,
    }
}

/// The edits that leave out fields.
pub open spec fn drop_edits(names: Seq<Seq<char>>) -> Seq<EditView> {
    Seq::new(names.len(), |i: int| EditView::DropIfExists { field: names[i] })
}

/// The edits that turn rows with logical names into rows of data files.
pub open spec fn write_edits(c: ConfigView) -> Seq<EditView> {
    if table_configuration::feature_enabled(c.protocol, c.properties, FeatureView::MaterializePartitionColumns) {
        Seq::empty()
    } else {
        drop_edits(c.metadata.partition_columns)
    }
}

/// Why a transaction cannot be marked as a blind append.
pub open spec fn blind_append_fault<D>(t: TxnView<D>) -> Option<ErrorView> {
    if !t.blind_append {
        None
    } else if creates_table(t) {
        Some(
            ErrorView::InvalidTransactionState(
                "Blind append is not supported for create-table transactions"@,
            ),
        )
    } else if t.adds.len() == 0 {
        Some(
            ErrorView::InvalidTransactionState(
                "Blind append requires at least one added data file"@,
            ),
        )
    } else if !t.data_change {
        Some(
            ErrorView::InvalidTransactionState("Blind append requires data_change to be true"@),
        )
    } else if t.removes.len() > 0 {
        Some(ErrorView::InvalidTransactionState("Blind append cannot remove files"@))
    } else if t.dv_files.len() > 0 {
        Some(ErrorView::InvalidTransactionState("Blind append cannot update deletion vectors"@))
    } else {
        None
    }
}

/// Why added files lack statistics.
pub open spec fn add_files_fault<D>(t: TxnView<D>, stats: Seq<Seq<FileStatsView>>) -> Option<
    ErrorView,
> {
    match t.clustering {
        Some(columns) => if stats.len() > 0 && columns.len() > 0 {
            file_stats::added_stats_fault(t.config.physical, columns, stats)
        } else {
            None
        },
        None => None,
    }
}

/// What an engine needs to write data files.
#[derive(Debug, PartialEq, Eq)]
pub struct WriteContext {
    /// The URL of the table.
    pub target_dir: String,
    pub logical_schema: StructType,
    /// The schema of data files.
    pub physical_schema: StructType,
    /// What turns rows with logical names into rows of data files.
    pub logical_to_physical: Vec<FieldEdit>,
    pub column_mapping_mode: ColumnMappingMode,
    /// The columns that have statistics.
    pub stats_columns: Vec<ColumnName>,
}

/// The mathematical value of a [`WriteContext`].
pub struct WriteContextView {
    pub target_dir: Seq<char>,
    pub logical: Seq<FieldView>,
    pub physical: Seq<FieldView>,
    pub edits: Seq<EditView>,
    pub mode: ColumnMappingMode,
    pub stats_columns: Seq<Seq<Seq<char>>>,
}

impl View for WriteContext {
    type V = WriteContextView;

    open spec fn view(&self) -> WriteContextView {
        WriteContextView {
            target_dir: self.target_dir@,
            logical: self.logical_schema@,
            physical: self.physical_schema@,
            edits: evaluation::edits_view(self.logical_to_physical@),
            mode: self.column_mapping_mode,
            stats_columns: expressions::columns_view(self.stats_columns@),
        }
    }
}

/// What an engine needs to write data files for a transaction.
pub open spec fn write_context_of<D>(t: TxnView<D>) -> WriteContextView {
    WriteContextView {
        target_dir: t.config.table_root,
        logical: t.config.logical,
        physical: table_configuration::write_fields(t.config),
        edits: write_edits(t.config),
        mode: t.config.mode,
        stats_columns: stats_schema::stats_columns_of(
            table_configuration::physical_data_fields(t.config),
            table_configuration::stats_config_of(t.config),
            t.clustering,
        ),
    }
}

impl WriteContext {
    pub fn target_dir(&self) -> (r: &str)
        ensures
            r@ == self@.target_dir,
    {
        self.target_dir.as_str()
    }

    pub fn logical_schema(&self) -> (r: &StructType)
        ensures
            r@ == self@.logical,
    {
        &self.logical_schema
    }

    pub fn physical_schema(&self) -> (r: &StructType)
        ensures
            r@ == self@.physical,
    {
        &self.physical_schema
    }

    pub fn logical_to_physical(&self) -> (r: &Vec<FieldEdit>)
        ensures
            evaluation::edits_view(r@) == self@.edits,
    {
        &self.logical_to_physical
    }

    /// A new place for a deletion vector, below the given directory of the table.
    pub fn new_deletion_vector_path(&self, random_prefix: String) -> (r: DeletionVectorPath)
        ensures
            r.table_path@ == self@.target_dir,
            r.prefix@ == random_prefix@,
            bindings::is_uuid_text(r.uuid@),
    {
        DeletionVectorPath {
            table_path: self.target_dir.clone(),
            prefix: random_prefix,
            uuid: new_uuid_text(),
        }
    }
}

/// A transaction begins with nothing staged: no files, no application transactions, no domains. It
/// changes data, brings neither protocol nor metadata, and is no blind append.
pub proof fn transactions_begin_empty<D>(
    read: Option<SnapshotView>,
    config: ConfigView,
    catalog_committer: bool,
    timestamp: i64,
    clustering: Option<Seq<Seq<Seq<char>>>>,
)
    ensures
        ({
            let t = fresh_txn::<D>(read, config, catalog_committer, timestamp, clustering);
            &&& t.read == read && t.config == config && t.timestamp == timestamp
            &&& t.catalog_committer == catalog_committer && t.clustering == clustering
            &&& !t.emit_protocol && !t.emit_metadata && t.data_change && !t.blind_append
            &&& t.operation is None && t.engine_info is None && t.engine_commit_info is None
            &&& t.adds.len() == 0 && t.removes.len() == 0 && t.dv_files.len() == 0
            &&& t.set_transactions.len() == 0 && t.user_domains.len() == 0
            &&& t.system_domains.len() == 0 && t.removals.len() == 0
        }),
{
}

/// An engine writes to the directory of the table, with its schema and its column mapping, and data
/// files hold all columns where partition columns are materialised, and otherwise only data columns.
/// It collects statistics on the columns that have them, the clustering columns among them.
pub proof fn engines_write_to_the_table<D>(t: TxnView<D>)
    ensures
        ({
            let w = write_context_of(t);
            &&& w.target_dir == t.config.table_root
            &&& w.logical == t.config.logical
            &&& w.mode == t.config.mode
            &&& table_configuration::feature_supported(
                t.config.protocol,
                FeatureView::MaterializePartitionColumns,
            ) ==> w.physical == t.config.physical && w.edits.len() == 0
            &&& !table_configuration::feature_supported(
                t.config.protocol,
                FeatureView::MaterializePartitionColumns,
            ) ==> w.physical == table_configuration::physical_data_fields(t.config)
                && w.edits.len() == t.config.metadata.partition_columns.len() && forall|i: int|
                0 <= i < w.edits.len() ==> #[trigger] w.edits[i] == (EditView::DropIfExists {
                    field: t.config.metadata.partition_columns[i],
                })
            &&& t.clustering matches Some(columns) ==> forall|path: Seq<Seq<char>>|
                stats_schema::leaf_columns(
                    table_configuration::physical_data_fields(t.config),
                    Seq::empty(),
                ).contains(path) && stats_schema::under_one_of(columns, path)
                    ==> #[trigger] w.stats_columns.contains(path)
        }),
{
    if let Some(columns) = t.clustering {
        let data = table_configuration::physical_data_fields(t.config);
        assert forall|path: Seq<Seq<char>>|
            stats_schema::leaf_columns(data, Seq::empty()).contains(path)
                && stats_schema::under_one_of(columns, path) implies #[trigger] write_context_of(
            t,
        ).stats_columns.contains(path) by {
            stats_schema::required_columns_have_stats(
                data,
                table_configuration::stats_config_of(t.config),
                t.clustering,
                path,
            );
        }
    }
}

} // verus!
