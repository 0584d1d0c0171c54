//! Committing a transaction: the checks, the actions, and what becomes of the transaction.
use vstd::prelude::*;

use crate::actions::{
    self, CommitInfo, CommitInfoView, DomainMetadata, DomainMetadataView, Metadata, MetadataView,
    Protocol, ProtocolView, SetTransaction, SetTransactionView,
};
use crate::bindings::{self, join_url, new_uuid_text};
use crate::commit_info::{self, commit_info_evaluation};
use crate::commit_plan::{
    self, assign_batch_row_ids, determine_commit_type, validate_commit_type, ActionView,
    BatchRowIds, BatchRowIdsView, CommitAction, CommitInputs, CommitMetadata, CommitMetadataView,
    CommitReads, InputsView,
};
use crate::domain_changes;
use crate::error::{self, DeltaResult, Error, ErrorView};
use crate::evaluation::{
    self, add_evaluation, data_change_evaluation, new_dv_evaluation, remove_evaluation,
    restored_add_evaluation, Evaluation, EvaluationView,
};
use crate::file_stats::{self, FileStats, FileStatsView};
use crate::log_validation;
use crate::row_tracking::DEFAULT_HIGH_WATER_MARK;
use crate::table_configuration;
use crate::table_features::{FeatureView, TableFeature};
use crate::text::{clone_opt, same_text, text3};
use crate::transaction::{self, Transaction, TxnView};

verus! {

/// Whether the application of a set-transaction action has already come.
pub open spec fn app_id_repeats(s: Seq<SetTransactionView>, i: int) -> bool {
    exists|j: int| 0 <= j < i && (#[trigger] s[j]).app_id == s[i].app_id
}

/// The first application that comes twice, as an error.
pub open spec fn app_ids_fault(s: Seq<SetTransactionView>) -> Option<ErrorView> {
    log_validation::first_fault(
        |i: int|
            if app_id_repeats(s, i) {
                Some(
                    ErrorView::Generic(
                        "app_id "@ + s[i].app_id + " already exists in transaction"@,
                    ),
                )
            } else {
                None
            },
        0,
        s.len() as int,
    )
}

/// Whether a transaction both adds and removes data while the changes of the table are recorded.
pub open spec fn needs_change_files<D>(t: TxnView<D>) -> bool {
    !transaction::creates_table(t) && t.adds.len() > 0 && t.removes.len() > 0 && t.data_change
        && t.config.properties.enable_change_data_feed == Some(true)
}

/// The error for a transaction that both adds and removes data while the changes of the table are
/// recorded.
pub open spec fn change_files_error() -> ErrorView {
    ErrorView::Generic(
        "Cannot add and remove data in the same transaction when Change Data Feed is enabled (delta.enableChangeDataFeed = true). This would require writing CDC files for DML operations, which is not yet supported. Consider using separate transactions: one to add files, another to remove files."@,
    )
}

/// Why a transaction cannot be committed, whatever the table and the staged files hold.
pub open spec fn operations_fault<D>(t: TxnView<D>) -> Option<ErrorView> {
    match app_ids_fault(t.set_transactions) {
        Some(e) => Some(e),
        None => match transaction::blind_append_fault(t) {
            Some(e) => Some(e),
            None => if needs_change_files(t) {
                Some(change_files_error())
            } else {
                None
            },
        },
    }
}

/// Why a transaction cannot be committed, whatever the table holds.
pub open spec fn staged_fault<D>(t: TxnView<D>, stats: Seq<Seq<FileStatsView>>) -> Option<ErrorView> {
    match operations_fault(t) {
        Some(e) => Some(e),
        None => transaction::add_files_fault(t, stats),
    }
}

/// The row identifiers of the added files, where the table tracks rows.
pub open spec fn added_row_ids<D>(
    t: TxnView<D>,
    stats: Seq<Seq<FileStatsView>>,
    high_water_mark: Option<i64>,
) -> Result<Option<BatchRowIdsView>, ErrorView> {
    if t.adds.len() == 0 {
        Ok(None)
    } else if transaction::commit_version_of(t) > i64::MAX {
        Err(ErrorView::Generic("Commit version too large to fit in i64"@))
    } else if !table_configuration::writes_row_tracking(t.config) {
        Ok(None)
    } else if transaction::creates_table(t) {
        Err(
            ErrorView::Unsupported(
                "Row tracking is not yet supported for create table with data"@,
            ),
        )
    } else {
        let mark = match high_water_mark {
            Some(m) => m,
            None => DEFAULT_HIGH_WATER_MARK,
        };
        match commit_plan::batch_row_ids(mark, stats) {
            Err(e) => Err(e),
            Ok(ids) => Ok(Some(ids)),
        }
    }
}

/// Why a transaction that creates a table cannot be committed.
pub open spec fn create_fault<D>(t: TxnView<D>) -> Option<ErrorView> {
    if !transaction::creates_table(t) {
        None
    } else if t.dv_files.len() > 0 {
        Some(
            ErrorView::InternalError("CREATE TABLE transaction cannot have DV update actions"@),
        )
    } else if t.removes.len() > 0 {
        Some(ErrorView::InternalError("CREATE TABLE transaction cannot have remove actions"@))
    } else {
        None
    }
}

/// The add actions of a commit, one for each batch.
pub open spec fn add_actions(n: nat, ids: Option<BatchRowIdsView>, version: i64) -> Seq<ActionView> {
    Seq::new(
        n,
        |i: int|
            ActionView::Add {
                batch: i,
                row_tracking: match ids {
                    Some(ids) => Some((ids.base_row_ids[i], version)),
                    None => None,
                },
            },
    )
}

/// The set-transaction actions of a commit.
pub open spec fn set_transaction_actions(s: Seq<SetTransactionView>) -> Seq<ActionView> {
    Seq::new(s.len(), |i: int| ActionView::SetTransaction(s[i]))
}

/// The domain metadata actions of a commit.
pub open spec fn domain_actions(s: Seq<DomainMetadataView>) -> Seq<ActionView> {
    Seq::new(s.len(), |i: int| ActionView::DomainMetadata(s[i]))
}

/// The remove actions of a commit.
pub open spec fn remove_actions(n: nat) -> Seq<ActionView> {
    Seq::new(n, |i: int| ActionView::Remove { batch: i })
}

/// The actions that remove files with new deletion vectors.
pub open spec fn remove_updated_actions(n: nat) -> Seq<ActionView> {
    Seq::new(n, |i: int| ActionView::RemoveUpdated { batch: i })
}

/// The actions that add files with new deletion vectors.
pub open spec fn add_updated_actions(n: nat) -> Seq<ActionView> {
    Seq::new(n, |i: int| ActionView::AddUpdated { batch: i })
}

/// The protocol action of a commit, if any.
pub open spec fn protocol_action(p: Option<ProtocolView>) -> Seq<ActionView> {
    match p {
        Some(p) => seq![ActionView::Protocol(p)],
        None => Seq::empty(),
    }
}

/// The metadata action of a commit, if any.
pub open spec fn metadata_action(m: Option<MetadataView>) -> Seq<ActionView> {
    match m {
        Some(m) => seq![ActionView::Metadata(m)],
        None => Seq::empty(),
    }
}

/// The actions of a commit, in order.
pub open spec fn actions_of<D>(
    t: TxnView<D>,
    info: CommitInfoView,
    ids: Option<BatchRowIdsView>,
    domains: Seq<DomainMetadataView>,
) -> Seq<ActionView> {
    seq![ActionView::CommitInfo(info)] + protocol_action(commit_plan::new_protocol_of(t)) + metadata_action(
        commit_plan::new_metadata_of(t),
    ) + add_actions(t.adds.len(), ids, transaction::commit_version_of(t) as i64) + set_transaction_actions(
        t.set_transactions,
    ) + domain_actions(domains) + remove_actions(t.removes.len()) + remove_updated_actions(
        t.dv_files.len(),
    ) + add_updated_actions(t.dv_files.len())
}

/// What a commit writes, and what the committer is told.
#[derive(Debug)]
pub struct CommitPlan {
    /// The actions, in the order in which they are written.
    pub actions: Vec<CommitAction>,
    pub commit_metadata: CommitMetadata,
    pub in_commit_timestamp: Option<i64>,
    /// How what the engine adds to the commit info becomes one action with it.
    pub commit_info: Option<Evaluation>,
    /// How the metadata of added files become add actions.
    pub add: Evaluation,
    /// How the metadata of removed files become remove actions.
    pub remove: Evaluation,
    /// How the metadata of files with new deletion vectors become remove actions.
    pub remove_updated: Evaluation,
    /// How the metadata of files with new deletion vectors become add actions, step by step.
    pub add_updated: Vec<Evaluation>,
}

/// The mathematical value of a [`CommitPlan`].
pub struct PlanView {
    pub actions: Seq<ActionView>,
    pub metadata: CommitMetadataView,
    pub in_commit_timestamp: Option<i64>,
    pub commit_info: Option<EvaluationView>,
    pub add: EvaluationView,
    pub remove: EvaluationView,
    pub remove_updated: EvaluationView,
    pub add_updated: Seq<EvaluationView>,
}

impl View for CommitPlan {
    type V = PlanView;

    open spec fn view(&self) -> PlanView {
        PlanView {
            actions: commit_plan::actions_view(self.actions@),
            metadata: self.commit_metadata@,
            in_commit_timestamp: self.in_commit_timestamp,
            commit_info: match self.commit_info {
                Some(e) => Some(e@),
                None => None,
            },
            add: self.add@,
            remove: self.remove@,
            remove_updated: self.remove_updated@,
            add_updated: Seq::new(
                self.add_updated@.len(),
                |i: int| self.add_updated@[i]@,
            ),
        }
    }
}

/// The plan of a commit that nothing stands in the way of.
pub open spec fn accepted_plan<D>(
    t: TxnView<D>,
    inputs: InputsView,
    ids: Option<BatchRowIdsView>,
    txn_id: Seq<char>,
    log_root: Seq<char>,
) -> PlanView {
    let ict = commit_plan::in_commit_timestamp_of(t, inputs.previous);
    let info = actions::commit_info_of(
        t.timestamp,
        ict,
        t.operation,
        t.engine_info,
        t.blind_append,
        txn_id,
    );
    let domains = domain_changes::domain_changes_of(
        t,
        inputs.domains,
        match ids {
            Some(ids) => Some(ids.high_water_mark),
            None => None,
        },
    );
    PlanView {
        actions: actions_of(t, info, ids, domains),
        metadata: commit_plan::commit_metadata_of(t, log_root, ict, domains),
        in_commit_timestamp: ict,
        commit_info: match t.engine_commit_info {
            Some((_, engine)) => Some(commit_info::commit_info_evaluation_of(info, Seq::empty(), engine)),
            None => None,
        },
        add: evaluation::add_evaluation_of(t.data_change, ids is Some),
        remove: evaluation::remove_evaluation_of(t.timestamp, t.data_change, false),
        remove_updated: evaluation::remove_evaluation_of(t.timestamp, t.data_change, true),
        add_updated: seq![
            evaluation::new_dv_evaluation_of(),
            evaluation::restored_add_evaluation_of(),
            evaluation::data_change_evaluation_of(t.data_change),
        ],
    }
}

/// The plan of a commit, or the first reason why there is none. The identifier of the transaction
/// and the URL of the log, or the error in its place, are given.
pub open spec fn plan_of<D>(
    t: TxnView<D>,
    inputs: InputsView,
    txn_id: Seq<char>,
    log_root: Result<Seq<char>, ErrorView>,
) -> Result<PlanView, ErrorView> {
    if staged_fault(t, inputs.stats) is Some {
        Err(staged_fault(t, inputs.stats)->0)
    } else {
        match added_row_ids(t, inputs.stats, inputs.high_water_mark) {
            Err(e) => Err(e),
            Ok(ids) => if domain_changes::domains_fault(t) is Some {
                Err(domain_changes::domains_fault(t)->0)
            } else if create_fault(t) is Some {
                Err(create_fault(t)->0)
            } else {
                match log_root {
                    Err(e) => Err(e),
                    Ok(root) => if commit_plan::txn_committer_fault(t) is Some {
                        Err(commit_plan::txn_committer_fault(t)->0)
                    } else {
                        Ok(accepted_plan(t, inputs, ids, txn_id, root))
                    },
                }
            },
        }
    }
}

/// What a commit needs in order not to overflow: there is a next version, and a next in-commit
/// timestamp.
pub open spec fn commit_fits<D>(t: TxnView<D>, inputs: InputsView) -> bool {
    &&& t.read matches Some(s) ==> s.config.version < u64::MAX
    &&& inputs.previous matches Some(p) ==> p < i64::MAX
    &&& inputs.stats.len() == t.adds.len()
}

impl<S, D> Transaction<S, D> {
    /// Checks that no application comes twice.
    fn validate_app_ids(&self) -> (r: DeltaResult<()>)
        ensures
            error::failure(r) == app_ids_fault(self@.set_transactions),
    {
        let list = &self.set_transactions;
        let ghost s = self@.set_transactions;
        let ghost fault = |i: int|
            if app_id_repeats(s, i) {
                Some(
                    ErrorView::Generic(
                        "app_id "@ + s[i].app_id + " already exists in transaction"@,
                    ),
                )
            } else {
                None
            };
        let mut i: usize = 0;
        while i < list.len()
            invariant
                i <= list@.len(),
                s == self@.set_transactions,
                s == transaction::set_transactions_view(list@),
                fault == |i: int|
                    if app_id_repeats(s, i) {
                        Some(
                            ErrorView::Generic(
                                "app_id "@ + s[i].app_id + " already exists in transaction"@,
                            ),
                        )
                    } else {
                        None
                    },
                app_ids_fault(s) == log_validation::first_fault(fault, i as int, s.len() as int),
            decreases list.len() - i,
        {
            assert(s[i as int] == list@[i as int]@);
            assert(fault(i as int) == (if app_id_repeats(s, i as int) {
                Some(
                    ErrorView::Generic(
                        "app_id "@ + s[i as int].app_id + " already exists in transaction"@,
                    ),
                )
            } else {
                None
            }));
            let mut j: usize = 0;
            while j < i
                invariant
                    j <= i < list@.len(),
                    s == self@.set_transactions,
                    s == transaction::set_transactions_view(list@),
                    fault(i as int) == (if app_id_repeats(s, i as int) {
                        Some(
                            ErrorView::Generic(
                                "app_id "@ + s[i as int].app_id + " already exists in transaction"@,
                            ),
                        )
                    } else {
                        None
                    }),
                    app_ids_fault(s) == log_validation::first_fault(fault, i as int, s.len() as int),
                    forall|k: int| 0 <= k < j ==> (#[trigger] s[k]).app_id != s[i as int].app_id,
                decreases i - j,
            {
                assert(s[j as int] == list@[j as int]@);
                if same_text(list[j].app_id.as_str(), list[i].app_id.as_str()) {
                    assert(s[j as int].app_id == s[i as int].app_id);
                    assert(app_id_repeats(s, i as int));
                    return Err(
                        Error::Generic(
                            text3(
                                "app_id ",
                                list[i].app_id.as_str(),
                                " already exists in transaction",
                            ),
                        ),
                    );
                }
                j += 1;
            }
            i += 1;
        }
        Ok(())
    }

    /// Checks what can be checked before anything is read from the table: no application comes
    /// twice, a blind append is one, data is not both added and removed while changes are recorded,
    /// and the added files have the statistics of the clustering columns.
    pub fn validate_commit(&self, file_stats: &Vec<Vec<FileStats>>) -> (r: DeltaResult<()>)
        ensures
            error::failure(r) == staged_fault(self@, file_stats::all_stats(file_stats@)),
    {
        if let Err(e) = self.validate_operations() {
            return Err(e);
        }
        self.validate_add_files_stats(file_stats)
    }

    /// Checks what can be checked before the statistics of the added files are read: no application
    /// comes twice, a blind append is one, and data is not both added and removed while changes are
    /// recorded.
    pub fn validate_operations(&self) -> (r: DeltaResult<()>)
        ensures
            error::failure(r) == operations_fault(self@),
    {
        if let Err(e) = self.validate_app_ids() {
            return Err(e);
        }
        if let Err(e) = self.validate_blind_append_semantics() {
            return Err(e);
        }
        if !self.is_create_table() && self.add_files_metadata.len() > 0
            && self.remove_files_metadata.len() > 0 && self.data_change {
            let recorded = match self.effective_table_config.table_properties.enable_change_data_feed {
                Some(b) => b,
                None => false,
            };
            if recorded {
                return Err(
                    Error::generic(
                        "Cannot add and remove data in the same transaction when Change Data Feed is enabled (delta.enableChangeDataFeed = true). This would require writing CDC files for DML operations, which is not yet supported. Consider using separate transactions: one to add files, another to remove files.",
                    ),
                );
            }
        }
        Ok(())
    }

    /// What has to be read from the table before the commit can be planned.
    pub fn commit_reads(&self) -> (r: CommitReads)
        ensures
            r.in_commit_timestamp == (!transaction::creates_table(self@) && table_configuration::feature_enabled(
                self@.config.protocol,
                self@.config.properties,
                FeatureView::InCommitTimestamp,
            )),
            r.high_water_mark == (!transaction::creates_table(self@) && self@.adds.len() > 0
                && table_configuration::writes_row_tracking(self@.config)),
            r.domains == (!transaction::creates_table(self@) && self@.removals.len() > 0),
    {
        let exists = !self.is_create_table();
        CommitReads {
            in_commit_timestamp: exists && self.effective_table_config.is_feature_enabled(
                &TableFeature::InCommitTimestamp,
            ),
            high_water_mark: exists && self.add_files_metadata.len() > 0
                && self.effective_table_config.should_write_row_tracking(),
            domains: exists && self.user_domain_removals.len() > 0,
        }
    }

    /// The in-commit timestamp of the commit, given that of the table: none where the table has
    /// none; the time of the transaction for a new table; else the later of that time and one
    /// millisecond after the previous timestamp.
    pub fn get_in_commit_timestamp(&self, previous: Option<i64>) -> (r: Option<i64>)
        requires
            previous matches Some(p) ==> p < i64::MAX,
        ensures
            r == commit_plan::in_commit_timestamp_of(self@, previous),
    {
        if !self.effective_table_config.is_feature_enabled(&TableFeature::InCommitTimestamp) {
            return None;
        }
        if self.is_create_table() {
            return Some(self.commit_timestamp);
        }
        match previous {
            None => None,
            Some(p) => if p < self.commit_timestamp {
                Some(self.commit_timestamp)
            } else {
                Some(p + 1)
            },
        }
    }

    /// The row identifiers of the added files, where the table tracks rows.
    fn generate_adds(&self, file_stats: &Vec<Vec<FileStats>>, high_water_mark: Option<i64>) -> (r:
        DeltaResult<Option<BatchRowIds>>)
        requires
            self@.read matches Some(s) ==> s.config.version < u64::MAX,
        ensures
            added_row_ids(self@, file_stats::all_stats(file_stats@), high_water_mark) matches Err(e) ==> error::failure(
                r,
            ) == Some(e),
            added_row_ids(self@, file_stats::all_stats(file_stats@), high_water_mark) matches Ok(None) ==> (
            r matches Ok(None)),
            added_row_ids(self@, file_stats::all_stats(file_stats@), high_water_mark) matches Ok(Some(ids)) ==> (
            r matches Ok(Some(got)) && got@ == ids),
    {
        if self.add_files_metadata.len() == 0 {
            return Ok(None);
        }
        if self.get_commit_version() > i64::MAX as u64 {
            return Err(Error::generic("Commit version too large to fit in i64"));
        }
        if !self.effective_table_config.should_write_row_tracking() {
            return Ok(None);
        }
        if self.is_create_table() {
            return Err(
                Error::unsupported("Row tracking is not yet supported for create table with data"),
            );
        }
        let mark: i64 = match high_water_mark {
            Some(m) => m,
            None => DEFAULT_HIGH_WATER_MARK,
        };
        match assign_batch_row_ids(mark, file_stats) {
            Ok(ids) => Ok(Some(ids)),
            Err(e) => Err(e),
        }
    }

    /// What the committer is told about the commit, given the URL of the log or the error in its
    /// place. Fails where the committer does not fit the table.
    pub fn commit_metadata_at(
        &self,
        log_root: DeltaResult<String>,
        in_commit_timestamp: Option<i64>,
        domain_metadata_changes: Vec<DomainMetadata>,
    ) -> (r: DeltaResult<CommitMetadata>)
        requires
            self@.read matches Some(s) ==> s.config.version < u64::MAX,
        ensures
            log_root matches Err(e) ==> error::failure(r) == Some(e@),
            log_root matches Ok(root) ==> {
                &&& commit_plan::txn_committer_fault(self@) matches Some(e) ==> error::failure(r) == Some(e)
                &&& commit_plan::txn_committer_fault(self@) is None ==> (r matches Ok(m) && m@
                    == commit_plan::commit_metadata_of(
                    self@,
                    root@,
                    in_commit_timestamp,
                    actions::domains_view(domain_metadata_changes@),
                ))
            },
    {
        let log_root = match log_root {
            Ok(root) => root,
            Err(e) => {
                return Err(e);
            },
        };
        let commit_type = determine_commit_type(
            self.is_create_table(),
            &self.effective_table_config,
        );
        if let Err(e) = validate_commit_type(self.is_catalog_committer, commit_type) {
            return Err(e);
        }
        let (read_protocol, read_metadata, max_published_version) = match &self.read_snapshot {
            Some(s) => (
                Some(s.table_configuration.protocol.clone()),
                Some(s.table_configuration.metadata.clone()),
                s.log_segment.listed.max_published_version,
            ),
            None => (None, None, None),
        };
        Ok(
            CommitMetadata {
                log_root,
                version: self.get_commit_version(),
                commit_type,
                in_commit_timestamp: match in_commit_timestamp {
                    Some(ts) => ts,
                    None => self.commit_timestamp,
                },
                max_published_version,
                read_protocol,
                read_metadata,
                new_protocol: self.new_protocol(),
                new_metadata: self.new_metadata(),
                domain_metadata_changes,
            },
        )
    }

    /// What the committer is told about the commit. Fails where the URL of the log cannot be made or
    /// where the committer does not fit the table.
    pub fn create_commit_metadata(
        &self,
        in_commit_timestamp: Option<i64>,
        domain_metadata_changes: Vec<DomainMetadata>,
    ) -> (r: DeltaResult<CommitMetadata>)
        requires
            self@.read matches Some(s) ==> s.config.version < u64::MAX,
        ensures
            log_root_of(self@.config.table_root) matches Err(e) ==> error::failure(r) == Some(e),
            log_root_of(self@.config.table_root) matches Ok(root) ==> {
                &&& commit_plan::txn_committer_fault(self@) matches Some(e) ==> error::failure(r) == Some(e)
                &&& commit_plan::txn_committer_fault(self@) is None ==> (r matches Ok(m) && m@
                    == commit_plan::commit_metadata_of(
                    self@,
                    root,
                    in_commit_timestamp,
                    actions::domains_view(domain_metadata_changes@),
                ))
            },
    {
        self.commit_metadata_at(
            log_root(self.effective_table_config.table_root.as_str()),
            in_commit_timestamp,
            domain_metadata_changes,
        )
    }

    /// The protocol that the commit brings.
    fn new_protocol(&self) -> (r: Option<Protocol>)
        ensures
            table_configuration::opt_protocol(r) == commit_plan::new_protocol_of(self@),
    {
        if self.should_emit_protocol {
            Some(self.effective_table_config.protocol.clone())
        } else {
            None
        }
    }

    /// The metadata that the commit brings.
    fn new_metadata(&self) -> (r: Option<Metadata>)
        ensures
            commit_plan::opt_bare_metadata(r) == commit_plan::new_metadata_of(self@),
    {
        if self.should_emit_metadata {
            Some(self.effective_table_config.metadata.clone())
        } else {
            None
        }
    }

    /// The actions of the commit, in order: the commit info comes first.
    fn generate_actions(
        &self,
        info: CommitInfo,
        ids: Option<BatchRowIds>,
        domains: &Vec<DomainMetadata>,
    ) -> (r: Vec<CommitAction>)
        requires
            self@.read matches Some(s) ==> s.config.version < u64::MAX,
            ids matches Some(ids) ==> ids@.base_row_ids.len() == self@.adds.len(),
            self@.adds.len() > 0 ==> transaction::commit_version_of(self@) <= i64::MAX,
        ensures
            commit_plan::actions_view(r@) == actions_of(
                self@,
                info@,
                commit_plan::opt_row_ids(ids),
                actions::domains_view(domains@),
            ),
    {
        let ghost t = self@;
        let ghost ids_view = commit_plan::opt_row_ids(ids);
        let mut out: Vec<CommitAction> = vec![CommitAction::CommitInfo(info)];
        assert(commit_plan::actions_view(out@) =~= seq![ActionView::CommitInfo(info@)]);
        let ghost s0 = commit_plan::actions_view(out@);
        if let Some(p) = self.new_protocol() {
            out.push(CommitAction::Protocol(p));
        }
        let ghost s1 = s0 + protocol_action(commit_plan::new_protocol_of(t));
        assert(commit_plan::actions_view(out@) =~= s1);
        if let Some(m) = self.new_metadata() {
            out.push(CommitAction::Metadata(m));
        }
        let ghost s2 = s1 + metadata_action(commit_plan::new_metadata_of(t));
        assert(commit_plan::actions_view(out@) =~= s2);
        self.push_adds(ids, &mut out);
        push_set_transactions(&self.set_transactions, &mut out);
        push_domains(domains, &mut out);
        push_removes(self.remove_files_metadata.len(), &mut out);
        push_remove_updated(self.dv_matched_files.len(), &mut out);
        push_add_updated(self.dv_matched_files.len(), &mut out);
        assert(t.removes.len() == self.remove_files_metadata@.len());
        assert(t.dv_files.len() == self.dv_matched_files@.len());
        out
    }

    /// Appends the add actions to a list.
    fn push_adds(&self, ids: Option<BatchRowIds>, out: &mut Vec<CommitAction>)
        requires
            self@.read matches Some(s) ==> s.config.version < u64::MAX,
            ids matches Some(ids) ==> ids@.base_row_ids.len() == self@.adds.len(),
            self@.adds.len() > 0 ==> transaction::commit_version_of(self@) <= i64::MAX,
        ensures
            commit_plan::actions_view(final(out)@) == commit_plan::actions_view(old(out)@) + add_actions(
                self@.adds.len(),
                commit_plan::opt_row_ids(ids),
                transaction::commit_version_of(self@) as i64,
            ),
    {
        let ghost start = commit_plan::actions_view(out@);
        let n: usize = self.add_files_metadata.len();
        if n == 0 {
            assert(commit_plan::actions_view(out@) =~= start + add_actions(
                0,
                commit_plan::opt_row_ids(ids),
                transaction::commit_version_of(self@) as i64,
            ));
            return;
        }
        let version: i64 = self.get_commit_version() as i64;
        match ids {
            None => {
                let ghost none: Option<BatchRowIdsView> = None;
                let mut i: usize = 0;
                assert(start + add_actions(n as nat, none, version).take(0) =~= start);
                while i < n
                    invariant
                        i <= n,
                        none is None,
                        commit_plan::actions_view(out@) == start + add_actions(n as nat, none, version).take(
                            i as int,
                        ),
                    decreases n - i,
                {
                    let ghost before = commit_plan::actions_view(out@);
                    let action = CommitAction::Add { batch: i, row_tracking: None };
                    out.push(action);
                    assert(commit_plan::actions_view(out@) =~= before.push(action@));
                    assert(commit_plan::actions_view(out@) =~= start + add_actions(n as nat, none, version).take(
                        i + 1,
                    ));
                    i += 1;
                }
                assert(add_actions(n as nat, none, version).take(n as int) =~= add_actions(
                    n as nat,
                    none,
                    version,
                ));
            },
            Some(ids) => {
                let ghost view = Some(ids@);
                let lists = ids.base_row_ids;
                let ghost all = lists@;
                let mut i: usize = 0;
                assert(start + add_actions(n as nat, view, version).take(0) =~= start);
                for list in it: lists
                    invariant
                        it.seq() == all,
                        i == it.index(),
                        all.len() == n,
                        view matches Some(v) && v.base_row_ids == commit_plan::id_lists(all),
                        commit_plan::actions_view(out@) == start + add_actions(n as nat, view, version).take(
                            i as int,
                        ),
                {
                    let ghost before = commit_plan::actions_view(out@);
                    assert(list == all[i as int]);
                    let action = CommitAction::Add {
                        batch: i,
                        row_tracking: Some((list, version)),
                    };
                    out.push(action);
                    assert(commit_plan::actions_view(out@) =~= before.push(action@));
                    assert(commit_plan::actions_view(out@) =~= start + add_actions(n as nat, view, version).take(
                        i + 1,
                    ));
                    i += 1;
                }
                assert(add_actions(n as nat, view, version).take(n as int) =~= add_actions(
                    n as nat,
                    view,
                    version,
                ));
            },
        }
    }

    /// Plans the commit, given what was read from the table, the identifier of the transaction, and
    /// the URL of the log or the error in its place.
    pub fn prepare_commit_with(
        &self,
        inputs: &CommitInputs,
        txn_id: String,
        log_root: DeltaResult<String>,
    ) -> (r: DeltaResult<CommitPlan>)
        requires
            commit_fits(self@, inputs@),
        ensures
            plan_of(self@, inputs@, txn_id@, text_outcome(log_root)) matches Err(e) ==> error::failure(r)
                == Some(e),
            plan_of(self@, inputs@, txn_id@, text_outcome(log_root)) matches Ok(p) ==> (
            r matches Ok(q) && q@ == p),
    {
        if let Err(e) = self.validate_commit(&inputs.file_stats) {
            return Err(e);
        }
        let in_commit_timestamp = self.get_in_commit_timestamp(
            inputs.previous_in_commit_timestamp,
        );
        let info = CommitInfo::with_txn_id(
            self.commit_timestamp,
            in_commit_timestamp,
            clone_opt(&self.operation),
            clone_opt(&self.engine_info),
            self.is_blind_append,
            txn_id,
        );
        let commit_info: Option<Evaluation> = match &self.engine_commit_info {
            Some((_, engine_schema)) => Some(commit_info_evaluation(&info, engine_schema)),
            None => None,
        };
        let ids = match self.generate_adds(&inputs.file_stats, inputs.row_id_high_water_mark) {
            Ok(ids) => ids,
            Err(e) => {
                return Err(e);
            },
        };
        let ghost ids_view = commit_plan::opt_row_ids(ids);
        let with_row_ids = ids.is_some();
        let high_water_mark: Option<i64> = match &ids {
            Some(ids) => Some(ids.high_water_mark),
            None => None,
        };
        let domains = match self.generate_domain_metadata_actions(
            &inputs.existing_domains,
            high_water_mark,
        ) {
            Ok(domains) => domains,
            Err(e) => {
                return Err(e);
            },
        };
        if self.is_create_table() && self.dv_matched_files.len() > 0 {
            return Err(
                Error::internal_error("CREATE TABLE transaction cannot have DV update actions"),
            );
        }
        if self.is_create_table() && self.remove_files_metadata.len() > 0 {
            return Err(
                Error::internal_error("CREATE TABLE transaction cannot have remove actions"),
            );
        }
        proof {
            if let Some(v) = ids_view {
                lemma_batch_count(
                    match inputs@.high_water_mark {
                        Some(m) => m,
                        None => DEFAULT_HIGH_WATER_MARK,
                    },
                    inputs@.stats,
                );
            }
        }
        let actions = self.generate_actions(info, ids, &domains);
        let commit_metadata = match self.commit_metadata_at(
            log_root,
            in_commit_timestamp,
            domains,
        ) {
            Ok(m) => m,
            Err(e) => {
                return Err(e);
            },
        };
        let add_updated = vec![
            new_dv_evaluation(),
            restored_add_evaluation(),
            data_change_evaluation(self.data_change),
        ];
        let plan = CommitPlan {
            actions,
            commit_metadata,
            in_commit_timestamp,
            commit_info,
            add: add_evaluation(self.data_change, with_row_ids),
            remove: remove_evaluation(self.commit_timestamp, self.data_change, false),
            remove_updated: remove_evaluation(self.commit_timestamp, self.data_change, true),
            add_updated,
        };
        assert(plan@.add_updated =~= seq![
            evaluation::new_dv_evaluation_of(),
            evaluation::restored_add_evaluation_of(),
            evaluation::data_change_evaluation_of(self@.data_change),
        ]);
        Ok(plan)
    }

    /// Plans the commit, given what was read from the table, with a random transaction identifier.
    pub fn prepare_commit(&self, inputs: &CommitInputs) -> (r: DeltaResult<CommitPlan>)
        requires
            commit_fits(self@, inputs@),
        ensures
            exists|txn_id: Seq<char>|
                #![trigger bindings::is_uuid_text(txn_id)]
                bindings::is_uuid_text(txn_id) && match plan_of(
                    self@,
                    inputs@,
                    txn_id,
                    log_root_of(self@.config.table_root),
                ) {
                    Ok(p) => r matches Ok(q) && q@ == p,
                    Err(e) => error::failure(r) == Some(e),
                },
    {
        let txn_id = new_uuid_text();
        let ghost id = txn_id@;
        let root = log_root(self.effective_table_config.table_root.as_str());
        assert(text_outcome(root) == log_root_of(self@.config.table_root));
        let r = self.prepare_commit_with(inputs, txn_id, root);
        assert(bindings::is_uuid_text(id));
        r
    }
}

/// There are as many lists of row identifiers as batches.
proof fn lemma_batch_count(high_water_mark: i64, batches: Seq<Seq<FileStatsView>>)
    ensures
        commit_plan::batch_row_ids(high_water_mark, batches) matches Ok(ids) ==> ids.base_row_ids.len()
            == batches.len(),
    decreases batches.len(),
{
    if batches.len() > 0 {
        lemma_batch_count(high_water_mark, batches.drop_last());
    }
}

/// The outcome of an operation that gives a text.
pub open spec fn text_outcome(r: DeltaResult<String>) -> Result<Seq<char>, ErrorView> {
    match r {
        Ok(s) => Ok(s@),
        Err(e) => Err(e@),
    }
}

/// The URL of the log of a table.
pub open spec fn log_root_of(table_root: Seq<char>) -> Result<Seq<char>, ErrorView> {
    match bindings::joined_url(table_root, "_delta_log/"@) {
        Ok(u) => Ok(u),
        Err(e) => Err(ErrorView::InvalidUrl(e)),
    }
}

/// The URL of the log of a table. Fails where that of the table is not a URL.
pub fn log_root(table_root: &str) -> (r: DeltaResult<String>)
    ensures
        text_outcome(r) == log_root_of(table_root@),
{
    match join_url(table_root, "_delta_log/") {
        Ok(u) => Ok(u),
        Err(e) => Err(Error::InvalidUrl(e)),
    }
}

/// Appends set-transaction actions to a list.
fn push_set_transactions(list: &Vec<SetTransaction>, out: &mut Vec<CommitAction>)
    ensures
        commit_plan::actions_view(final(out)@) == commit_plan::actions_view(old(out)@) + set_transaction_actions(
            transaction::set_transactions_view(list@),
        ),
{
    let ghost start = commit_plan::actions_view(out@);
    let ghost all = set_transaction_actions(transaction::set_transactions_view(list@));
    let mut i: usize = 0;
    assert(start + all.take(0) =~= start);
    while i < list.len()
        invariant
            i <= list@.len(),
            all == set_transaction_actions(transaction::set_transactions_view(list@)),
            commit_plan::actions_view(out@) == start + all.take(i as int),
        decreases list.len() - i,
    {
        let ghost before = commit_plan::actions_view(out@);
        let action = CommitAction::SetTransaction(list[i].clone());
        out.push(action);
        assert(commit_plan::actions_view(out@) =~= before.push(action@));
        assert(commit_plan::actions_view(out@) =~= start + all.take(i + 1));
        i += 1;
    }
    assert(all.take(i as int) =~= all);
}

/// Appends domain metadata actions to a list.
fn push_domains(list: &Vec<DomainMetadata>, out: &mut Vec<CommitAction>)
    ensures
        commit_plan::actions_view(final(out)@) == commit_plan::actions_view(old(out)@) + domain_actions(actions::domains_view(list@)),
{
    let ghost start = commit_plan::actions_view(out@);
    let ghost all = domain_actions(actions::domains_view(list@));
    let mut i: usize = 0;
    assert(start + all.take(0) =~= start);
    while i < list.len()
        invariant
            i <= list@.len(),
            all == domain_actions(actions::domains_view(list@)),
            commit_plan::actions_view(out@) == start + all.take(i as int),
        decreases list.len() - i,
    {
        let ghost before = commit_plan::actions_view(out@);
        let action = CommitAction::DomainMetadata(list[i].clone());
        out.push(action);
        assert(commit_plan::actions_view(out@) =~= before.push(action@));
        assert(commit_plan::actions_view(out@) =~= start + all.take(i + 1));
        i += 1;
    }
    assert(all.take(i as int) =~= all);
}

/// Appends the actions of batches of removed files to a list.
fn push_removes(n: usize, out: &mut Vec<CommitAction>)
    ensures
        commit_plan::actions_view(final(out)@) == commit_plan::actions_view(old(out)@) + remove_actions(n as nat),
{
    let ghost start = commit_plan::actions_view(out@);
    let ghost all = remove_actions(n as nat);
    let mut i: usize = 0;
    assert(start + all.take(0) =~= start);
    while i < n
        invariant
            i <= n,
            all == remove_actions(n as nat),
            commit_plan::actions_view(out@) == start + all.take(i as int),
        decreases n - i,
    {
        let ghost before = commit_plan::actions_view(out@);
        let action = CommitAction::Remove { batch: i };
        out.push(action);
        assert(commit_plan::actions_view(out@) =~= before.push(action@));
        assert(commit_plan::actions_view(out@) =~= start + all.take(i + 1));
        i += 1;
    }
    assert(all.take(i as int) =~= all);
}

/// Appends the actions that remove files with new deletion vectors to a list.
fn push_remove_updated(n: usize, out: &mut Vec<CommitAction>)
    ensures
        commit_plan::actions_view(final(out)@) == commit_plan::actions_view(old(out)@) + remove_updated_actions(n as nat),
{
    let ghost start = commit_plan::actions_view(out@);
    let ghost all = remove_updated_actions(n as nat);
    let mut i: usize = 0;
    assert(start + all.take(0) =~= start);
    while i < n
        invariant
            i <= n,
            all == remove_updated_actions(n as nat),
            commit_plan::actions_view(out@) == start + all.take(i as int),
        decreases n - i,
    {
        let ghost before = commit_plan::actions_view(out@);
        let action = CommitAction::RemoveUpdated { batch: i };
        out.push(action);
        assert(commit_plan::actions_view(out@) =~= before.push(action@));
        assert(commit_plan::actions_view(out@) =~= start + all.take(i + 1));
        i += 1;
    }
    assert(all.take(i as int) =~= all);
}

/// Appends the actions that add files with new deletion vectors to a list.
fn push_add_updated(n: usize, out: &mut Vec<CommitAction>)
    ensures
        commit_plan::actions_view(final(out)@) == commit_plan::actions_view(old(out)@) + add_updated_actions(n as nat),
{
    let ghost start = commit_plan::actions_view(out@);
    let ghost all = add_updated_actions(n as nat);
    let mut i: usize = 0;
    assert(start + all.take(0) =~= start);
    while i < n
        invariant
            i <= n,
            all == add_updated_actions(n as nat),
            commit_plan::actions_view(out@) == start + all.take(i as int),
        decreases n - i,
    {
        let ghost before = commit_plan::actions_view(out@);
        let action = CommitAction::AddUpdated { batch: i };
        out.push(action);
        assert(commit_plan::actions_view(out@) =~= before.push(action@));
        assert(commit_plan::actions_view(out@) =~= start + all.take(i + 1));
        i += 1;
    }
    assert(all.take(i as int) =~= all);
}

} // verus!
